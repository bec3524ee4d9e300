use unblocker_core::dns::{
    build_dns_query, cloudflare_doh_query_url, doh_data_values, google_doh_query_url, parse_dns_response, urlencode,
};
use unblocker_core::tls::{client_hello_fits, discovery_client_hello, scanner_client_hello};

#[test]
fn dns_query_encodes_labels() {
    let q = build_dns_query("vk.com");
    assert_eq!(
        q,
        vec![0xAB, 0xCD, 0x01, 0x00, 0x00, 0x01, 0, 0, 0, 0, 0, 0, 2, b'v', b'k', 3, b'c', b'o', b'm', 0, 0, 1, 0, 1]
    );
}

fn answer(rtype: u8, rdata: &[u8]) -> Vec<u8> {
    let mut r = vec![0xAB, 0xCD, 0x81, 0x80, 0, 1, 0, 1, 0, 0, 0, 0];
    r.extend_from_slice(&[1, b'a', 0, 0, 1, 0, 1]);
    r.extend_from_slice(&[0xC0, 0x0C, 0, rtype, 0, 1, 0, 0, 0, 60, 0, rdata.len() as u8]);
    r.extend_from_slice(rdata);
    r
}

#[test]
fn dns_response_gives_first_a_record() {
    assert_eq!(parse_dns_response(&answer(1, &[93, 184, 216, 34])), Some("93.184.216.34".to_string()));
    assert_eq!(parse_dns_response(&answer(5, &[1, 2, 3, 4])), None);
    assert_eq!(parse_dns_response(&[0u8; 11]), None);
    let mut no_answers = answer(1, &[1, 2, 3, 4]);
    no_answers[7] = 0;
    assert_eq!(parse_dns_response(&no_answers), None);
}

#[test]
fn urlencode_keeps_unreserved_bytes() {
    assert_eq!(urlencode("a-b_c.d~e"), "a-b_c.d~e");
    assert_eq!(urlencode("a b/é"), "a%20b%2F%C3%A9");
}

#[test]
fn doh_urls() {
    assert_eq!(google_doh_query_url("x.com"), "https://dns.google/resolve?name=x.com&type=A");
    assert_eq!(cloudflare_doh_query_url("x.com"), "https://cloudflare-dns.com/dns-query?name=x.com&type=A");
}

#[test]
fn doh_values_in_order() {
    let body = r#"{"Answer":[{"name":"x.com","type":5,"data":"y.com."},{"type":1,"data":"1.2.3.4"}]}"#;
    assert_eq!(doh_data_values(body), vec!["y.com.", "1.2.3.4"]);
    assert_eq!(doh_data_values(r#"{"data":"unterminated"#), Vec::<String>::new());
}

const HELLO_EXTS_A: [u8; 45] = [
    0x00, 0x00, 0x00, 0x06, 0x00, 0x04, 0x00, 0x00, 0x01, b'a', // server_name
    0x00, 0x2b, 0x00, 0x03, 0x02, 0x03, 0x04, // supported_versions: TLS 1.3
    0x00, 0x0a, 0x00, 0x06, 0x00, 0x04, 0x00, 0x1d, 0x00, 0x17, // supported_groups
    0x00, 0x0d, 0x00, 0x08, 0x00, 0x06, 0x04, 0x03, 0x08, 0x04, 0x04, 0x01, // signature_algorithms
    0x00, 0x33, 0x00, 0x02, 0x00, 0x00, // key_share, no shares
];

fn check_hello(r: &[u8], random: u8) {
    assert_eq!(r.len(), 97);
    assert_eq!(&r[0..5], &[0x16, 0x03, 0x01, 0x00, 92]);
    assert_eq!(&r[5..9], &[0x01, 0x00, 0x00, 88]);
    assert_eq!(&r[9..11], &[0x03, 0x03]);
    assert!(r[11..43].iter().all(|&b| b == random));
    assert_eq!(&r[43..52], &[0x00, 0x00, 0x02, 0x13, 0x01, 0x01, 0x00, 0x00, 45]);
    assert_eq!(&r[52..], &HELLO_EXTS_A);
}

#[test]
fn scanner_hello_layout() {
    check_hello(&scanner_client_hello("a"), 0xAB);
}

#[test]
fn discovery_hello_layout() {
    check_hello(&discovery_client_hello("a"), 0);
    let long = "x".repeat(253);
    let r = discovery_client_hello(&long);
    assert_eq!(r.len(), 253 + 96);
    assert_eq!(&r[3..5], &[0x01, 0x58]);
    assert_eq!(&r[59..61], &[0x00, 0xfd]);
    assert_eq!(&r[61..61 + 253], long.as_bytes());
    assert!(client_hello_fits(&long));
    assert!(!client_hello_fits(&"x".repeat(16294)));
}
