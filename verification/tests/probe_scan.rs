use unblocker_core::zapret::probe::{
    curl_spawn_failed, curl_verdict, delete_table_args, engine_exited_early, engine_spawn_failed, kill_args,
    nft_failure_message, nft_install_failed, probe_curl_args, probe_engine_args, probe_log_path, probe_nfqws_path,
    probe_nft_steps, probe_queue, probe_result, probe_table_name, probe_tables_to_delete, table_delete_args, scan_confirms, scan_curl_args,
    strategy_file_words, PROBE_TABLE_PREFIX, PROBE_UID, probe_cleanup,
};

#[test]
fn probe_queues_cycle_through_fifty() {
    assert_eq!(probe_queue(0), 201);
    assert_eq!(probe_queue(49), 250);
    assert_eq!(probe_queue(50), 201);
    assert_eq!(probe_queue(65536), 201);
    assert_eq!(probe_queue(65537), 202);
}

#[test]
fn probe_table_and_log_names() {
    assert_eq!(PROBE_TABLE_PREFIX, "unblocker_probe_");
    assert_eq!(probe_table_name(52051, 7), "unblocker_probe_52051_7");
    assert_eq!(probe_log_path(52051, 7), "/tmp/unblocker-probe-nfqws-52051-7.log");
}

#[test]
fn probe_table_rules_queue_only_the_probe_user() {
    let t = probe_table_name(1, 2);
    let p = probe_nft_steps(&t, PROBE_UID, 203);
    assert_eq!(p.len(), 5);
    assert!(!p[0].must_succeed);
    assert!(p[1..].iter().all(|s| s.must_succeed));
    assert_eq!(
        p[3].args,
        vec!["add", "rule", "inet", "unblocker_probe_1_2", "output", "meta", "skuid", "65534", "tcp", "dport", "{80,443}", "queue", "num", "203", "bypass"]
    );
    assert_eq!(p[4].args[8], "udp");
    assert_eq!(delete_table_args(&t), vec!["delete", "table", "inet", "unblocker_probe_1_2"]);
    assert_eq!(kill_args(99), vec!["-9", "99"]);
}

#[test]
fn probe_engine_and_curl_arguments() {
    let s = vec!["--dpi-desync=fake".to_string()];
    assert_eq!(probe_engine_args(&s, 201), vec!["--dpi-desync=fake", "--qnum", "201", "--debug=1"]);
    assert_eq!(
        probe_curl_args("https://x.com/"),
        vec!["--max-time", "4", "-4", "-sS", "-L", "-o", "/dev/null", "-w", "%{http_code}", "https://x.com/"]
    );
    assert_eq!(probe_nfqws_path(&[false, true]), "/usr/local/bin/nfqws");
    assert_eq!(probe_nfqws_path(&[]), "nfqws");
}

#[test]
fn curl_verdicts() {
    let ok = curl_verdict(true, Some(0), "200", "");
    assert!(ok.http_200 && ok.curl_ok && ok.error.is_none());
    let redirect = curl_verdict(false, Some(22), " 301\n", "x");
    assert!(redirect.http_200 && redirect.curl_ok && redirect.error.is_none());
    let timeout = curl_verdict(false, Some(28), "000", "curl: (28) Operation timed out\nsecond line");
    assert!(!timeout.http_200 && !timeout.curl_ok);
    assert_eq!(timeout.error.as_deref(), Some("curl exit=Some(28) body=000 stderr=curl: (28) Operation timed out"));
    let signalled = curl_verdict(false, None, "", "");
    assert_eq!(signalled.error.as_deref(), Some("curl exit=None body= stderr="));
    let neg = curl_verdict(false, Some(-1), "", &"e".repeat(200));
    assert_eq!(neg.error, Some(format!("curl exit=Some(-1) body= stderr={}", "e".repeat(120))));
    let not_found = curl_verdict(true, Some(0), "404", "");
    assert!(!not_found.http_200 && not_found.curl_ok && not_found.error.is_none());
    let spawn = curl_spawn_failed("No such file");
    assert!(!spawn.curl_ok && !spawn.http_200);
    assert_eq!(spawn.error.as_deref(), Some("curl spawn: No such file"));
}

#[test]
fn probe_results() {
    let s = vec!["--a".to_string(), "--b".to_string()];
    let r = probe_result(&s, "x.com", curl_verdict(true, Some(0), "200", ""), 321);
    assert_eq!(r.strat, "--a --b");
    assert_eq!(r.host, "x.com");
    assert!(r.tcp_443 && r.tls_handshake && r.cert_chain_valid && r.http_200);
    assert_eq!(r.ms, 321);
    let f = nft_install_failed(&s, "x.com", &nft_failure_message(&["add".to_string()], "denied"));
    assert!(!f.http_200 && !f.tcp_443 && f.ms == 0);
    assert_eq!(f.error.as_deref(), Some("nft install: nft [\"add\"] failed: denied"));
    assert_eq!(engine_spawn_failed(&s, "x.com", "oops").error.as_deref(), Some("nfqws spawn: oops"));
    assert_eq!(engine_exited_early(&s, "x.com", Some(1)).error.as_deref(), Some("nfqws exited early: Some(1)"));
    assert_eq!(engine_exited_early(&s, "x.com", None).error.as_deref(), Some("nfqws exited early: None"));
}

#[test]
fn leftover_probe_tables_are_found() {
    let listing = "table inet unblocker\ntable inet unblocker_probe_52051_7\n  table ip unblocker_probe_1_2  \ntable inet filter\ntable ip6 unblocker_probe_9\n";
    assert_eq!(
        probe_tables_to_delete(listing),
        vec![
            ("inet".to_string(), "unblocker_probe_52051_7".to_string()),
            ("ip".to_string(), "unblocker_probe_1_2".to_string())
        ]
    );
    assert_eq!(table_delete_args("ip", "unblocker_probe_1_2"), vec!["delete", "table", "ip", "unblocker_probe_1_2"]);
    assert!(probe_tables_to_delete("").is_empty());
}

#[test]
fn address_scan_helpers() {
    assert_eq!(
        scan_curl_args("x.com", "1.2.3.4", "https://x.com/"),
        vec!["--max-time", "5", "-4", "-sk", "-o", "/dev/null", "-w", "%{http_code}", "--resolve", "x.com:443:1.2.3.4", "https://x.com/"]
    );
    assert!(scan_confirms(true, b"200"));
    assert!(!scan_confirms(true, b"301"));
    assert!(!scan_confirms(false, b"200"));
    assert!(!scan_confirms(true, b"20"));
    assert_eq!(strategy_file_words(" --a\t--b\n--c "), vec!["--a", "--b", "--c"]);
}

#[test]
fn cleanup_kills_the_engine_before_deleting_the_table() {
    let c = probe_cleanup(99, &"unblocker_probe_1_2".to_string());
    assert_eq!(c[0], ("kill".to_string(), vec!["-9".to_string(), "99".to_string()]));
    assert_eq!(
        c[1],
        ("nft".to_string(), vec!["delete".to_string(), "table".to_string(), "inet".to_string(), "unblocker_probe_1_2".to_string()])
    );
}
