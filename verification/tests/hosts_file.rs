use unblocker_core::config::HostOverride;
use unblocker_core::ip_discovery::{
    hosts_block_lines, hosts_with_entries, parent_domains_of, remove_from_hosts, strip_unblocker_block, HostsEntry,
};
use unblocker_core::system::{
    hosts_apply_text, hosts_block, hosts_content_with_block, hosts_content_without_block, merge_overrides, nsswitch_fix,
    static_hosts_from, strip_marker,
};

fn ov(domain: &str, ips: &[&str]) -> HostOverride {
    HostOverride { domain: domain.to_string(), ips: ips.iter().map(|s| s.to_string()).collect() }
}

#[test]
fn block_lists_every_address_of_every_override() {
    let b = hosts_block(&[ov("a.com", &["1.1.1.1", "2.2.2.2"]), ov("b.com", &["3.3.3.3"])]);
    assert_eq!(b, "\n# BEGIN unblocker\n1.1.1.1 a.com\n2.2.2.2 a.com\n3.3.3.3 b.com\n# END unblocker\n");
    assert_eq!(hosts_block(&[]), "\n# BEGIN unblocker\n# END unblocker\n");
}

#[test]
fn apply_then_remove_restores_the_file() {
    let before = "127.0.0.1 localhost\n";
    let block = hosts_block(&[ov("a.com", &["1.1.1.1"])]);
    let applied = hosts_content_with_block(before, &block).expect("a write is needed");
    assert_eq!(applied, "127.0.0.1 localhost\n\n# BEGIN unblocker\n1.1.1.1 a.com\n# END unblocker\n");
    // Applying again finds the block in place: nothing to write.
    assert_eq!(hosts_content_with_block(&applied, &block), None);
    let removed = hosts_content_without_block(&applied).expect("there is a block to remove");
    assert_eq!(removed, before);
    // Nothing to remove from a file without the marker.
    assert_eq!(hosts_content_without_block(before), None);
}

#[test]
fn apply_replaces_a_stale_block() {
    let stale = "127.0.0.1 localhost\n\n# BEGIN unblocker\n9.9.9.9 a.com\n# END unblocker\n";
    let block = hosts_block(&[ov("a.com", &["1.1.1.1"])]);
    let applied = hosts_content_with_block(stale, &block).unwrap();
    assert_eq!(applied, "127.0.0.1 localhost\n\n# BEGIN unblocker\n1.1.1.1 a.com\n# END unblocker\n");
}

#[test]
fn strip_marker_needs_both_markers() {
    assert_eq!(strip_marker("a\n# BEGIN unblocker\nx\n"), "a\n# BEGIN unblocker\nx\n");
    assert_eq!(strip_marker("a  \n# BEGIN unblocker\nx\n# END unblocker\nb"), "a\nb");
}

#[test]
fn static_hosts_keep_the_first_entry_per_domain() {
    let out = static_hosts_from("1.1.1.1 web.telegram.org\n2.2.2.2 web.telegram.org\n# x\n3.3.3.3\n  4.4.4.4 t.me extra\n");
    assert_eq!(out.len(), 2);
    assert_eq!(out[0].domain, "web.telegram.org");
    assert_eq!(out[0].ips, vec!["1.1.1.1".to_string()]);
    assert_eq!(out[1].domain, "t.me");
    assert_eq!(out[1].ips, vec!["4.4.4.4".to_string()]);
}

#[test]
fn merge_keeps_the_configured_overrides() {
    let out = merge_overrides(
        vec![ov("a.com", &["1.1.1.1"])],
        vec![ov("a.com", &["9.9.9.9"]), ov("b.com", &["2.2.2.2"]), ov("b.com", &["3.3.3.3"])],
    );
    let doms: Vec<(String, Vec<String>)> = out.into_iter().map(|o| (o.domain, o.ips)).collect();
    assert_eq!(
        doms,
        vec![("a.com".to_string(), vec!["1.1.1.1".to_string()]), ("b.com".to_string(), vec!["2.2.2.2".to_string()])]
    );
}

#[test]
fn nsswitch_swaps_files_before_resolve() {
    let c = "passwd: files\nhosts: mymachines resolve [!UNAVAIL=return] files myhostname dns\n";
    let f = nsswitch_fix(c);
    assert!(f.needs_fix);
    assert_eq!(
        f.fixed,
        Some("passwd: files\nhosts: mymachines files resolve [!UNAVAIL=return] myhostname dns\n".to_string())
    );
    let ok = nsswitch_fix("hosts: files dns\n");
    assert!(!ok.needs_fix);
    assert_eq!(ok.fixed, None);
    // resolve before files, but not in the swappable form: back up, write nothing.
    let odd = nsswitch_fix("hosts: resolve files\n");
    assert!(odd.needs_fix);
    assert_eq!(odd.fixed, None);
}

#[test]
fn discovered_entries_replace_the_block() {
    let entries = vec![HostsEntry { host: "a.com".to_string(), ip: "1.2.3.4".to_string() }];
    let out = hosts_with_entries("127.0.0.1 localhost\n\n# BEGIN unblocker\n9.9.9.9\tz.com\n# END unblocker\n", &entries);
    assert_eq!(out, "127.0.0.1 localhost\n# BEGIN unblocker\n1.2.3.4\ta.com\n# END unblocker\n");
    assert_eq!(strip_unblocker_block("x\n# BEGIN unblocker\n1 a\n# END unblocker\ny"), "x\n\ny");
    assert_eq!(strip_unblocker_block("x\n# END unblocker\n# BEGIN unblocker\ny"), "x\n# END unblocker\n# BEGIN unblocker\ny");
}

#[test]
fn block_lines_are_read_between_the_markers() {
    let c = "1.1.1.1 outside.com\n# BEGIN unblocker\n2.2.2.2\tin.com\nsingle\n# END unblocker\n3.3.3.3 after.com\n";
    assert_eq!(hosts_block_lines(c), vec![("2.2.2.2".to_string(), "in.com".to_string())]);
}

#[test]
fn removal_ignores_case() {
    let existing = vec![
        HostsEntry { host: "A.com".to_string(), ip: "1.1.1.1".to_string() },
        HostsEntry { host: "b.com".to_string(), ip: "2.2.2.2".to_string() },
    ];
    let kept = remove_from_hosts(existing, &["a.COM".to_string()]);
    assert_eq!(kept.len(), 1);
    assert_eq!(kept[0].host, "b.com");
}

#[test]
fn parent_domains_walk_up_the_name() {
    assert_eq!(
        parent_domains_of("scontent-hel3-1.cdninstagram.com"),
        vec![
            "scontent-hel3-1.cdninstagram.com".to_string(),
            "cdninstagram.com".to_string(),
            "instagram.com".to_string(),
            "com".to_string()
        ]
    );
    assert_eq!(
        parent_domains_of("a.cdnjs.example.org"),
        vec!["a.cdnjs.example.org".to_string(), "cdnjs.example.org".to_string(), "example.org".to_string(), "org".to_string()]
    );
    assert_eq!(parent_domains_of("cdn.com"), vec!["cdn.com".to_string(), "com".to_string()]);
    assert_eq!(
        parent_domains_of("a.cdnjs.com"),
        vec!["a.cdnjs.com".to_string(), "cdnjs.com".to_string(), "com".to_string()]
    );
    assert_eq!(
        parent_domains_of("cdnfacebook.com"),
        vec!["cdnfacebook.com".to_string(), "facebook.com".to_string(), "com".to_string()]
    );
    assert_eq!(parent_domains_of("a."), vec!["a.".to_string()]);
    assert_eq!(parent_domains_of("localhost"), vec!["localhost".to_string()]);
}

#[test]
fn written_entries_are_read_back() {
    let entries = vec![
        HostsEntry { host: "a.com".to_string(), ip: "1.2.3.4".to_string() },
        HostsEntry { host: "b.com".to_string(), ip: "5.6.7.8".to_string() },
    ];
    let out = hosts_with_entries("127.0.0.1 localhost\n", &entries);
    assert_eq!(
        hosts_block_lines(&out),
        vec![("1.2.3.4".to_string(), "a.com".to_string()), ("5.6.7.8".to_string(), "b.com".to_string())]
    );
    let odd = vec![HostsEntry { host: "a#b.com".to_string(), ip: "9.9.9.9".to_string() }];
    let out = hosts_with_entries("", &odd);
    assert_eq!(hosts_block_lines(&out), vec![("9.9.9.9".to_string(), "a#b.com".to_string())]);
}

#[test]
fn applying_strips_first_then_writes_one_block() {
    let stale = "127.0.0.1 localhost\n\n# BEGIN unblocker\n9.9.9.9 old.com\n# END unblocker\n";
    let applied = hosts_apply_text(stale, &[ov("a.com", &["1.1.1.1", "2.2.2.2"])]).expect("a write is needed");
    assert_eq!(applied, "127.0.0.1 localhost\n\n# BEGIN unblocker\n1.1.1.1 a.com\n2.2.2.2 a.com\n# END unblocker\n");
    assert_eq!(applied.matches("# BEGIN unblocker").count(), 1);
    assert_eq!(hosts_apply_text(&applied, &[ov("a.com", &["1.1.1.1", "2.2.2.2"])]), None);
    assert_eq!(hosts_apply_text(stale, &[]), Some("127.0.0.1 localhost\n".to_string()));
    assert_eq!(hosts_apply_text("127.0.0.1 localhost\n", &[]), None);
}
