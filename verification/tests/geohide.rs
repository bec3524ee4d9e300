use unblocker_core::ip_discovery::geohide::{fetch_geohide_hosts, filter_to_targets, parse_hosts_format};

#[test]
fn parse_simple_hosts() {
    let body = "\
# this is a comment
157.240.0.174 instagram.com
31.13.66.63 scontent.cdninstagram.com
57.144.244.192 static.cdninstagram.com graph.instagram.com

# blank line above, then a malformed line
notanip foo
157.240.0.174 # inline comment
";
    let out = parse_hosts_format(body);
    assert_eq!(out.len(), 4, "got {:?}", out);
    assert_eq!(out[0], ("instagram.com".into(), "157.240.0.174".into()));
    assert_eq!(out[1], ("scontent.cdninstagram.com".into(), "31.13.66.63".into()));
    assert_eq!(out[2], ("static.cdninstagram.com".into(), "57.144.244.192".into()));
    assert_eq!(out[3], ("graph.instagram.com".into(), "57.144.244.192".into()));
}

#[test]
fn filter_subdomain_match() {
    let entries = vec![
        ("scontent-hel3-1.cdninstagram.com".into(), "31.13.66.63".into()),
        ("www.instagram.com".into(), "157.240.0.174".into()),
        ("unrelated.com".into(), "1.2.3.4".into()),
    ];
    let targets = vec!["instagram.com", "facebook.com", "cdninstagram.com"];
    let out = filter_to_targets(entries, &targets);
    // scontent-hel3-1.cdninstagram.com is subdomain of cdninstagram.com -> match
    // www.instagram.com is a subdomain of instagram.com -> match
    // unrelated.com -> no match
    assert_eq!(out.len(), 2, "got {:?}", out);
}

#[test]
fn filter_is_case_insensitive_and_exact_or_subdomain() {
    let entries = vec![
        ("WWW.Instagram.COM".to_string(), "1.1.1.1".to_string()),
        ("notinstagram.com".to_string(), "2.2.2.2".to_string()),
        ("instagram.com".to_string(), "3.3.3.3".to_string()),
    ];
    let out = filter_to_targets(entries, &["Instagram.com"]);
    assert_eq!(
        out,
        vec![
            ("WWW.Instagram.COM".to_string(), "1.1.1.1".to_string()),
            ("instagram.com".to_string(), "3.3.3.3".to_string()),
        ]
    );
}

#[test]
fn parse_skips_inline_comment_and_addressless_lines() {
    let body = "1.2.3.4 a.com b.com # c.com\r\nAMD\n  ::1 localhost\n";
    let out = parse_hosts_format(body);
    assert_eq!(
        out,
        vec![
            ("a.com".to_string(), "1.2.3.4".to_string()),
            ("b.com".to_string(), "1.2.3.4".to_string()),
            ("localhost".to_string(), "::1".to_string()),
        ]
    );
}

#[test]
fn fetch_uses_fallback_only_when_primary_failed() {
    let p = Some("1.1.1.1 p.com\n".to_string());
    let f = Some("2.2.2.2 f.com\n".to_string());
    assert_eq!(fetch_geohide_hosts(p.clone(), f.clone()), vec![("p.com".to_string(), "1.1.1.1".to_string())]);
    assert_eq!(fetch_geohide_hosts(None, f), vec![("f.com".to_string(), "2.2.2.2".to_string())]);
    assert!(fetch_geohide_hosts(None, None).is_empty());
}
