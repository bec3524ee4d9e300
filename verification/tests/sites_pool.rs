use unblocker_core::ip_discovery::pool::precompiled_ips_for;
use unblocker_core::ip_discovery::sites::{all, asset_probe_url, SiteKind};

#[test]
fn watched_sites() {
    let s = all();
    assert_eq!(s.len(), 14);
    assert_eq!(s[0].host, "youtube.com");
    assert_eq!(s[9].host, "instagram.com");
    assert_eq!(s[9].kind, SiteKind::Ip);
    assert_eq!(s[13].kind, SiteKind::Wss);
    assert_eq!(s[0].describe(), format!("{:<22} (Dpi)", "youtube.com"));
    assert_eq!(s[11].describe(), "web.whatsapp.com       (Ip)");
}

#[test]
fn asset_urls_per_host_family() {
    assert!(asset_probe_url("instagram.com").unwrap().starts_with("https://scontent-hel3-1.cdninstagram.com/v/"));
    assert_eq!(asset_probe_url("www.facebook.com"), Some("https://www.facebook.com/"));
    assert_eq!(asset_probe_url("g.whatsapp.net"), Some("https://faq.whatsapp.com/ru/web/26000012/?category=5245235"));
    assert_eq!(asset_probe_url("static.xx.fbcdn.net"), Some("https://www.instagram.com/"));
    assert_eq!(asset_probe_url("mmg.whatsapp.net"), Some("https://www.instagram.com/"));
    assert_eq!(asset_probe_url("example.com"), None);
}

#[test]
fn precompiled_addresses() {
    assert_eq!(precompiled_ips_for("faq.whatsapp.com"), vec!["157.240.0.174", "31.13.72.52"]);
    assert_eq!(precompiled_ips_for("t.me").len(), 8);
    assert_eq!(precompiled_ips_for("telegram.org")[0], "149.154.175.50");
    assert!(precompiled_ips_for("example.com").is_empty());
}
