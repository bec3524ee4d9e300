use unblocker_core::api::{
    alt_hex_text, apply_app_paths, bypass_enabled, default_cache_dir, default_paths, dns_udp_detail, enable_start,
    hex_secret, http80_detail, http_get_request, paths, secret_from_file, secret_override, service_active,
    socks5_connect_domain, socks5_connect_ipv4, socks5_error, socks5_greeting, socks5_reply_rest, split_target,
    status_line, tg_port, tg_proxy_url, tg_stale_listener_kills, AppPaths, EnableStart,
};

#[test]
fn cache_dir_choice() {
    assert_eq!(default_cache_dir(Some("/x/cache//"), Some("/home/u")), "/x/cache/unblocker");
    assert_eq!(default_cache_dir(Some("  "), Some("/home/u")), "/home/u/.cache/unblocker");
    assert_eq!(default_cache_dir(None, None), "/var/cache/unblocker");
}

#[test]
fn app_paths_defaults_and_updates() {
    let d = default_paths(None, Some("/home/u"));
    assert_eq!(d.etc_dir, "/etc/unblocker");
    assert_eq!(d.state_file, "/tmp/unblocker.state");
    assert_eq!(d.cache_dir, "/home/u/.cache/unblocker");
    assert_eq!(d.config_dir, None);
    let set = Some(AppPaths {
        etc_dir: "/e".to_string(),
        state_file: "/s".to_string(),
        cache_dir: "/c".to_string(),
        config_dir: None,
    });
    assert_eq!(paths(&set, None, None).etc_dir, "/e");
    assert_eq!(paths(&None, None, None).cache_dir, "/var/cache/unblocker");

    let u = apply_app_paths(&None, None, Some("/home/u"), Some("/data/etc"), Some(""), None, Some("/data/cfg"));
    assert!(u.changed);
    assert_eq!(u.paths.etc_dir, "/data/etc");
    assert_eq!(u.paths.state_file, "/tmp/unblocker.state");
    assert_eq!(u.paths.cache_dir, "/home/u/.cache/unblocker");
    assert_eq!(u.paths.config_dir, Some("/data/cfg".to_string()));
    let again = apply_app_paths(&Some(u.paths.clone()), None, None, Some("/data/etc"), None, None, None);
    assert!(!again.changed);
    assert_eq!(again.paths.config_dir, Some("/data/cfg".to_string()));
    let other = apply_app_paths(&Some(u.paths), None, None, None, Some("/s2"), None, None);
    assert!(other.changed);
    assert_eq!(other.paths.state_file, "/s2");
}

#[test]
fn enabled_and_stale_state() {
    assert!(service_active(" active\n"));
    assert!(!service_active("inactive"));
    assert!(bypass_enabled(true, None));
    assert!(bypass_enabled(false, Some("active\n")));
    assert!(!bypass_enabled(false, Some("failed")));
    assert!(!bypass_enabled(false, None));
    assert_eq!(enable_start(false, true), EnableStart::Fresh);
    assert_eq!(enable_start(true, true), EnableStart::AlreadyOn);
    assert_eq!(enable_start(true, false), EnableStart::ClearStale);
}

#[test]
fn telegram_proxy_settings() {
    assert_eq!(secret_override(Some("abc")), Some("abc".to_string()));
    assert_eq!(secret_override(Some("")), None);
    assert_eq!(secret_override(None), None);
    assert_eq!(tg_port(None), 1444);
    assert_eq!(tg_port(Some("2000")), 2000);
    assert_eq!(tg_port(Some("70000")), 1444);
    assert_eq!(tg_port(Some(" 2000")), 1444);
    let s = "0123456789abcdef0123456789abcdef";
    assert_eq!(secret_from_file(&format!("  {s}\n")), Some(s.to_string()));
    assert_eq!(secret_from_file("short"), None);
    assert_eq!(secret_from_file("   "), None);
    assert_eq!(hex_secret(&[0, 255, 16, 0xab]), "00ff10ab");
    assert_eq!(hex_secret(&[0x11; 16]).len(), 32);
    assert_eq!(tg_proxy_url(1444, "abc"), "tg://proxy?server=127.0.0.1&port=1444&secret=ddabc");
    let k = tg_stale_listener_kills(1444);
    assert_eq!(k[0], ("fuser".to_string(), vec!["-k".to_string(), "1444/tcp".to_string()]));
    assert_eq!(k[1], ("pkill".to_string(), vec!["-f".to_string(), "tg-ws-proxy".to_string()]));
}

#[test]
fn socks5_messages() {
    assert_eq!(socks5_greeting(), vec![5, 1, 0]);
    assert_eq!(socks5_connect_domain("vk.com", 443), vec![5, 1, 0, 3, 6, b'v', b'k', b'.', b'c', b'o', b'm', 1, 187]);
    assert_eq!(socks5_connect_ipv4([1, 1, 1, 1], 80), vec![5, 1, 0, 1, 1, 1, 1, 1, 0, 80]);
    assert_eq!(split_target("vk.com:443"), ("vk.com".to_string(), 443));
    assert_eq!(split_target("1.1.1.1:80"), ("1.1.1.1".to_string(), 80));
    assert_eq!(split_target("example.com"), ("example.com".to_string(), 443));
    assert_eq!(split_target("h:bad"), ("h".to_string(), 443));
    assert_eq!(split_target("a:b:53"), ("a:b".to_string(), 53));
    assert_eq!(socks5_reply_rest(1), Ok(6));
    assert_eq!(socks5_reply_rest(3), Ok(1));
    assert_eq!(socks5_reply_rest(4), Ok(18));
    assert_eq!(socks5_reply_rest(2), Err("bad atyp 0x2".to_string()));
    assert_eq!(socks5_error("auth", 0xff), "auth 0xff");
    assert_eq!(socks5_error("rejected", 5), "rejected 0x5");
    assert_eq!(alt_hex_text(0x1a).into_iter().collect::<String>(), "0x1a");
}

#[test]
fn http_checks() {
    assert_eq!(http_get_request("vk.com"), "GET / HTTP/1.1\r\nHost: vk.com\r\nConnection: close\r\n\r\n");
    assert_eq!(status_line("HTTP/1.1 200 OK\r\nServer: x\r\n"), "HTTP/1.1 200 OK");
    assert_eq!(status_line(""), "?");
    assert_eq!(http80_detail("HTTP/1.1 200 OK\r\n\r\n<html>"), "HTTP/1.1 200 OK | html=true | 25B");
    assert_eq!(http80_detail("HTTP/1.1 301 Moved\r\n\r\nмир"), "HTTP/1.1 301 Moved | html=false | 28B");
    assert_eq!(dns_udp_detail("87.240.132.78", 35), "87.240.132.78 (35ms)");
}
