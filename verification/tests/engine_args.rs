use unblocker_core::bypass::{build_argv, byedpi_make_args, byedpi_paths, candidate_pool, ensure_byedpi, BypassConfig};
use unblocker_core::shell::shell_words;

fn cfg(args: &str, transparent: bool) -> BypassConfig {
    BypassConfig {
        bin: "ciadpi".to_string(),
        socks_addr: "127.0.0.1".to_string(),
        socks_port: 1081,
        args: args.to_string(),
        transparent,
    }
}

#[test]
fn socks_url_names_address_and_port() {
    assert_eq!(cfg("", false).socks_url(), "socks5://127.0.0.1:1081");
}

#[test]
fn argv_adds_conn_ip_unless_given() {
    assert_eq!(
        cfg("--disorder 1 --tlsrec 1+s", true).to_argv(),
        vec!["--ip", "127.0.0.1", "--port", "1081", "--transparent", "--disorder", "1", "--tlsrec", "1+s", "--conn-ip", "0.0.0.0"]
    );
    assert_eq!(
        cfg("--oob 3+s --conn-ip 1.2.3.4", false).to_argv(),
        vec!["--ip", "127.0.0.1", "--port", "1081", "--oob", "3+s", "--conn-ip", "1.2.3.4"]
    );
}

#[test]
fn default_config_is_transparent_socks_on_1080() {
    let d = BypassConfig::default();
    assert_eq!(d.socks_addr, "127.0.0.1");
    assert_eq!(d.socks_port, 1080);
    assert!(d.transparent);
    assert_eq!(d.bin, "");
    assert_eq!(d.args, "");
}

#[test]
fn shell_words_strip_quotes() {
    assert_eq!(shell_words("a 'b c' \"d\"e  f"), vec!["a", "b c", "de", "f"]);
    assert_eq!(shell_words("--hostlist='/x y/z' --u"), vec!["--hostlist=/x y/z", "--u"]);
    assert!(shell_words("   ").is_empty());
}

#[test]
fn candidate_pool_has_nine_strategies() {
    let p = candidate_pool();
    assert_eq!(p.len(), 9);
    assert_eq!(p[0], "--tlsrec 1+s --conn-ip 0.0.0.0");
    assert!(p.iter().all(|a| a.ends_with("--conn-ip 0.0.0.0")));
}

#[test]
fn embedded_argv_drops_daemon_flags() {
    let v = build_argv("--disorder 1 -D --pidfile --tlsrec 1+s", "127.0.0.1", "1081").ok().unwrap();
    assert_eq!(v, vec!["ciadpi", "--ip", "127.0.0.1", "--port", "1081", "--disorder", "1", "--tlsrec", "1+s"]);
}

#[test]
fn embedded_argv_refuses_a_nul() {
    let e = build_argv("--ok bad\0word", "127.0.0.1", "1081").err().unwrap();
    assert_eq!(e.token, "bad\0word");
    assert_eq!(e.position, 3);
    assert_eq!(e.message(), "invalid arg 'bad\0word': nul byte found in provided data at position: 3");
}

#[test]
fn byedpi_is_looked_for_in_order() {
    let paths = byedpi_paths(Some("/opt/app"), "/src");
    assert_eq!(
        paths,
        vec![
            "/opt/app/vendor/byedpi/ciadpi",
            "/opt/app/../vendor/byedpi/ciadpi",
            "/opt/app/../../vendor/byedpi/ciadpi",
            "/src/vendor/byedpi/ciadpi",
            "/src/vendor/byedpi/byedpi",
            "/src/vendor/byedpi/build/ciadpi",
            "/usr/local/bin/ciadpi",
            "/usr/bin/ciadpi",
            "/usr/bin/byedpi",
        ]
    );
    assert_eq!(ensure_byedpi(None, "/src", &[false, false, false, false, true]), "/usr/bin/ciadpi");
    assert_eq!(ensure_byedpi(None, "/src", &[false; 6]), "/src/vendor/byedpi/ciadpi");
    assert_eq!(byedpi_make_args("/src"), vec!["-C", "/src/vendor/byedpi", "-j4"]);
}

#[test]
fn without_quotes_shell_words_split_on_whitespace() {
    let s = "--disorder 1\t--tlsrec  1+s\n--conn-ip 0.0.0.0 ";
    let plain: Vec<String> = s.split_whitespace().map(String::from).collect();
    assert_eq!(shell_words(s), plain);
}
