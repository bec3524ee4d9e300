use unblocker_core::config::{
    config_path, default_bypass_domains, default_exclude_domains, default_hosts, default_profile, default_true,
    path_join, resolve_profile, set_config_dir, set_state_file, state_file, AppConfig, PathOverrides,
};

#[test]
fn defaults_of_the_configuration() {
    assert_eq!(default_profile(), "--disorder 1 --conn-ip 0.0.0.0");
    assert!(default_true());
    assert!(default_hosts().is_empty());
    assert!(!default_bypass_domains().is_empty());
    assert!(default_bypass_domains().iter().any(|d| d == "youtube.com"));
    let ex = default_exclude_domains();
    assert!(!ex.is_empty());
    let cfg = AppConfig::default();
    assert_eq!(cfg.profile, default_profile());
    assert_eq!(cfg.socks_port, 1080);
    assert_eq!(cfg.socks_addr, "127.0.0.1");
    assert_eq!(cfg.byedpi_bin, "vendor/byedpi/ciadpi");
    assert_eq!(cfg.tg_ws_port, 1443);
    assert!(cfg.telegram_bridge);
    assert_eq!(default_bypass_domains().len(), 24);
}

#[test]
fn path_join_inserts_one_separator() {
    assert_eq!(path_join("/etc", "x"), "/etc/x");
    assert_eq!(path_join("/etc/", "x"), "/etc/x");
    assert_eq!(path_join("", "x"), "x");
}

#[test]
fn config_path_prefers_override_then_project_dir() {
    let mut p = PathOverrides::new();
    assert_eq!(config_path(&p, Some("/home/u/.config/unblocker".to_string())), "/home/u/.config/unblocker/config.json");
    assert_eq!(config_path(&p, None), "./config.json");
    set_config_dir(&mut p, "/data/app".to_string());
    assert_eq!(config_path(&p, Some("/ignored".to_string())), "/data/app/config.json");
}

#[test]
fn state_file_defaults_and_override() {
    let mut p = PathOverrides::new();
    assert_eq!(state_file(&p), "/tmp/unblocker.state");
    set_state_file(&mut p, "/data/state".to_string());
    assert_eq!(state_file(&p), "/data/state");
}

#[test]
fn profile_auto_becomes_detected_only_with_binary() {
    assert_eq!(resolve_profile("auto", true), ("--disorder 1 --tlsrec 1+s --conn-ip 0.0.0.0".to_string(), true));
    assert_eq!(resolve_profile("   ", true), ("--disorder 1 --tlsrec 1+s --conn-ip 0.0.0.0".to_string(), true));
    assert_eq!(resolve_profile("auto", false), ("auto".to_string(), false));
    assert_eq!(resolve_profile("--oob 1", true), ("--oob 1".to_string(), false));
}
