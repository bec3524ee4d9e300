use unblocker_core::system::commands::{
    byedpi_candidates, cleanup_stale, clear_state_inline, disable_all, doh_disable, doh_enable, environment_d_content,
    find_byedpi_bin, iptables_disable, iptables_disable_for_uid, iptables_enable_add, iptables_enable_check,
    iptables_enable_for_uid, iptables_flush_output, is_enabled, proxy_disable_env_names, proxy_disable_setting,
    proxy_env_names, proxy_settings, proxy_url, redirect_args, root_attempts, static_hosts_dir, uid_from_id_output,
    watchdog_step, TeardownStep, WatchAction, hosts_copy_command, nsswitch_backup_command, nsswitch_write_command,
    nsswitch_restore_commands, resolver_flush_command,
};

const OTHERS: [&str; 19] = [
    "-t", "nat", "-D", "OUTPUT", "-p", "tcp", "-m", "multiport", "--dports", "80,443", "-m", "owner", "!",
    "--uid-owner", "1000", "-j", "REDIRECT", "--to-ports", "1080",
];

#[test]
fn system_wide_redirect_is_removed_twice() {
    let c = iptables_disable(1080, 1000);
    assert_eq!(c.len(), 2);
    assert_eq!(c[0].program, "iptables");
    assert_eq!(c[0].args, OTHERS.to_vec());
    assert!(!c[0].as_root);
    assert_eq!(c[1].args, OTHERS.to_vec());
    assert!(c[1].as_root);
}

#[test]
fn per_user_redirect_enable_and_disable_match() {
    let e = iptables_enable_for_uid(1080, 1000);
    let d = iptables_disable_for_uid(1080, 1000);
    assert_eq!(e[0].args, d[0].args);
    assert_eq!(e[0].args[2], "-D");
    assert_eq!(e[1].args[2], "-A");
    assert_eq!(e[1].args[12], "--uid-owner");
    assert!(!e[1].args.contains(&"!".to_string()));
    assert_eq!(redirect_args("-C", 7, 9, false).len(), 18);
}

#[test]
fn flush_and_enable_commands() {
    assert_eq!(iptables_flush_output()[0].args, vec!["-t", "nat", "-F", "OUTPUT"]);
    let add = iptables_enable_add(1000, 1080);
    assert!(add.as_root);
    assert_eq!(
        add.args,
        vec!["-t", "nat", "-A OUTPUT -p tcp -m multiport --dports 80,443 -m owner ! --uid-owner 1000 -j REDIRECT --to-ports 1080"]
    );
    assert_eq!(iptables_enable_check(1000, 1080).args[2], "-C");
}

#[test]
fn uid_parsing() {
    assert_eq!(uid_from_id_output(Some("1001\n")), 1001);
    assert_eq!(uid_from_id_output(Some("x")), 1000);
    assert_eq!(uid_from_id_output(Some("99999999999")), 1000);
    assert_eq!(uid_from_id_output(None), 1000);
}

#[test]
fn escalation_order() {
    let a = root_attempts("cp", &["a".to_string(), "b".to_string()], true);
    let flat: Vec<(String, Vec<String>)> = a;
    assert_eq!(flat.len(), 4);
    assert_eq!(flat[0], ("cp".to_string(), vec!["a".to_string(), "b".to_string()]));
    assert_eq!(flat[1], ("pkexec".to_string(), vec!["cp".to_string(), "a".to_string(), "b".to_string()]));
    assert_eq!(flat[2], ("sudo".to_string(), vec!["-n".to_string(), "cp".to_string(), "a".to_string(), "b".to_string()]));
    assert_eq!(flat[3], flat[0]);
    assert_eq!(root_attempts("cp", &[], false).len(), 3);
}

#[test]
fn small_commands() {
    let c = cleanup_stale();
    assert_eq!((c.program.as_str(), c.as_root), ("rm", true));
    assert_eq!(c.args, vec!["-f", "/etc/systemd/resolved.conf.d/unblocker.conf"]);
    assert_eq!(clear_state_inline("/tmp/unblocker.state").args, vec!["-f", "/tmp/unblocker.state"]);
    assert!(doh_enable("https://dns.google/dns-query", "https://x").is_ok());
    assert!(doh_disable().is_ok());
    assert!(is_enabled(true));
    assert!(!is_enabled(false));
}

#[test]
fn desktop_proxy_settings() {
    let s = proxy_settings(1080);
    assert_eq!(s.len(), 10);
    assert_eq!(s[0], vec!["set", "org.gnome.system.proxy", "mode", "'manual'"]);
    assert_eq!(s[5], vec!["set", "org.gnome.system.proxy.http", "port", "1080"]);
    assert_eq!(s[9][3], "['localhost', '127.0.0.0/8', '::1']");
    assert_eq!(proxy_url(1080), "socks5h://127.0.0.1:1080");
    assert_eq!(
        environment_d_content(1080),
        "socks_proxy=socks5h://127.0.0.1:1080\nSOCKS_PROXY=socks5h://127.0.0.1:1080\nall_proxy=socks5h://127.0.0.1:1080\n"
    );
    assert_eq!(proxy_env_names(), vec!["socks_proxy", "SOCKS_PROXY", "ALL_PROXY", "all_proxy"]);
    assert_eq!(proxy_disable_setting(), vec!["set", "org.gnome.system.proxy", "mode", "'none'"]);
    let off = proxy_disable_env_names();
    assert_eq!(off.len(), 8);
    for k in proxy_env_names() {
        assert!(off.contains(&k), "{k} stays set");
    }
}

#[test]
fn teardown_removes_the_redirect_first_and_kills_last() {
    let t = disable_all(1080, 1000);
    assert_eq!(t.len(), 8);
    match &t[0] {
        TeardownStep::Run(c) => assert_eq!(c.args, OTHERS.to_vec()),
        _ => panic!("the redirect goes first"),
    }
    assert!(matches!(t[2], TeardownStep::DisableSystemProxy));
    assert!(matches!(t[3], TeardownStep::RemoveHostsBlock));
    assert!(matches!(t[4], TeardownStep::ClearState));
    match &t[5] {
        TeardownStep::Run(c) => {
            assert_eq!(c.program, "pkill");
            assert_eq!(c.args, vec!["-f", "ciadpi"]);
        },
        _ => panic!("the byedpi engine is killed after the state"),
    }
    match &t[6] {
        TeardownStep::Run(c) => {
            assert_eq!(c.program, "pkill");
            assert_eq!(c.args, vec!["-9", "-x", "nfqws"]);
            assert!(c.as_root);
        },
        _ => panic!("nfqws is killed"),
    }
    match &t[7] {
        TeardownStep::Run(c) => {
            assert_eq!(c.program, "nft");
            assert_eq!(c.args, vec!["delete", "table", "inet", "unblocker"]);
        },
        _ => panic!("the queue table is deleted last"),
    }
}

#[test]
fn engine_binary_search() {
    let c = byedpi_candidates(Some("/opt"), "/cfg/ciadpi");
    assert_eq!(c.len(), 9);
    assert_eq!(c[0], "/opt/vendor/byedpi/ciadpi");
    assert_eq!(c[4], "/cfg/ciadpi");
    assert_eq!(find_byedpi_bin(None, "/cfg/ciadpi", &[false, false, true]), "/usr/local/bin/ciadpi");
    assert_eq!(find_byedpi_bin(None, "/cfg/ciadpi", &[]), "/cfg/ciadpi");
    assert_eq!(static_hosts_dir(&[false, true]), Some("/etc/unblocker/hostlists".to_string()));
    assert_eq!(static_hosts_dir(&[true, true]), Some("config/hosts".to_string()));
    assert_eq!(static_hosts_dir(&[false, false]), None);
}

#[test]
fn watchdog() {
    assert_eq!(watchdog_step(false, true), WatchAction::Stop);
    assert_eq!(watchdog_step(true, false), WatchAction::RemoveRedirect);
    assert_eq!(watchdog_step(true, true), WatchAction::Continue);
}

#[test]
fn file_copies_run_as_root() {
    let h = hosts_copy_command();
    assert_eq!((h.program.as_str(), h.as_root), ("cp", true));
    assert_eq!(h.args, vec!["/tmp/unblocker.hosts.new", "/etc/hosts"]);
    assert_eq!(nsswitch_backup_command().args, vec!["/etc/nsswitch.conf", "/tmp/unblocker.nsswitch.bak"]);
    assert_eq!(nsswitch_write_command().args, vec!["/tmp/unblocker.nsswitch.new", "/etc/nsswitch.conf"]);
    let r = nsswitch_restore_commands();
    assert_eq!(r[0].args, vec!["/etc/nsswitch.conf.unblocker-backup", "/tmp/unblocker.nsswitch.restore"]);
    assert_eq!(r[1].args, vec!["/tmp/unblocker.nsswitch.restore", "/etc/nsswitch.conf"]);
    let f = resolver_flush_command();
    assert_eq!((f.program.as_str(), f.as_root), ("resolvectl", false));
    assert_eq!(f.args, vec!["flush-caches"]);
}
