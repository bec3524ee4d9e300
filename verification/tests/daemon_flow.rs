use unblocker_core::config::HostOverride;
use unblocker_core::daemon::{
    cdn_list_candidates, cdn_pairs, community_targets, daemon_start, daemon_step, drop_host_overrides,
    empty_pool_error, is_strategy_file, overrides_from_pairs, pool_dirs, refresh_candidates, refresh_hosts,
    refreshed_overrides, shutdown_plan, site_config_body, site_config_path, site_plan, standalone_tg_commands,
    DaemonAction, ShutdownStep, SCAN_CAP,
};
use unblocker_core::ip_discovery::{discover_candidates, discover_candidates_with_geohide, DiscoverySource};
use unblocker_core::zapret::sites::{all, SiteKind};

fn s(v: &[&str]) -> Vec<String> {
    v.iter().map(|x| x.to_string()).collect()
}

#[test]
fn daemon_starts_engine_before_rules() {
    let (mut m, a) = daemon_start(1000, 1444);
    assert!(matches!(a, DaemonAction::FlushStaleTables));
    assert!(matches!(daemon_step(&mut m, true, String::new()), DaemonAction::FindEngine));
    assert!(matches!(daemon_step(&mut m, true, String::new()), DaemonAction::SpawnEngine { uid: 1000 }));
    assert!(matches!(daemon_step(&mut m, true, String::new()), DaemonAction::InstallQueueRules { uid: 1000, queue: 200 }));
    assert!(matches!(daemon_step(&mut m, true, String::new()), DaemonAction::ConfigureSystem));
    assert!(matches!(daemon_step(&mut m, true, String::new()), DaemonAction::StartTelegram { port: 1444 }));
    assert!(matches!(daemon_step(&mut m, false, "tg".to_string()), DaemonAction::Serve { telegram_running: false }));

    let (mut m, _) = daemon_start(1000, 1444);
    daemon_step(&mut m, true, String::new());
    daemon_step(&mut m, true, String::new());
    daemon_step(&mut m, true, String::new());
    match daemon_step(&mut m, false, "nft".to_string()) {
        DaemonAction::Abort { kill_engine, flush_tables, error } => {
            assert!(kill_engine && flush_tables);
            assert_eq!(error, "nft");
        },
        _ => panic!("abort expected"),
    }
}

#[test]
fn daemon_shutdown_order() {
    assert_eq!(
        shutdown_plan(true),
        vec![
            ShutdownStep::StopTelegram,
            ShutdownStep::KillEngine,
            ShutdownStep::RemoveQueueTable,
            ShutdownStep::FlushTables,
            ShutdownStep::DisableSystemProxy,
            ShutdownStep::RemoveHostsBlock,
            ShutdownStep::ClearState,
        ]
    );
    assert_eq!(shutdown_plan(false)[0], ShutdownStep::KillEngine);
    let c = standalone_tg_commands();
    assert_eq!(c.len(), 5);
    assert_eq!(c[2], ("systemctl".to_string(), s(&["mask", "tg-ws-proxy.service"])));
    assert_eq!(c[3], ("fuser".to_string(), s(&["-k", "1443/tcp"])));
}

#[test]
fn cdn_list_lines() {
    assert_eq!(cdn_list_candidates("/src")[1], "/src/config/hosts/magila-cdn.txt");
    let pairs = cdn_pairs("# cdn\n1.2.3.4 a.com\n\nbad\n  5.6.7.8\tb.com extra\nnotanip c.com\n");
    assert_eq!(
        pairs,
        vec![
            ("1.2.3.4".to_string(), "a.com".to_string()),
            ("5.6.7.8".to_string(), "b.com".to_string()),
            ("notanip".to_string(), "c.com".to_string()),
        ]
    );
    let ovs = overrides_from_pairs(&pairs, true, &[true, true, false]);
    assert_eq!(ovs.len(), 2);
    assert_eq!(ovs[1].domain, "b.com");
    assert_eq!(ovs[1].ips, s(&["5.6.7.8"]));
    let community = vec![("x.com".to_string(), "9.9.9.9".to_string())];
    let c = overrides_from_pairs(&community, false, &[true]);
    assert_eq!(c[0].domain, "x.com");
    assert_eq!(c[0].ips, s(&["9.9.9.9"]));
}

#[test]
fn community_targets_and_site_plans() {
    let t = community_targets(&all());
    assert_eq!(t.len(), 15 + 19);
    assert_eq!(t[0], "youtube.com");
    assert_eq!(t[15], "cdninstagram.com");
    assert_eq!(t[33], "telegram.org");
    let p = site_plan(SiteKind::Both);
    assert!(!p.skip && p.try_strategies && p.scan_addresses);
    assert!(site_plan(SiteKind::Wss).skip);
    assert!(!site_plan(SiteKind::Dpi).scan_addresses);
    assert!(!site_plan(SiteKind::Ip).try_strategies);
    assert_eq!(SCAN_CAP, 2048);
}

#[test]
fn per_site_results_and_pool() {
    assert_eq!(site_config_path("/etc/unblocker/sites", "x.com"), "/etc/unblocker/sites/x.com.conf");
    assert_eq!(
        site_config_body("x.com", "/p/a.strat"),
        "# winning strategy for x.com (written by install-discover)\n/p/a.strat\n"
    );
    assert_eq!(pool_dirs("/src"), s(&["/etc/unblocker/strategies/pool", "/src/config/zapret/strategies/pool"]));
    assert!(is_strategy_file("general.strat"));
    assert!(is_strategy_file("..strat"));
    assert!(!is_strategy_file(".strat"));
    assert!(!is_strategy_file("general.strat.bak"));
    assert_eq!(empty_pool_error(), "strategy pool is empty: expected files in /etc/unblocker/strategies/pool");
}

#[test]
fn refresh_targets() {
    let all_hosts = refresh_hosts(true, None).ok().unwrap();
    assert_eq!(all_hosts.len(), 13);
    assert!(!all_hosts.contains(&"t.me".to_string()));
    assert_eq!(refresh_hosts(false, Some("a.com".to_string())).ok().unwrap(), s(&["a.com"]));
    assert_eq!(
        refresh_hosts(false, None).err().unwrap(),
        "usage: unblocker refresh <host> | unblocker refresh --all"
    );
}

#[test]
fn refresh_candidate_order() {
    let c = refresh_candidates(s(&["1", "2", "1"]), &s(&["2", "3"]), &s(&["3", "4", "4"]), &s(&["1", "5"]));
    assert_eq!(c, s(&["1", "2", "1", "3", "4", "5"]));
}

#[test]
fn discovery_candidates_are_unique_with_first_source() {
    let c = discover_candidates(&s(&["1", "1", "2"]), &s(&["2", "3"]), &s(&["4"]));
    let v: Vec<(String, DiscoverySource)> = c.iter().map(|x| (x.ip.clone(), x.source)).collect();
    assert_eq!(
        v,
        vec![
            ("1".to_string(), DiscoverySource::Precompiled),
            ("2".to_string(), DiscoverySource::Precompiled),
            ("3".to_string(), DiscoverySource::GoogleDoH),
            ("4".to_string(), DiscoverySource::CloudflareDoH),
        ]
    );
    let g = discover_candidates_with_geohide(c, &s(&["4", "5"]));
    assert_eq!(g.len(), 5);
    assert_eq!(g[4].source, DiscoverySource::GeoHide);
}

#[test]
fn refreshed_host_has_one_override() {
    let ovs = vec![
        HostOverride { domain: "a.com".to_string(), ips: s(&["1.1.1.1"]) },
        HostOverride { domain: "b.com".to_string(), ips: s(&["2.2.2.2"]) },
        HostOverride { domain: "a.com".to_string(), ips: s(&["3.3.3.3"]) },
    ];
    let kept = drop_host_overrides(ovs.clone(), "a.com");
    assert_eq!(kept.len(), 1);
    let r = refreshed_overrides(ovs, "a.com", "9.9.9.9");
    let v: Vec<(String, Vec<String>)> = r.into_iter().map(|o| (o.domain, o.ips)).collect();
    assert_eq!(v, vec![("b.com".to_string(), s(&["2.2.2.2"])), ("a.com".to_string(), s(&["9.9.9.9"]))]);
}
