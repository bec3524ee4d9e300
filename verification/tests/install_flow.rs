use unblocker_core::daemon::site_plan;
use unblocker_core::install::{install_site_step, install_start, install_step, InstallAction, InstallPhase};
use unblocker_core::zapret::sites::SiteKind;

#[test]
fn a_pool_error_stops_before_anything() {
    let (mut m, a) = install_start(vec![SiteKind::Dpi]);
    assert_eq!(a, InstallAction::LoadPool);
    assert_eq!(install_step(&mut m, false), InstallAction::Abort);
    assert_eq!(m.phase, InstallPhase::Done);
}

#[test]
fn each_kind_of_site_gets_its_steps() {
    let kinds = vec![SiteKind::Wss, SiteKind::Dpi, SiteKind::Both, SiteKind::Both, SiteKind::Ip, SiteKind::Dpi];
    let (mut m, _) = install_start(kinds);
    assert_eq!(install_step(&mut m, true), InstallAction::ApplyCdnHosts);
    assert_eq!(install_step(&mut m, true), InstallAction::MergeCommunity);
    assert_eq!(install_step(&mut m, true), InstallAction::SkipSite { site: 0 });
    assert_eq!(install_step(&mut m, true), InstallAction::TryStrategies { site: 1 });
    // A DPI site with a winner: its file is written.
    assert_eq!(install_step(&mut m, true), InstallAction::WriteSiteConfig { site: 1 });
    assert_eq!(install_step(&mut m, true), InstallAction::TryStrategies { site: 2 });
    // A site blocked both ways without a winner: its ranges are scanned.
    assert_eq!(install_step(&mut m, false), InstallAction::ScanAddresses { site: 2 });
    assert_eq!(install_step(&mut m, true), InstallAction::TryStrategies { site: 3 });
    // With a winner: no scan, the file is written.
    assert_eq!(install_step(&mut m, true), InstallAction::WriteSiteConfig { site: 3 });
    // An address-blocked site is scanned straight away.
    assert_eq!(install_step(&mut m, true), InstallAction::ScanAddresses { site: 4 });
    assert_eq!(install_step(&mut m, true), InstallAction::TryStrategies { site: 5 });
    // A DPI site without a winner: nothing more; then the probe tables go.
    assert_eq!(install_step(&mut m, false), InstallAction::FlushProbeTables);
    assert_eq!(install_step(&mut m, true), InstallAction::Finish);
    assert_eq!(m.phase, InstallPhase::Done);
}

#[test]
fn no_sites_still_flushes() {
    let (mut m, _) = install_start(vec![]);
    install_step(&mut m, true);
    install_step(&mut m, true);
    assert_eq!(install_step(&mut m, true), InstallAction::FlushProbeTables);
}

#[test]
fn site_follow_up() {
    let both = site_plan(SiteKind::Both);
    assert!(install_site_step(both, false).scan);
    assert!(!install_site_step(both, false).write_config);
    assert!(!install_site_step(both, true).scan);
    assert!(install_site_step(both, true).write_config);
    assert!(!install_site_step(site_plan(SiteKind::Dpi), false).scan);
}
