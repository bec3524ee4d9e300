use unblocker_core::platform::driver::{
    disable_poll_failed, disable_start, disable_step, enable_start, enable_step, project_root, project_root_candidate, target_uid,
    DisableAction, DisablePhase, EnableAction, EnablePhase, StepOutcome,
};

fn ok() -> StepOutcome {
    StepOutcome { ok: true, error: String::new() }
}

fn fail(e: &str) -> StepOutcome {
    StepOutcome { ok: false, error: e.to_string() }
}

#[test]
fn target_user() {
    assert_eq!(target_uid(Some("1001"), Some("1002")), 1001);
    assert_eq!(target_uid(None, Some("1002")), 1002);
    assert_eq!(target_uid(Some("x"), Some("1002")), 1000);
    assert_eq!(target_uid(None, None), 1000);
}

#[test]
fn project_root_paths() {
    assert_eq!(project_root_candidate("/src/crates/unblocker-core"), "/src/crates/unblocker-core/../..");
    assert_eq!(project_root(Some("/src".to_string())), "/src");
    assert_eq!(project_root(None), ".");
}

#[test]
fn enable_runs_engine_then_rules_then_hosts_then_telegram() {
    let (mut m, a) = enable_start(1000, 1444, true);
    assert!(matches!(a, EnableAction::FlushStaleTables));
    assert!(matches!(enable_step(&mut m, ok()), EnableAction::FindEngine));
    assert!(matches!(enable_step(&mut m, ok()), EnableAction::SpawnEngine { uid: 1000 }));
    assert!(matches!(enable_step(&mut m, ok()), EnableAction::CheckEngine));
    assert!(matches!(enable_step(&mut m, ok()), EnableAction::InstallQueueRules { uid: 1000, queue: 200 }));
    assert!(matches!(enable_step(&mut m, ok()), EnableAction::ApplyHosts));
    assert!(matches!(enable_step(&mut m, fail("hosts")), EnableAction::StartTelegram));
    assert!(matches!(enable_step(&mut m, ok()), EnableAction::RedirectTelegram { port: 1444 }));
    assert!(matches!(enable_step(&mut m, fail("redirect")), EnableAction::Finish));
    assert_eq!(m.phase, EnablePhase::Done);
}

fn run_to(outcomes: Vec<StepOutcome>) -> EnableAction {
    let (mut m, _) = enable_start(1000, 1444, true);
    let mut last = EnableAction::Finish;
    for o in outcomes {
        last = enable_step(&mut m, o);
    }
    last
}

#[test]
fn enable_failures_clean_up() {
    match run_to(vec![ok(), fail("nfqws not found")]) {
        EnableAction::Abort { kill_engine, flush_tables, error } => {
            assert!(!kill_engine && !flush_tables);
            assert_eq!(error, "nfqws not found");
        },
        _ => panic!("abort expected"),
    }
    match run_to(vec![ok(), ok(), fail("spawn")]) {
        EnableAction::Abort { kill_engine, flush_tables, .. } => assert!(!kill_engine && flush_tables),
        _ => panic!("abort expected"),
    }
    match run_to(vec![ok(), ok(), ok(), fail("")]) {
        EnableAction::Abort { flush_tables, error, .. } => {
            assert!(flush_tables);
            assert_eq!(error, "nfqws daemon not found after spawn");
        },
        _ => panic!("abort expected"),
    }
    match run_to(vec![ok(), ok(), ok(), ok(), fail("denied")]) {
        EnableAction::Abort { kill_engine, flush_tables, error } => {
            assert!(kill_engine && flush_tables);
            assert_eq!(error, "nft_install: denied");
        },
        _ => panic!("abort expected"),
    }
    match run_to(vec![ok(), ok(), ok(), ok(), ok(), ok(), fail("tg")]) {
        EnableAction::Abort { kill_engine, flush_tables, error } => {
            assert!(!kill_engine && !flush_tables);
            assert_eq!(error, "tg");
        },
        _ => panic!("abort expected"),
    }
}

#[test]
fn disable_through_the_service() {
    let (p, a) = disable_start(true, true);
    assert!(matches!(a, DisableAction::StopTelegram));
    let (p, a) = disable_step(p, true);
    assert!(matches!(a, DisableAction::StopEngine));
    let (p, a) = disable_step(p, false);
    assert!(matches!(a, DisableAction::CheckSurvivors));
    let (p, a) = disable_step(p, true);
    assert!(matches!(a, DisableAction::RootKillEngines));
    let (p, a) = disable_step(p, false);
    assert!(matches!(a, DisableAction::CheckService));
    let (mut p, a) = disable_step(p, true);
    assert!(matches!(a, DisableAction::StopService));
    let mut polls = 0;
    loop {
        let (np, a) = disable_step(p, true);
        p = np;
        match a {
            DisableAction::PollService => polls += 1,
            DisableAction::FinalCleanup => break,
            _ => panic!("unexpected step"),
        }
    }
    assert_eq!(polls, 19);
    let (p, a) = disable_step(p, false);
    assert!(matches!(a, DisableAction::Finish));
    assert_eq!(p, DisablePhase::Done);
}

#[test]
fn disable_without_service() {
    let (p, a) = disable_start(false, false);
    assert!(matches!(a, DisableAction::CheckSurvivors));
    let (p, _) = disable_step(p, false);
    let (p, a) = disable_step(p, false);
    assert!(matches!(a, DisableAction::DirectCleanup));
    let (p, a) = disable_step(p, false);
    assert!(matches!(a, DisableAction::FinalCleanup));
    let (_, a) = disable_step(p, false);
    assert!(matches!(a, DisableAction::Finish));
}

#[test]
fn disable_stops_when_a_service_poll_cannot_run() {
    let (p, a) = disable_step(DisablePhase::CheckingService, true);
    assert!(matches!(a, DisableAction::StopService));
    let (p, a) = disable_poll_failed(p);
    assert!(matches!(a, DisableAction::Abort));
    assert_eq!(p, DisablePhase::Done);
    let (p, _) = disable_poll_failed(DisablePhase::StoppingService { polls: 7 });
    assert_eq!(p, DisablePhase::Done);
}

#[test]
fn enable_without_telegram_finishes_after_the_hosts() {
    let (mut m, _) = enable_start(1000, 1444, false);
    for _ in 0..4 {
        enable_step(&mut m, ok());
    }
    assert!(matches!(enable_step(&mut m, ok()), EnableAction::ApplyHosts));
    assert!(matches!(enable_step(&mut m, ok()), EnableAction::Finish));
    assert_eq!(m.phase, EnablePhase::Done);
}
