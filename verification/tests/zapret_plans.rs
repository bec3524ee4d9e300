use unblocker_core::zapret::runner::{
    after_direct_spawn, find_nfqws, load_strategy_file, nft_first, nft_step, pkexec_engine_args, runtime_log_path,
    Attempt, NftNext, NftStage,
};
use unblocker_core::zapret::sites::{all, SiteKind};
use unblocker_core::zapret::{
    auto_hostlist_path, default_hostlist_path, default_strategy_path, engine_args, nfqws_candidates, nft_flush_safely,
    nft_install, nft_install_tg_redirect, nft_permission_error, nft_remove, strategy_args, strategy_file_text, NftStep,
    NFQUEUE,
};

fn words(s: &NftStep) -> Vec<&str> {
    s.args.iter().map(|a| a.as_str()).collect()
}

#[test]
fn install_deletes_then_recreates_the_queue_table() {
    let p = nft_install(1000, 200);
    assert_eq!(p.len(), 5);
    assert_eq!(words(&p[0]), vec!["delete", "table", "inet", "unblocker"]);
    assert!(!p[0].must_succeed);
    assert_eq!(words(&p[1]), vec!["add", "table", "inet", "unblocker"]);
    assert_eq!(
        words(&p[2]),
        vec!["add", "chain", "inet", "unblocker", "output", "{type", "filter", "hook", "output", "priority", "mangle;}"]
    );
    assert_eq!(
        words(&p[3]),
        vec!["add", "rule", "inet", "unblocker", "output", "tcp", "dport", "{80,443}", "queue", "num", "200", "bypass"]
    );
    assert_eq!(
        words(&p[4]),
        vec!["add", "rule", "inet", "unblocker", "output", "udp", "dport", "443", "queue", "num", "200", "bypass"]
    );
    assert!(p[1..].iter().all(|s| s.must_succeed));
    assert_eq!(NFQUEUE, 200);
}

#[test]
fn telegram_redirect_rules() {
    let p = nft_install_tg_redirect(1444);
    assert_eq!(p.len(), 8);
    assert_eq!(words(&p[0]), vec!["delete", "table", "inet", "unblocker_nat"]);
    assert_eq!(
        words(&p[3]),
        vec!["add", "rule", "inet", "unblocker_nat", "output", "tcp", "dport", "80", "ip", "daddr", "149.154.128.0/17", "redirect", "to", "1444"]
    );
    assert_eq!(p[7].args[10], "194.221.250.0/24");
    assert!(p[3..].iter().all(|s| !s.must_succeed));
}

#[test]
fn flush_and_remove() {
    let f = nft_flush_safely();
    assert_eq!(f.len(), 2);
    assert_eq!(words(&f[1]), vec!["delete", "table", "inet", "unblocker_nat"]);
    let r = nft_remove();
    assert_eq!(r.len(), 1);
    assert_eq!(words(&r[0]), vec!["delete", "table", "inet", "unblocker"]);
}

#[test]
fn permission_errors() {
    assert!(nft_permission_error("Error: Could not process rule: Operation not permitted"));
    assert!(nft_permission_error("PERMISSION denied"));
    assert!(!nft_permission_error("Error: syntax error, unexpected newline"));
}

#[test]
fn strategy_file_words() {
    let content = "# header\n--filter-tcp=443 # inline\n\n--hostlist='/etc/x y.txt' --dpi-desync=fake\r\n";
    assert_eq!(strategy_args(content), vec!["--filter-tcp=443", "--hostlist=/etc/x y.txt", "--dpi-desync=fake"]);
    let args: Vec<String> = vec!["--a".into(), "b".into()];
    assert_eq!(strategy_file_text(&args), "--a b");
    assert_eq!(strategy_file_text(&[]), "");
    assert_eq!(engine_args(&args), vec!["--qnum", "200", "--a", "b"]);
}

#[test]
fn default_paths() {
    assert_eq!(default_strategy_path(&[true, true, true]), "/etc/unblocker/strategy.conf");
    assert_eq!(default_strategy_path(&[false, false, true]), "config/zapret/strategies/general-alt11.strat");
    assert_eq!(default_strategy_path(&[false, false, false]), "/etc/unblocker/strategy.conf");
    assert_eq!(default_hostlist_path(true), "/etc/unblocker/hostlists/reestr.txt");
    assert_eq!(default_hostlist_path(false), "/tmp/hostlists/reestr.txt");
    assert_eq!(auto_hostlist_path(), "/etc/unblocker/hostlists/auto.txt");
}

#[test]
fn nfqws_search_order() {
    let c = nfqws_candidates(Some("/opt/app"), "/src");
    assert_eq!(
        c,
        vec![
            "/opt/app/nfqws",
            "/opt/app/../lib/unblocker/nfqws",
            "/usr/lib/unblocker/nfqws",
            "/usr/local/lib/unblocker/nfqws",
            "/usr/local/bin/nfqws",
            "/usr/bin/nfqws",
            "/src/vendor/zapret/nfqws",
        ]
    );
    assert_eq!(find_nfqws(None, "/src", &[false, false, true]), Ok("/usr/local/bin/nfqws".to_string()));
    assert_eq!(
        find_nfqws(None, "/src", &[false; 5]),
        Err("nfqws not found. Reinstall the package or run scripts/unblocker-install.sh.".to_string())
    );
}

#[test]
fn strategy_file_load() {
    assert_eq!(load_strategy_file("/x.strat", Some("--a\n--b # c\n")), Ok(vec!["--a".to_string(), "--b".to_string()]));
    assert_eq!(load_strategy_file("/x.strat", None), Err("read strategy file: /x.strat".to_string()));
    assert_eq!(runtime_log_path(42), "/tmp/unblocker-runtime-nfqws-42.log");
    assert_eq!(pkexec_engine_args("/usr/bin/nfqws", &["--x".to_string()]), vec!["/usr/bin/nfqws", "--qnum", "200", "--x"]);
}

#[test]
fn engine_start_falls_back_to_pkexec() {
    let keep = after_direct_spawn(true, true);
    assert!(keep.keep && !keep.kill_started && !keep.flush_and_escalate);
    let dead = after_direct_spawn(true, false);
    assert!(!dead.keep && dead.kill_started && dead.flush_and_escalate);
    let failed = after_direct_spawn(false, false);
    assert!(!failed.keep && !failed.kill_started && failed.flush_and_escalate);
}

fn attempt(ran: bool, success: bool, stderr: &str) -> Attempt {
    Attempt { ran, success, stderr: stderr.to_string() }
}

fn run_of(n: NftNext) -> (NftStage, String, Vec<String>) {
    match n {
        NftNext::Run { stage, program, args } => (stage, program, args),
        _ => panic!("expected another attempt"),
    }
}

fn failure_of(n: NftNext) -> String {
    match n {
        NftNext::Failed { message } => message,
        _ => panic!("expected a failure"),
    }
}

#[test]
fn nft_escalation() {
    let args = vec!["list".to_string(), "tables".to_string()];
    let (s, p, a) = run_of(nft_first(&args));
    assert_eq!((s, p.as_str(), a), (NftStage::Direct, "nft", args.clone()));
    assert!(matches!(nft_step(NftStage::Direct, &args, true, &attempt(true, true, "")), NftNext::Succeeded));
    assert_eq!(
        failure_of(nft_step(NftStage::Direct, &args, true, &attempt(true, false, " syntax error \n"))),
        "nft [\"list\", \"tables\"] failed: syntax error"
    );
    let (s, p, a) = run_of(nft_step(NftStage::Direct, &args, true, &attempt(true, false, "Operation not permitted")));
    assert_eq!((s, p.as_str()), (NftStage::Pkexec, "pkexec"));
    assert_eq!(a, vec!["nft", "list", "tables"]);
    let (s, p, a) = run_of(nft_step(NftStage::Direct, &args, false, &attempt(false, false, "")));
    assert_eq!((s, p.as_str()), (NftStage::Sudo, "sudo"));
    assert_eq!(a, vec!["-n", "nft", "list", "tables"]);
    let (s, _, _) = run_of(nft_step(NftStage::Pkexec, &args, true, &attempt(true, false, "denied")));
    assert_eq!(s, NftStage::Sudo);
    assert_eq!(
        failure_of(nft_step(NftStage::Sudo, &args, true, &attempt(true, false, "a password is required\n"))),
        "nft [\"list\", \"tables\"] failed (even via pkexec/sudo): a password is required"
    );
    let (s, p, _) = run_of(nft_step(NftStage::Sudo, &args, true, &attempt(false, false, "")));
    assert_eq!((s, p.as_str()), (NftStage::DirectAgain, "nft"));
    assert_eq!(
        failure_of(nft_step(NftStage::DirectAgain, &args, true, &attempt(false, false, ""))),
        "running nft [\"list\", \"tables\"]"
    );
    assert_eq!(
        failure_of(nft_step(NftStage::DirectAgain, &args, true, &attempt(true, false, "boom"))),
        "nft [\"list\", \"tables\"] failed: boom"
    );
}

#[test]
fn scanned_sites() {
    let s = all();
    assert_eq!(s.len(), 15);
    assert_eq!(s.iter().filter(|x| x.host == "x.com").count(), 2);
    assert_eq!(s.iter().filter(|x| x.kind == SiteKind::Wss).count(), 2);
    assert_eq!(s[13].host, "t.me");
    assert_eq!(s[13].allowed_ip_ranges.len(), 8);
    assert_eq!(s[13].allowed_ip_ranges[7], "149.154.175.50/32");
    assert!(s[0].allowed_ip_ranges.is_empty());
    assert_eq!(s[0].describe(), "youtube.com              (Dpi)");
    assert_eq!(s[14].describe(), "telegram.org             (Wss)");
}

#[test]
fn saved_strategy_is_loaded_back() {
    let args = vec![
        "--filter-tcp=80,443".to_string(),
        "--dpi-desync=fake,split2".to_string(),
        "--dpi-desync-ttl=5".to_string(),
    ];
    let text = strategy_file_text(&args);
    assert_eq!(strategy_args(&text), args);
    assert_eq!(load_strategy_file("/etc/unblocker/strategy.strat", Some(&text)), Ok(args));
}
