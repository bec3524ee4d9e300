use unblocker_core::health::{probe_status_ok, rotation_batch, HealthState};
use unblocker_core::tuner::{
    answered, candidate_config, candidate_port, default_targets, rank_scores, score, spawn_failed_score, tune_report,
    unanswered,
};

#[test]
fn three_failures_in_a_row_need_mitigation() {
    let mut s = HealthState::new();
    s.record("a.com", false, 1);
    s.record("a.com", false, 2);
    assert!(!s.needs_mitigation("a.com"));
    s.record("a.com", false, 3);
    assert!(s.needs_mitigation("a.com"));
    assert_eq!(s.fail_count("a.com"), 3);
    assert!(!s.needs_mitigation("b.com"));
    s.record("a.com", true, 4);
    assert!(!s.needs_mitigation("a.com"));
    assert_eq!(s.fail_count("a.com"), 0);
}

#[test]
fn statuses_that_count() {
    assert!(probe_status_ok(200));
    assert!(probe_status_ok(301));
    assert!(probe_status_ok(399));
    assert!(!probe_status_ok(199));
    assert!(!probe_status_ok(404));
}

#[test]
fn rotation_wraps_around() {
    assert_eq!(rotation_batch(0, 5), (vec![0, 1, 2], 3));
    assert_eq!(rotation_batch(3, 5), (vec![3, 4, 0], 1));
    assert_eq!(rotation_batch(0, 2), (vec![0, 1, 0], 1));
}

#[test]
fn five_default_targets() {
    let t = default_targets();
    let hosts: Vec<&str> = t.iter().map(|t| t.host.as_str()).collect();
    assert_eq!(hosts, vec!["youtube.com", "discord.com", "instagram.com", "x.com", "bbc.com"]);
    assert_eq!(t[4].url, "https://www.bbc.com/");
}

#[test]
fn fetch_results() {
    let r = answered("https://x.com/", 302, 40);
    assert!(r.ok);
    assert_eq!(r.status, Some(302));
    assert_eq!(r.host, "https://x.com/");
    assert!(!answered("https://x.com/", 403, 40).ok);
    let u = unanswered("https://x.com/", 15000);
    assert!(!u.ok);
    assert_eq!(u.status, None);
    assert_eq!(u.ms, 15000);
}

#[test]
fn candidates_get_their_own_ports() {
    assert_eq!(candidate_port(1080, 0), 1090);
    assert_eq!(candidate_port(1080, 8), 1098);
    let c = candidate_config("ciadpi", 1080, 2, &"--oob 1".to_string());
    assert_eq!(c.socks_port, 1092);
    assert_eq!(c.socks_addr, "127.0.0.1");
    assert!(!c.transparent);
    assert_eq!(c.args, "--oob 1");
}

#[test]
fn score_counts_loads_and_averages_time() {
    let rs = vec![answered("u", 200, 100), unanswered("u", 200), answered("u", 204, 301)];
    assert_eq!(score(&rs), (2, 200));
    assert_eq!(score(&[]), (0, 0));
    assert_eq!(spawn_failed_score(&"x".to_string()), ("x".to_string(), 0, 9999));
}

#[test]
fn ranking_is_a_stable_sort_by_loads_then_time() {
    let scores = vec![
        ("a".to_string(), 1, 100),
        ("b".to_string(), 2, 300),
        ("c".to_string(), 2, 200),
        ("d".to_string(), 1, 100),
        ("e".to_string(), 0, 9999),
    ];
    let r = rank_scores(&scores);
    let order: Vec<&str> = r.iter().map(|s| s.0.as_str()).collect();
    assert_eq!(order, vec!["c", "b", "a", "d", "e"]);
    let rep = tune_report(&scores);
    assert_eq!(rep.best_args, "c");
    assert_eq!(rep.scores.len(), 5);
}

#[test]
fn no_candidates_gives_the_known_good_default() {
    let rep = tune_report(&Vec::new());
    assert_eq!(rep.best_args, "--disorder 1 --auto=torst --tlsrec 1+s");
    assert!(rep.scores.is_empty());
}

#[test]
fn mitigation_after_k_failures_in_a_row() {
    for k in 0..6u32 {
        let mut s = HealthState::new();
        s.record("h", false, 1);
        s.record("h", true, 2);
        for t in 0..k {
            s.record("h", false, 3 + t as u64);
        }
        assert_eq!(s.fail_count("h"), k);
        assert_eq!(s.needs_mitigation("h"), k >= 3);
        let mut fresh = HealthState::new();
        for t in 0..k {
            fresh.record("h", false, t as u64);
        }
        assert_eq!(fresh.needs_mitigation("h"), k >= 3);
    }
}
