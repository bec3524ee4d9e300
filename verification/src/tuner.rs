//! Picking byedpi arguments: every candidate of the pool is run on its own
//! port, the probe sites are fetched through it, and the candidates are
//! ranked by how many sites loaded, then by how fast. The caller runs the
//! engines and the fetches; this module scores and ranks.
use vstd::prelude::*;
use vstd::multiset::Multiset;
use crate::bypass::{BypassConfig, lit};

verus! {

#[derive(Clone, Debug)]
pub struct ProbeTarget {
    pub host: String,
    pub url: String,
}

pub open spec fn target_views(v: Seq<ProbeTarget>) -> Seq<(Seq<char>, Seq<char>)> {
    v.map_values(|t: ProbeTarget| (t.host@, t.url@))
}

pub open spec fn default_target_list() -> Seq<(Seq<char>, Seq<char>)> {
    seq![
        ("youtube.com"@, "https://youtube.com/"@),
        ("discord.com"@, "https://discord.com/"@),
        ("instagram.com"@, "https://instagram.com/"@),
        ("x.com"@, "https://x.com/"@),
        ("bbc.com"@, "https://www.bbc.com/"@),
    ]
}

fn target(host: &str, url: &str) -> (r: ProbeTarget)
    ensures
        r.host@ == host@,
        r.url@ == url@,
{
    ProbeTarget { host: lit(host), url: lit(url) }
}

/// The sites each candidate is tried on.
pub fn default_targets() -> (r: Vec<ProbeTarget>)
    ensures
        target_views(r@) == default_target_list(),
{
    let r = vec![
        target("youtube.com", "https://youtube.com/"),
        target("discord.com", "https://discord.com/"),
        target("instagram.com", "https://instagram.com/"),
        target("x.com", "https://x.com/"),
        target("bbc.com", "https://www.bbc.com/"),
    ];
    assert(target_views(r@) =~= default_target_list());
    r
}

/// One fetch: the URL, whether it loaded, how long it took, and the HTTP
/// status when a response came.
#[derive(Clone, Debug)]
pub struct ProbeResult {
    pub host: String,
    pub ok: bool,
    pub ms: u64,
    pub status: Option<u16>,
}

/// A response counts when its status is a success (2xx) or a redirect (3xx).
pub open spec fn status_counts(status: u16) -> bool {
    200 <= status <= 399
}

/// The result of a fetch that got a response.
pub fn answered(url: &str, status: u16, ms: u64) -> (r: ProbeResult)
    ensures
        r.host@ == url@,
        r.ok == status_counts(status),
        r.ms == ms,
        r.status == Some(status),
{
    ProbeResult { host: lit(url), ok: 200 <= status && status <= 399, ms, status: Some(status) }
}

/// The result of a fetch that failed (or whose client could not be built).
pub fn unanswered(url: &str, ms: u64) -> (r: ProbeResult)
    ensures
        r.host@ == url@,
        !r.ok,
        r.ms == ms,
        r.status is None,
{
    ProbeResult { host: lit(url), ok: false, ms, status: None }
}

/// The port candidate `i` of the pool listens on.
pub fn candidate_port(base: u16, i: usize) -> (p: u16)
    requires
        base + i + 10 <= u16::MAX,
    ensures
        p == base + i + 10,
{
    base + (i as u16) + 10
}

/// The engine configuration a candidate is tried with: local SOCKS on its
/// own port, not transparent.
pub fn candidate_config(bin: &str, base: u16, i: usize, args: &String) -> (r: BypassConfig)
    requires
        base + i + 10 <= u16::MAX,
    ensures
        r.bin@ == bin@,
        r.socks_addr@ == "127.0.0.1"@,
        r.socks_port == base + i + 10,
        r.args@ == args@,
        !r.transparent,
{
    BypassConfig {
        bin: lit(bin),
        socks_addr: lit("127.0.0.1"),
        socks_port: candidate_port(base, i),
        args: args.clone(),
        transparent: false,
    }
}

pub open spec fn ok_count(rs: Seq<ProbeResult>) -> nat
    decreases rs.len(),
{
    if rs.len() == 0 {
        0
    } else {
        ok_count(rs.drop_last()) + if rs.last().ok {
            1nat
        } else {
            0nat
        }
    }
}

pub open spec fn total_ms(rs: Seq<ProbeResult>) -> nat
    decreases rs.len(),
{
    if rs.len() == 0 {
        0
    } else {
        total_ms(rs.drop_last()) + rs.last().ms as nat
    }
}

/// A candidate's score: the sites that loaded, and the mean time over all
/// sites (0 when there are none).
pub open spec fn score_spec(rs: Seq<ProbeResult>) -> (nat, nat) {
    (ok_count(rs), if rs.len() == 0 { 0 } else { total_ms(rs) / rs.len() })
}


/// The first part of a score is the number of probes whose site loaded
/// (`ok`), whatever else they hold: a probe that got an answer that does
/// not count (a block page, 403, 404, 451) adds nothing. For probes made
/// by `answered` and `unanswered` (whose `ok` is a 2xx or 3xx status), it
/// is the number of probes with a status in 200..=399.
pub proof fn lemma_score_counts_loaded(rs: Seq<ProbeResult>)
    ensures
        score_spec(rs).0 == rs.filter(|r: ProbeResult| r.ok).len(),
        (forall|i: int| 0 <= i < rs.len() ==> #[trigger] rs[i].ok == (rs[i].status matches Some(s) && 200 <= s <= 399))
            ==> score_spec(rs).0 == rs.filter(|r: ProbeResult| r.status matches Some(s) && 200 <= s <= 399).len(),
    decreases rs.len(),
{
    reveal(Seq::filter);
    if rs.len() > 0 {
        let init = rs.drop_last();
        lemma_score_counts_loaded(init);
        if forall|i: int| 0 <= i < rs.len() ==> #[trigger] rs[i].ok == (rs[i].status matches Some(s) && 200 <= s <= 399) {
            assert forall|i: int| 0 <= i < init.len() implies #[trigger] init[i].ok == (init[i].status matches Some(s) && 200 <= s <= 399) by {
                assert(init[i] == rs[i]);
            }
            assert(rs.last() == rs[rs.len() - 1]);
        }
    }
}

proof fn lemma_counts_bounded(rs: Seq<ProbeResult>)
    ensures
        ok_count(rs) <= rs.len(),
        total_ms(rs) <= rs.len() * 0xffff_ffff_ffff_ffff,
    decreases rs.len(),
{
    if rs.len() > 0 {
        lemma_counts_bounded(rs.drop_last());
        assert(total_ms(rs) <= rs.len() * 0xffff_ffff_ffff_ffff) by (nonlinear_arith)
            requires
                total_ms(rs) == total_ms(rs.drop_last()) + rs.last().ms,
                total_ms(rs.drop_last()) <= rs.drop_last().len() * 0xffff_ffff_ffff_ffff,
                rs.drop_last().len() == rs.len() - 1,
                rs.last().ms <= 0xffff_ffff_ffff_ffff,
        ;
    }
}

pub fn score(results: &[ProbeResult]) -> (r: (usize, u64))
    ensures
        (r.0 as nat, r.1 as nat) == score_spec(results@),
{
    let mut ok: usize = 0;
    let mut total: u128 = 0;
    let mut i: usize = 0;
    while i < results.len()
        invariant
            i <= results.len(),
            ok == ok_count(results@.take(i as int)),
            total == total_ms(results@.take(i as int)),
        decreases results.len() - i,
    {
        proof {
            assert(results@.take(i + 1).drop_last() == results@.take(i as int));
            lemma_counts_bounded(results@.take(i + 1));
            assert(results@.take(i + 1).len() == i + 1);
            assert((i + 1) * 0xffff_ffff_ffff_ffff <= 0xffff_ffff_ffff_ffff * 0xffff_ffff_ffff_ffff) by (nonlinear_arith)
                requires
                    i + 1 <= 0xffff_ffff_ffff_ffff,
            ;
        }
        if results[i].ok {
            ok = ok + 1;
        }
        total = total + results[i].ms as u128;
        i = i + 1;
    }
    assert(results@.take(results.len() as int) == results@);
    if results.len() == 0 {
        (ok, 0)
    } else {
        proof {
            lemma_counts_bounded(results@);
            assert(total_ms(results@) / results@.len() <= 0xffff_ffff_ffff_ffff) by (nonlinear_arith)
                requires
                    total_ms(results@) <= results@.len() * 0xffff_ffff_ffff_ffff,
                    results@.len() > 0,
            ;
        }
        let avg = total / (results.len() as u128);
        (ok, avg as u64)
    }
}

/// The score of a candidate whose engine would not start.
pub fn spawn_failed_score(args: &String) -> (r: (String, usize, u64))
    ensures
        r.0@ == args@,
        r.1 == 0,
        r.2 == 9999,
{
    (args.clone(), 0, 9999)
}

pub struct TuneReport {
    pub best_args: String,
    /// Each candidate's arguments, sites loaded and mean time, best first.
    pub scores: Vec<(String, usize, u64)>,
}

pub type Score = (Seq<char>, usize, u64);

pub open spec fn score_views(v: Seq<(String, usize, u64)>) -> Seq<Score> {
    v.map_values(|s: (String, usize, u64)| (s.0@, s.1, s.2))
}

/// `a` ranks no lower than `b`: more sites loaded, or as many and no slower.
pub open spec fn ranks_before(a: Score, b: Score) -> bool {
    a.1 > b.1 || (a.1 == b.1 && a.2 <= b.2)
}

/// Where a stable sort puts `x` among the already ranked `s`: after every
/// entry that ranks no lower.
pub open spec fn insert_pos(s: Seq<Score>, x: Score) -> int
    decreases s.len(),
{
    if s.len() == 0 {
        0
    } else if ranks_before(s[0], x) {
        1 + insert_pos(s.drop_first(), x)
    } else {
        0
    }
}

/// The scores in ranking order: most sites loaded first, then fastest;
/// candidates that tie keep their order.
pub open spec fn ranked(s: Seq<Score>) -> Seq<Score>
    decreases s.len(),
{
    if s.len() == 0 {
        seq![]
    } else {
        let r = ranked(s.drop_last());
        r.insert(insert_pos(r, s.last()), s.last())
    }
}

pub open spec fn default_best() -> Seq<char> {
    "--disorder 1 --auto=torst --tlsrec 1+s"@
}

proof fn lemma_insert_pos_bounds(s: Seq<Score>, x: Score)
    ensures
        0 <= insert_pos(s, x) <= s.len(),
        forall|k: int| 0 <= k < insert_pos(s, x) ==> ranks_before(#[trigger] s[k], x),
        insert_pos(s, x) < s.len() ==> !ranks_before(s[insert_pos(s, x)], x),
    decreases s.len(),
{
    if s.len() > 0 && ranks_before(s[0], x) {
        lemma_insert_pos_bounds(s.drop_first(), x);
        assert forall|k: int| 0 <= k < insert_pos(s, x) implies ranks_before(#[trigger] s[k], x) by {
            if k > 0 {
                assert(s[k] == s.drop_first()[k - 1]);
            }
        }
    }
}

proof fn lemma_ranked_len(s: Seq<Score>)
    ensures
        ranked(s).len() == s.len(),
    decreases s.len(),
{
    if s.len() > 0 {
        lemma_ranked_len(s.drop_last());
        lemma_insert_pos_bounds(ranked(s.drop_last()), s.last());
    }
}

pub open spec fn sorted_by_rank(s: Seq<Score>) -> bool {
    forall|i: int, j: int| 0 <= i < j < s.len() ==> ranks_before(#[trigger] s[i], #[trigger] s[j])
}

/// Ranking orders the scores: every entry ranks no lower than those after it.
pub proof fn lemma_ranked_sorted(s: Seq<Score>)
    ensures
        sorted_by_rank(ranked(s)),
    decreases s.len(),
{
    if s.len() > 0 {
        let r = ranked(s.drop_last());
        let x = s.last();
        lemma_ranked_sorted(s.drop_last());
        lemma_insert_pos_bounds(r, x);
        let p = insert_pos(r, x);
        let t = r.insert(p, x);
        assert forall|i: int, j: int| 0 <= i < j < t.len() implies ranks_before(#[trigger] t[i], #[trigger] t[j]) by {
            if j < p {
                assert(t[i] == r[i] && t[j] == r[j]);
            } else if j == p {
                assert(t[i] == r[i]);
            } else if i < p {
                assert(t[i] == r[i] && t[j] == r[j - 1]);
                assert(ranks_before(r[i], r[j - 1]));
            } else if i == p {
                assert(t[j] == r[j - 1]);
                assert(!ranks_before(r[p], x));
                if j - 1 > p {
                    assert(ranks_before(r[p], r[j - 1]));
                }
            } else {
                assert(t[i] == r[i - 1] && t[j] == r[j - 1]);
            }
        }
    }
}

/// Ranking keeps every score: the ranked list holds the same entries, as
/// many times each.
pub proof fn lemma_ranked_permutes(s: Seq<Score>)
    ensures
        ranked(s).to_multiset() =~= s.to_multiset(),
    decreases s.len(),
{
    if s.len() > 0 {
        let r = ranked(s.drop_last());
        let x = s.last();
        lemma_ranked_permutes(s.drop_last());
        lemma_insert_pos_bounds(r, x);
        let p = insert_pos(r, x);
        vstd::seq_lib::to_multiset_insert(r, p, x);
        vstd::seq_lib::to_multiset_build(s.drop_last(), x);
        assert(s.drop_last().push(x) =~= s);
    } else {
        broadcast use vstd::seq_lib::group_to_multiset_ensures;
        assert(s.to_multiset().len() == 0);
        assert(ranked(s).to_multiset().len() == 0);
    }
}

fn score_view(e: &(String, usize, u64)) -> (r: (usize, u64))
    ensures
        r == (e.1, e.2),
{
    (e.1, e.2)
}

fn clone_score(e: &(String, usize, u64)) -> (r: (String, usize, u64))
    ensures
        (r.0@, r.1, r.2) == (e.0@, e.1, e.2),
{
    (e.0.clone(), e.1, e.2)
}

/// The scores in ranking order (a stable sort: most sites first, then
/// fastest).
pub fn rank_scores(scores: &Vec<(String, usize, u64)>) -> (r: Vec<(String, usize, u64)>)
    ensures
        score_views(r@) == ranked(score_views(scores@)),
{
    let ghost sv = score_views(scores@);
    let mut out: Vec<(String, usize, u64)> = Vec::new();
    let mut i: usize = 0;
    while i < scores.len()
        invariant
            i <= scores.len(),
            sv == score_views(scores@),
            score_views(out@) == ranked(sv.take(i as int)),
        decreases scores.len() - i,
    {
        let x = clone_score(&scores[i]);
        let (xo, xa) = score_view(&scores[i]);
        let ghost xv: Score = (x.0@, x.1, x.2);
        let ghost ov = score_views(out@);
        assert(sv.take(i + 1).drop_last() == sv.take(i as int));
        assert(sv.take(i + 1).last() == xv);
        proof {
            lemma_ranked_len(sv.take(i as int));
        }
        let mut j: usize = 0;
        assert(ov.skip(0) == ov);
        while j < out.len() && (out[j].1 > xo || (out[j].1 == xo && out[j].2 <= xa))
            invariant
                j <= out.len(),
                ov == score_views(out@),
                xv == (x.0@, xo, xa),
                insert_pos(ov, xv) == j + insert_pos(ov.skip(j as int), xv),
            decreases out.len() - j,
        {
            assert(ov.skip(j as int)[0] == ov[j as int]);
            assert(ov.skip(j as int).drop_first() == ov.skip(j + 1));
            j = j + 1;
        }
        proof {
            if j < out.len() {
                assert(ov.skip(j as int)[0] == ov[j as int]);
            }
        }
        assert(insert_pos(ov, xv) == j);
        out.insert(j, x);
        assert(score_views(out@) =~= ov.insert(j as int, xv));
        i = i + 1;
    }
    assert(sv.take(scores.len() as int) == sv);
    out
}

/// The report of a tuning run: the scores ranked, and the arguments of
/// the best candidate (a known-good default when there were none).
pub fn tune_report(scores: &Vec<(String, usize, u64)>) -> (r: TuneReport)
    ensures
        score_views(r.scores@) == ranked(score_views(scores@)),
        r.best_args@ == if scores@.len() == 0 {
            default_best()
        } else {
            ranked(score_views(scores@))[0].0
        },
{
    let ranked_scores = rank_scores(scores);
    proof {
        lemma_ranked_len(score_views(scores@));
    }
    let best = if ranked_scores.len() > 0 {
        ranked_scores[0].0.clone()
    } else {
        lit("--disorder 1 --auto=torst --tlsrec 1+s")
    };
    TuneReport { best_args: best, scores: ranked_scores }
}

} // verus!
