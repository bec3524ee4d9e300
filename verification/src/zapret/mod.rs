//! The zapret engine: locating nfqws, its strategy files, and the nftables
//! rules that send traffic to its queue. Each nftables change is planned
//! here as a list of `nft` invocations; the caller runs them in order.
use vstd::prelude::*;
use crate::text::{chars_of, string_of, views, cviews, trim, trim_chars, lines, lines_chars, contains, contains_chars, lowercase, to_lowercase, dec, dec_string, find_char_from, find_char_exec, lemma_find_char_from, slice_of, extend};
use crate::shell::{shell_split, shell_word_chars};
use crate::config::{path_join, join_text};
use crate::bypass::lit;

pub mod probe;
pub mod runner;
pub mod sites;
pub mod saved;

verus! {

/// The NFQUEUE number nfqws listens on.
pub const NFQUEUE: u16 = 200;

/// One `nft` invocation; when it is not `must_succeed`, its failure is ignored.
pub struct NftStep {
    pub args: Vec<String>,
    pub must_succeed: bool,
}

pub open spec fn step_view(s: NftStep) -> (Seq<Seq<char>>, bool) {
    (views(s.args@), s.must_succeed)
}

pub open spec fn steps_view(v: Seq<NftStep>) -> Seq<(Seq<Seq<char>>, bool)> {
    v.map_values(|s: NftStep| step_view(s))
}

fn step(args: Vec<String>, must_succeed: bool) -> (r: NftStep)
    ensures
        step_view(r) == (views(args@), must_succeed),
{
    NftStep { args, must_succeed }
}

// ---------------------------------------------------------------------------
// Paths
// ---------------------------------------------------------------------------

pub open spec fn strategy_file() -> Seq<char> {
    "/etc/unblocker/strategy.conf"@
}

/// The strategy file in production, then the bundled strategies of a
/// source tree, in order of preference.
pub open spec fn strategy_candidates() -> Seq<Seq<char>> {
    seq![
        strategy_file(),
        "config/zapret/strategies/general-hostfakesplit.strat"@,
        "config/zapret/strategies/general-alt11.strat"@,
    ]
}

pub fn strategy_path_candidates() -> (r: Vec<String>)
    ensures
        views(r@) == strategy_candidates(),
{
    let r = vec![
        lit("/etc/unblocker/strategy.conf"),
        lit("config/zapret/strategies/general-hostfakesplit.strat"),
        lit("config/zapret/strategies/general-alt11.strat"),
    ];
    assert(views(r@) =~= strategy_candidates());
    r
}

/// The first candidate that exists, else `fallback`.
pub open spec fn first_existing(cands: Seq<Seq<char>>, exists: Seq<bool>, fallback: Seq<char>) -> Seq<char>
    decreases cands.len(),
{
    if cands.len() == 0 || exists.len() == 0 {
        fallback
    } else if exists[0] {
        cands[0]
    } else {
        first_existing(cands.drop_first(), exists.drop_first(), fallback)
    }
}

/// Picks the first of `cands` whose entry in `exists` is true, else `fallback`.
pub fn pick_existing(cands: &Vec<String>, exists: &[bool], fallback: String) -> (r: String)
    ensures
        r@ == first_existing(views(cands@), exists@, fallback@),
{
    let mut i: usize = 0;
    assert(views(cands@).skip(0) == views(cands@));
    assert(exists@.skip(0) == exists@);
    while i < cands.len() && i < exists.len()
        invariant
            i <= cands.len(),
            i <= exists.len(),
            first_existing(views(cands@).skip(i as int), exists@.skip(i as int), fallback@)
                == first_existing(views(cands@), exists@, fallback@),
        decreases cands.len() - i,
    {
        assert(views(cands@).skip(i as int)[0] == cands@[i as int]@);
        if exists[i] {
            return cands[i].clone();
        }
        assert(views(cands@).skip(i as int).drop_first() == views(cands@).skip(i + 1));
        assert(exists@.skip(i as int).drop_first() == exists@.skip(i + 1));
        i = i + 1;
    }
    assert(views(cands@).skip(i as int).len() == 0 || exists@.skip(i as int).len() == 0);
    fallback
}

/// Path to the active strategy file: the first of the candidates that
/// exists (`exists` says which do, in order), else the production path.
pub fn default_strategy_path(exists: &[bool]) -> (r: String)
    ensures
        r@ == first_existing(strategy_candidates(), exists@, strategy_file()),
{
    let c = strategy_path_candidates();
    pick_existing(&c, exists, lit("/etc/unblocker/strategy.conf"))
}

/// Path to the hostlist: the installed registry list if it exists.
pub fn default_hostlist_path(installed_exists: bool) -> (r: String)
    ensures
        r@ == if installed_exists {
            "/etc/unblocker/hostlists/reestr.txt"@
        } else {
            "/tmp/hostlists/reestr.txt"@
        },
{
    if installed_exists {
        lit("/etc/unblocker/hostlists/reestr.txt")
    } else {
        lit("/tmp/hostlists/reestr.txt")
    }
}

/// Path to the hostlist that nfqws grows on its own.
pub fn auto_hostlist_path() -> (r: String)
    ensures
        r@ == "/etc/unblocker/hostlists/auto.txt"@,
{
    lit("/etc/unblocker/hostlists/auto.txt")
}

/// Where nfqws may be installed, in order of preference: next to the
/// running program, the system locations (which carry file capabilities),
/// and last the source tree's copy.
pub open spec fn nfqws_candidates_text(exe_dir: Option<Seq<char>>, root: Seq<char>) -> Seq<Seq<char>> {
    (match exe_dir {
        Some(d) => seq![join_text(d, "nfqws"@), join_text(d, "../lib/unblocker/nfqws"@)],
        None => seq![],
    }) + seq![
        "/usr/lib/unblocker/nfqws"@,
        "/usr/local/lib/unblocker/nfqws"@,
        "/usr/local/bin/nfqws"@,
        "/usr/bin/nfqws"@,
        join_text(root, "vendor/zapret/nfqws"@),
    ]
}

pub fn nfqws_candidates(exe_dir: Option<&str>, workspace_root: &str) -> (r: Vec<String>)
    ensures
        views(r@) == nfqws_candidates_text(
            match exe_dir {
                Some(d) => Some(d@),
                None => None,
            },
            workspace_root@,
        ),
{
    let mut v: Vec<String> = Vec::new();
    match exe_dir {
        Some(d) => {
            v.push(path_join(d, "nfqws"));
            v.push(path_join(d, "../lib/unblocker/nfqws"));
        },
        None => {},
    }
    v.push(lit("/usr/lib/unblocker/nfqws"));
    v.push(lit("/usr/local/lib/unblocker/nfqws"));
    v.push(lit("/usr/local/bin/nfqws"));
    v.push(lit("/usr/bin/nfqws"));
    v.push(path_join(workspace_root, "vendor/zapret/nfqws"));
    assert(views(v@) =~= nfqws_candidates_text(
        match exe_dir {
            Some(d) => Some(d@),
            None => None,
        },
        workspace_root@,
    ));
    v
}

// ---------------------------------------------------------------------------
// Strategy files
// ---------------------------------------------------------------------------

/// The text of a line before its first `#`, trimmed.
pub open spec fn before_comment(line: Seq<char>) -> Seq<char> {
    match find_char_from(line, '#', 0) {
        Some(i) => trim(line.take(i)),
        None => trim(line),
    }
}

/// The argv words of a strategy file: each non-comment line split
/// shell-style, in order.
pub open spec fn strategy_words(ls: Seq<Seq<char>>) -> Seq<Seq<char>>
    decreases ls.len(),
{
    if ls.len() == 0 {
        seq![]
    } else {
        strategy_words(ls.drop_last()) + if before_comment(ls.last()).len() == 0 {
            seq![]
        } else {
            shell_split(before_comment(ls.last()))
        }
    }
}

/// Reads a strategy file's text into nfqws argv words: one flag per line,
/// `#` starts a comment, blank lines are skipped, quotes are stripped.
pub fn strategy_args(content: &str) -> (r: Vec<String>)
    ensures
        views(r@) == strategy_words(lines(content@)),
{
    let v = chars_of(content);
    let ls = lines_chars(v.as_slice());
    let ghost lv = cviews(ls@);
    let mut out: Vec<String> = Vec::new();
    let mut i: usize = 0;
    while i < ls.len()
        invariant
            i <= ls.len(),
            lv == cviews(ls@),
            lv == lines(v@),
            v@ == content@,
            views(out@) == strategy_words(lv.take(i as int)),
        decreases ls.len() - i,
    {
        let raw = &ls[i];
        assert(lv.take(i + 1).drop_last() == lv.take(i as int));
        assert(lv.take(i + 1).last() == raw@);
        let line = match find_char_exec(raw.as_slice(), '#', 0) {
            Some(k) => {
                proof {
                    lemma_find_char_from(raw@, '#', 0);
                }
                let head = slice_of(raw.as_slice(), 0, k);
                trim_chars(head.as_slice())
            },
            None => trim_chars(raw.as_slice()),
        };
        assert(line@ == before_comment(raw@));
        if line.len() > 0 {
            let words = shell_word_chars(line.as_slice());
            let mut j: usize = 0;
            let ghost o = views(out@);
            while j < words.len()
                invariant
                    j <= words.len(),
                    views(out@) == o + cviews(words@).take(j as int),
                decreases words.len() - j,
            {
                let ghost before = out@;
                out.push(string_of(words[j].as_slice()));
                assert(views(out@) == views(before).push(words@[j as int]@));
                assert(cviews(words@).take(j + 1) == cviews(words@).take(j as int).push(words@[j as int]@));
                j = j + 1;
            }
            assert(cviews(words@).take(words.len() as int) == cviews(words@));
        } else {
            assert(views(out@) =~= strategy_words(lv.take(i + 1)));
        }
        i = i + 1;
    }
    assert(lv.take(ls.len() as int) == lv);
    out
}

/// The words joined by single spaces.
pub open spec fn joined(ws: Seq<Seq<char>>) -> Seq<char>
    decreases ws.len(),
{
    if ws.len() == 0 {
        seq![]
    } else if ws.len() == 1 {
        ws[0]
    } else {
        joined(ws.drop_last()) + seq![' '] + ws.last()
    }
}

/// The text saved as a strategy file: the argv joined by spaces. Read back
/// with `strategy_args` (or `load_strategy_file`), it gives the same argv
/// when no word is empty or holds whitespace, a quote or `#`.
pub fn strategy_file_text(args: &[String]) -> (r: String)
    ensures
        r@ == joined(views(args@)),
        crate::zapret::saved::plain_words(views(args@)) ==> strategy_words(lines(r@)) == views(args@),
{
    let mut out: Vec<char> = Vec::new();
    let mut i: usize = 0;
    while i < args.len()
        invariant
            i <= args.len(),
            out@ == joined(views(args@).take(i as int)),
        decreases args.len() - i,
    {
        let a = chars_of(args[i].as_str());
        let ghost ws = views(args@).take(i + 1);
        assert(ws.drop_last() == views(args@).take(i as int));
        if i > 0 {
            out.push(' ');
        } else {
            assert(views(args@).take(i as int).len() == 0);
        }
        extend(&mut out, a.as_slice());
        assert(ws.last() == args@[i as int]@);
        i = i + 1;
    }
    assert(views(args@).take(args.len() as int) == views(args@));
    proof {
        if crate::zapret::saved::plain_words(views(args@)) {
            crate::zapret::saved::lemma_strategy_saved_then_loaded(views(args@));
        }
    }
    string_of(out.as_slice())
}

// ---------------------------------------------------------------------------
// nftables plans
// ---------------------------------------------------------------------------

pub open spec fn nft_delete_main() -> Seq<Seq<char>> {
    seq!["delete"@, "table"@, "inet"@, "unblocker"@]
}

pub open spec fn nft_delete_nat() -> Seq<Seq<char>> {
    seq!["delete"@, "table"@, "inet"@, "unblocker_nat"@]
}

/// The rules that queue the user's web traffic (TCP 80 and 443, UDP 443)
/// to nfqws, with `bypass` so traffic still flows if nfqws is gone. The
/// table is deleted first (failure ignored), so installing twice is safe.
pub open spec fn nft_install_plan(queue: u16) -> Seq<(Seq<Seq<char>>, bool)> {
    seq![
        (nft_delete_main(), false),
        (seq!["add"@, "table"@, "inet"@, "unblocker"@], true),
        (seq!["add"@, "chain"@, "inet"@, "unblocker"@, "output"@, "{type"@, "filter"@, "hook"@, "output"@, "priority"@, "mangle;}"@], true),
        (seq!["add"@, "rule"@, "inet"@, "unblocker"@, "output"@, "tcp"@, "dport"@, "{80,443}"@, "queue"@, "num"@, dec(queue as nat), "bypass"@], true),
        (seq!["add"@, "rule"@, "inet"@, "unblocker"@, "output"@, "udp"@, "dport"@, "443"@, "queue"@, "num"@, dec(queue as nat), "bypass"@], true),
    ]
}

/// The nft invocations that install the NFQUEUE rules (no UID filter).
pub fn nft_install(_uid: u32, queue: u16) -> (r: Vec<NftStep>)
    ensures
        steps_view(r@) == nft_install_plan(queue),
{
    let q = dec_string(queue as u64);
    let q2 = dec_string(queue as u64);
    let s0 = step(vec![lit("delete"), lit("table"), lit("inet"), lit("unblocker")], false);
    let s1 = step(vec![lit("add"), lit("table"), lit("inet"), lit("unblocker")], true);
    let s2 = step(vec![lit("add"), lit("chain"), lit("inet"), lit("unblocker"), lit("output"), lit("{type"), lit("filter"), lit("hook"), lit("output"), lit("priority"), lit("mangle;}")], true);
    let s3 = step(vec![lit("add"), lit("rule"), lit("inet"), lit("unblocker"), lit("output"), lit("tcp"), lit("dport"), lit("{80,443}"), lit("queue"), lit("num"), q, lit("bypass")], true);
    let s4 = step(vec![lit("add"), lit("rule"), lit("inet"), lit("unblocker"), lit("output"), lit("udp"), lit("dport"), lit("443"), lit("queue"), lit("num"), q2, lit("bypass")], true);
    let ghost p = nft_install_plan(queue);
    assert(step_view(s0) =~~= p[0]);
    assert(step_view(s1) =~~= p[1]);
    assert(step_view(s2) =~~= p[2]);
    assert(step_view(s3) =~~= p[3]);
    assert(step_view(s4) =~~= p[4]);
    let v = vec![s0, s1, s2, s3, s4];
    assert(steps_view(v@) =~~= nft_install_plan(queue));
    v
}

/// Installing is safe to repeat: the plan always starts by deleting the
/// table (a failure there is ignored) before creating it afresh, and every
/// queue rule carries `bypass`, so traffic still flows if nfqws is gone.
pub proof fn lemma_nft_install_idempotent_and_bypassed(queue: u16)
    ensures
        nft_install_plan(queue)[0] == (nft_delete_main(), false),
        nft_install_plan(queue)[1] == (seq!["add"@, "table"@, "inet"@, "unblocker"@], true),
        forall|k: int| 3 <= k < nft_install_plan(queue).len() ==> (#[trigger] nft_install_plan(queue)[k]).0.last() == "bypass"@
            && nft_install_plan(queue)[k].0.contains("queue"@),
        nft_install_plan(queue).len() == 5,
{
    let p = nft_install_plan(queue);
    assert(p[3].0[8] == "queue"@);
    assert(p[4].0[8] == "queue"@);
}

/// The Telegram address ranges whose plain-HTTP traffic goes to the local proxy.
pub open spec fn tg_ranges() -> Seq<Seq<char>> {
    seq!["149.154.128.0/17"@, "149.154.175.0/24"@, "91.108.0.0/16"@, "185.76.151.0/24"@, "194.221.250.0/24"@]
}

pub open spec fn tg_rule(range: Seq<char>, port: u16) -> Seq<Seq<char>> {
    seq!["add"@, "rule"@, "inet"@, "unblocker_nat"@, "output"@, "tcp"@, "dport"@, "80"@, "ip"@, "daddr"@, range, "redirect"@, "to"@, dec(port as nat)]
}

/// Redirects Telegram's port-80 traffic to the local proxy (port 443 stays
/// with nfqws): a fresh nat table and chain, then one rule per range
/// (rule failures ignored).
pub open spec fn nft_tg_plan(port: u16) -> Seq<(Seq<Seq<char>>, bool)> {
    seq![
        (nft_delete_nat(), false),
        (seq!["add"@, "table"@, "inet"@, "unblocker_nat"@], true),
        (seq!["add"@, "chain"@, "inet"@, "unblocker_nat"@, "output"@, "{type"@, "nat"@, "hook"@, "output"@, "priority"@, "0;}"@], true),
        (tg_rule(tg_ranges()[0], port), false),
        (tg_rule(tg_ranges()[1], port), false),
        (tg_rule(tg_ranges()[2], port), false),
        (tg_rule(tg_ranges()[3], port), false),
        (tg_rule(tg_ranges()[4], port), false),
    ]
}

fn tg_rule_exec(range: &str, port: &String) -> (r: Vec<String>)
    ensures
        views(r@) == tg_rule(range@, 0u16).update(13, port@),
{
    let mut v = vec![lit("add"), lit("rule"), lit("inet"), lit("unblocker_nat"), lit("output"), lit("tcp"), lit("dport"), lit("80"), lit("ip"), lit("daddr")];
    v.push(lit(range));
    v.push(lit("redirect"));
    v.push(lit("to"));
    v.push(port.clone());
    assert(views(v@) =~= tg_rule(range@, 0u16).update(13, port@));
    v
}

proof fn lemma_tg_rule_port(range: Seq<char>, port: u16)
    ensures
        tg_rule(range, 0u16).update(13, dec(port as nat)) == tg_rule(range, port),
{
    assert(tg_rule(range, 0u16).update(13, dec(port as nat)) =~= tg_rule(range, port));
}

pub fn nft_install_tg_redirect(tg_port: u16) -> (r: Vec<NftStep>)
    ensures
        steps_view(r@) == nft_tg_plan(tg_port),
{
    let p = dec_string(tg_port as u64);
    let mut v: Vec<NftStep> = Vec::new();
    v.push(step(vec![lit("delete"), lit("table"), lit("inet"), lit("unblocker_nat")], false));
    v.push(step(vec![lit("add"), lit("table"), lit("inet"), lit("unblocker_nat")], true));
    v.push(step(vec![lit("add"), lit("chain"), lit("inet"), lit("unblocker_nat"), lit("output"), lit("{type"), lit("nat"), lit("hook"), lit("output"), lit("priority"), lit("0;}")], true));
    v.push(step(tg_rule_exec("149.154.128.0/17", &p), false));
    v.push(step(tg_rule_exec("149.154.175.0/24", &p), false));
    v.push(step(tg_rule_exec("91.108.0.0/16", &p), false));
    v.push(step(tg_rule_exec("185.76.151.0/24", &p), false));
    v.push(step(tg_rule_exec("194.221.250.0/24", &p), false));
    proof {
        lemma_tg_rule_port("149.154.128.0/17"@, tg_port);
        lemma_tg_rule_port("149.154.175.0/24"@, tg_port);
        lemma_tg_rule_port("91.108.0.0/16"@, tg_port);
        lemma_tg_rule_port("185.76.151.0/24"@, tg_port);
        lemma_tg_rule_port("194.221.250.0/24"@, tg_port);
    }
    assert(steps_view(v@) =~~= nft_tg_plan(tg_port));
    v
}

/// Removes both of this program's tables (failures ignored).
pub fn nft_flush_safely() -> (r: Vec<NftStep>)
    ensures
        steps_view(r@) == seq![(nft_delete_main(), false), (nft_delete_nat(), false)],
{
    let v = vec![
        step(vec![lit("delete"), lit("table"), lit("inet"), lit("unblocker")], false),
        step(vec![lit("delete"), lit("table"), lit("inet"), lit("unblocker_nat")], false),
    ];
    assert(steps_view(v@) =~~= seq![(nft_delete_main(), false), (nft_delete_nat(), false)]);
    v
}

/// Removes the queue table (failure ignored).
pub fn nft_remove() -> (r: Vec<NftStep>)
    ensures
        steps_view(r@) == seq![(nft_delete_main(), false)],
{
    let v = vec![step(vec![lit("delete"), lit("table"), lit("inet"), lit("unblocker")], false)];
    assert(steps_view(v@) =~~= seq![(nft_delete_main(), false)]);
    v
}

/// An `nft` error worth retrying with privileges: its message (in lower
/// case) speaks of a permission, a forbidden operation or a "could not".
pub open spec fn permission_error(stderr: Seq<char>) -> bool {
    let l = lowercase(stderr);
    contains(l, "permission"@) || contains(l, "operation not permitted"@) || contains(l, "could not"@)
}

pub fn nft_permission_error(stderr: &str) -> (r: bool)
    ensures
        r == permission_error(stderr@),
{
    let l = to_lowercase(stderr);
    let v = chars_of(l.as_str());
    let a = chars_of("permission");
    let b = chars_of("operation not permitted");
    let c = chars_of("could not");
    contains_chars(v.as_slice(), a.as_slice()) || contains_chars(v.as_slice(), b.as_slice())
        || contains_chars(v.as_slice(), c.as_slice())
}

/// The nfqws argv after the program: the queue number, then the strategy.
pub fn engine_args(args: &[String]) -> (r: Vec<String>)
    ensures
        views(r@) == seq!["--qnum"@, "200"@] + views(args@),
{
    let mut v: Vec<String> = vec![lit("--qnum"), lit("200")];
    let ghost head = views(v@);
    let mut i: usize = 0;
    while i < args.len()
        invariant
            i <= args.len(),
            head == seq!["--qnum"@, "200"@],
            views(v@) == head + views(args@).take(i as int),
        decreases args.len() - i,
    {
        let ghost before = v@;
        v.push(args[i].clone());
        assert(views(v@) == views(before).push(args@[i as int]@));
        assert(views(args@).take(i + 1) == views(args@).take(i as int).push(args@[i as int]@));
        i = i + 1;
    }
    assert(views(args@).take(args.len() as int) == views(args@));
    v
}

} // verus!
