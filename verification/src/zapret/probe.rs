//! The site-by-site strategy scanner. A probe installs a probe-only nft
//! table that queues one uid's web traffic to its own NFQUEUE, starts
//! nfqws there with the strategy under test, fetches the site with curl as
//! that uid, and cleans up (nfqws killed first, then the table removed).
//! This module plans each of those steps and judges what came back; the
//! caller runs the commands.
use vstd::prelude::*;
use crate::text::{chars_of, string_of, extend, views, cviews, trim, trim_chars, lines, lines_chars,
    starts_with, starts_with_chars, split_ws, split_ws_chars, strings_of, dec, dec_chars, dec_string,
    eq_chars, pair_views};
use crate::bypass::lit;
use crate::zapret::{NftStep, step_view, steps_view, joined, strategy_file_text, first_existing, pick_existing};

verus! {

/// Every probe table's name starts with this, so all of them can be found
/// and removed on exit.
pub const PROBE_TABLE_PREFIX: &'static str = "unblocker_probe_";

pub open spec fn probe_prefix() -> Seq<char> {
    "unblocker_probe_"@
}

/// The uid whose traffic a probe queues ("nobody").
pub const PROBE_UID: u32 = 65534;

/// What one probe found. All of it is kept so the scan log shows the whole
/// picture.
#[derive(Clone, Debug)]
pub struct ProbeResult {
    pub strat: String,
    pub host: String,
    pub tcp_443: bool,
    pub tls_handshake: bool,
    pub cert_chain_valid: bool,
    pub http_200: bool,
    pub ms: u64,
    pub error: Option<String>,
}

pub open spec fn opt_text(o: Option<String>) -> Option<Seq<char>> {
    match o {
        Some(s) => Some(s@),
        None => None,
    }
}

/// The NFQUEUE number of the probe with sequence number `seq`: 201 to 250,
/// from the low 16 bits of `seq`.
pub open spec fn probe_queue_spec(seq: u64) -> u16 {
    (201 + (seq % 65536) % 50) as u16
}

pub fn probe_queue(seq: u64) -> (q: u16)
    ensures
        q == probe_queue_spec(seq),
        201 <= q <= 250,
{
    let low = seq as u16;
    assert(low == seq % 65536) by (bit_vector)
        requires
            low == seq as u16,
    ;
    201 + low % 50
}

/// The probe table of process `pid`'s probe number `seq`.
pub open spec fn probe_table_text(pid: u32, seq: u64) -> Seq<char> {
    probe_prefix() + dec(pid as nat) + seq!['_'] + dec(seq as nat)
}

pub fn probe_table_name(pid: u32, seq: u64) -> (r: String)
    ensures
        r@ == probe_table_text(pid, seq),
{
    proof {
        reveal_strlit("unblocker_probe_");
    }
    let mut v = chars_of(PROBE_TABLE_PREFIX);
    let p = dec_chars(pid as u64);
    extend(&mut v, p.as_slice());
    v.push('_');
    let s = dec_chars(seq);
    extend(&mut v, s.as_slice());
    string_of(v.as_slice())
}

pub open spec fn probe_rule(table: Seq<char>, uid: u32, proto: Seq<char>, ports: Seq<char>, q: u16) -> Seq<Seq<char>> {
    seq!["add"@, "rule"@, "inet"@, table, "output"@, "meta"@, "skuid"@, dec(uid as nat), proto, "dport"@,
        ports, "queue"@, "num"@, dec(q as nat), "bypass"@]
}

/// The probe-only table: deleted first (failure ignored), then created with
/// one output chain whose rules queue `uid`'s TCP 80/443 and UDP 443
/// traffic to queue `q`. Every step but the first must succeed.
pub open spec fn probe_nft_plan(table: Seq<char>, uid: u32, q: u16) -> Seq<(Seq<Seq<char>>, bool)> {
    seq![
        (seq!["delete"@, "table"@, "inet"@, table], false),
        (seq!["add"@, "table"@, "inet"@, table], true),
        (seq!["add"@, "chain"@, "inet"@, table, "output"@, "{type"@, "filter"@, "hook"@, "output"@, "priority"@, "mangle;}"@], true),
        (probe_rule(table, uid, "tcp"@, "{80,443}"@, q), true),
        (probe_rule(table, uid, "udp"@, "443"@, q), true),
    ]
}

fn probe_rule_exec(table: &String, uid: u32, proto: &str, ports: &str, q: u16) -> (r: Vec<String>)
    ensures
        views(r@) == probe_rule(table@, uid, proto@, ports@, q),
{
    let r = vec![lit("add"), lit("rule"), lit("inet"), table.clone(), lit("output"), lit("meta"), lit("skuid"),
        dec_string(uid as u64), lit(proto), lit("dport"), lit(ports), lit("queue"), lit("num"),
        dec_string(q as u64), lit("bypass")];
    assert(views(r@) =~= probe_rule(table@, uid, proto@, ports@, q));
    r
}

pub fn probe_nft_steps(table: &String, uid: u32, q: u16) -> (r: Vec<NftStep>)
    ensures
        steps_view(r@) == probe_nft_plan(table@, uid, q),
{
    let s0 = NftStep { args: vec![lit("delete"), lit("table"), lit("inet"), table.clone()], must_succeed: false };
    let s1 = NftStep { args: vec![lit("add"), lit("table"), lit("inet"), table.clone()], must_succeed: true };
    let s2 = NftStep {
        args: vec![lit("add"), lit("chain"), lit("inet"), table.clone(), lit("output"), lit("{type"), lit("filter"),
            lit("hook"), lit("output"), lit("priority"), lit("mangle;}")],
        must_succeed: true,
    };
    let s3 = NftStep { args: probe_rule_exec(table, uid, "tcp", "{80,443}", q), must_succeed: true };
    let s4 = NftStep { args: probe_rule_exec(table, uid, "udp", "443", q), must_succeed: true };
    let ghost p = probe_nft_plan(table@, uid, q);
    assert(step_view(s0) =~~= p[0]);
    assert(step_view(s1) =~~= p[1]);
    assert(step_view(s2) =~~= p[2]);
    assert(step_view(s3) =~~= p[3]);
    assert(step_view(s4) =~~= p[4]);
    let v = vec![s0, s1, s2, s3, s4];
    assert(steps_view(v@) =~~= p);
    v
}

/// `nft delete table inet <table>`: the last cleanup step of every probe.
pub fn delete_table_args(table: &String) -> (r: Vec<String>)
    ensures
        views(r@) == seq!["delete"@, "table"@, "inet"@, table@],
{
    let r = vec![lit("delete"), lit("table"), lit("inet"), table.clone()];
    assert(views(r@) =~= seq!["delete"@, "table"@, "inet"@, table@]);
    r
}

/// `kill -9 <pid>`: the first cleanup step, which frees the queue.
pub fn kill_args(pid: u32) -> (r: Vec<String>)
    ensures
        views(r@) == seq!["-9"@, dec(pid as nat)],
{
    let r = vec![lit("-9"), dec_string(pid as u64)];
    assert(views(r@) =~= seq!["-9"@, dec(pid as nat)]);
    r
}

/// A probe's cleanup, run whatever happened: nfqws is killed first (it
/// holds the queue), then the probe table is deleted, so no rule is left
/// queueing to a dead queue.
pub fn probe_cleanup(pid: u32, table: &String) -> (r: Vec<(String, Vec<String>)>)
    ensures
        r@.len() == 2,
        r@[0].0@ == "kill"@,
        views(r@[0].1@) == seq!["-9"@, dec(pid as nat)],
        r@[1].0@ == "nft"@,
        views(r@[1].1@) == seq!["delete"@, "table"@, "inet"@, table@],
{
    vec![(lit("kill"), kill_args(pid)), (lit("nft"), delete_table_args(table))]
}

/// How a probe ended.
#[derive(Clone, Copy, Debug, PartialEq, Eq, Structural)]
pub enum ProbeExit {
    /// A step of the probe table that must succeed failed; the table may be
    /// partly installed.
    InstallFailed,
    /// nfqws could not be started: no process exists.
    SpawnFailed,
    /// nfqws exited before curl ran; the liveness check already reaped it.
    ExitedEarly,
    /// curl ran (or could not be started) while nfqws was running.
    CurlDone,
}

/// One cleanup step of a probe.
pub enum CleanupStep {
    /// Run `kill` with these arguments.
    KillEngine { args: Vec<String> },
    /// Wait for the killed nfqws, so that it is reaped.
    ReapEngine,
    /// Run `nft` with these arguments.
    DeleteTable { args: Vec<String> },
}

pub enum CleanupView {
    Kill(Seq<Seq<char>>),
    Reap,
    Delete(Seq<Seq<char>>),
}

pub open spec fn cleanup_view(s: CleanupStep) -> CleanupView {
    match s {
        CleanupStep::KillEngine { args } => CleanupView::Kill(views(args@)),
        CleanupStep::ReapEngine => CleanupView::Reap,
        CleanupStep::DeleteTable { args } => CleanupView::Delete(views(args@)),
    }
}

pub open spec fn cleanup_views(v: Seq<CleanupStep>) -> Seq<CleanupView> {
    v.map_values(|s: CleanupStep| cleanup_view(s))
}

/// The cleanup owed on each way a probe ends: a running nfqws (pid `pid`)
/// is killed and reaped first, then the probe table is deleted; when no
/// nfqws runs any more (none was started, or it already exited and was
/// reaped) only the table is deleted.
pub open spec fn probe_exit_plan(exit: ProbeExit, pid: u32, table: Seq<char>) -> Seq<CleanupView> {
    let delete = CleanupView::Delete(seq!["delete"@, "table"@, "inet"@, table]);
    if exit == ProbeExit::CurlDone {
        seq![CleanupView::Kill(seq!["-9"@, dec(pid as nat)]), CleanupView::Reap, delete]
    } else {
        seq![delete]
    }
}

/// The cleanup steps for a probe that ended as `exit` (`pid` is nfqws's
/// process id when it runs).
pub fn probe_exit_steps(exit: ProbeExit, pid: u32, table: &String) -> (r: Vec<CleanupStep>)
    ensures
        cleanup_views(r@) == probe_exit_plan(exit, pid, table@),
{
    let delete = CleanupStep::DeleteTable { args: delete_table_args(table) };
    let r = match exit {
        ProbeExit::CurlDone => vec![CleanupStep::KillEngine { args: kill_args(pid) }, CleanupStep::ReapEngine, delete],
        _ => vec![delete],
    };
    assert(cleanup_views(r@) =~= probe_exit_plan(exit, pid, table@));
    r
}

/// Whichever way a probe ends, its last cleanup step deletes the probe
/// table, and no nfqws it started is left running or unreaped: a running
/// one is killed and then reaped before the table goes.
pub proof fn lemma_probe_cleanup_every_exit(exit: ProbeExit, pid: u32, table: Seq<char>)
    ensures
        ({
            let p = probe_exit_plan(exit, pid, table);
            &&& p.len() >= 1
            &&& p.last() == CleanupView::Delete(seq!["delete"@, "table"@, "inet"@, table])
            &&& exit == ProbeExit::CurlDone ==> p[0] is Kill && p[1] is Reap
        }),
{
}

/// Where nfqws is run from during a scan: the installed binary, its
/// symlink, else whatever `nfqws` the search path finds.
pub open spec fn probe_nfqws_text(exists: Seq<bool>) -> Seq<char> {
    first_existing(seq!["/usr/local/lib/unblocker/nfqws"@, "/usr/local/bin/nfqws"@], exists, "nfqws"@)
}

pub fn probe_nfqws_path(exists: &[bool]) -> (r: String)
    ensures
        r@ == probe_nfqws_text(exists@),
{
    let c = vec![lit("/usr/local/lib/unblocker/nfqws"), lit("/usr/local/bin/nfqws")];
    assert(views(c@) =~= seq!["/usr/local/lib/unblocker/nfqws"@, "/usr/local/bin/nfqws"@]);
    pick_existing(&c, exists, lit("nfqws"))
}

/// nfqws's arguments for a probe: the strategy, then the probe queue and
/// debug output (which goes to the probe log).
pub fn probe_engine_args(strat_args: &[String], q: u16) -> (r: Vec<String>)
    ensures
        views(r@) == views(strat_args@) + seq!["--qnum"@, dec(q as nat), "--debug=1"@],
{
    let mut v: Vec<String> = Vec::new();
    let mut i: usize = 0;
    while i < strat_args.len()
        invariant
            i <= strat_args.len(),
            views(v@) == views(strat_args@).take(i as int),
        decreases strat_args.len() - i,
    {
        let ghost before = v@;
        v.push(strat_args[i].clone());
        assert(views(v@) == views(before).push(strat_args@[i as int]@));
        assert(views(strat_args@).take(i + 1) == views(strat_args@).take(i as int).push(strat_args@[i as int]@));
        i = i + 1;
    }
    assert(views(strat_args@).take(strat_args.len() as int) == views(strat_args@));
    let ghost before = views(v@);
    v.push(lit("--qnum"));
    v.push(dec_string(q as u64));
    v.push(lit("--debug=1"));
    assert(views(v@) =~= before + seq!["--qnum"@, dec(q as nat), "--debug=1"@]);
    v
}

/// The file nfqws's debug output is appended to during a probe.
pub fn probe_log_path(pid: u32, seq: u64) -> (r: String)
    ensures
        r@ == "/tmp/unblocker-probe-nfqws-"@ + dec(pid as nat) + seq!['-'] + dec(seq as nat) + ".log"@,
{
    let mut v = chars_of("/tmp/unblocker-probe-nfqws-");
    let p = dec_chars(pid as u64);
    extend(&mut v, p.as_slice());
    v.push('-');
    let s = dec_chars(seq);
    extend(&mut v, s.as_slice());
    let e = chars_of(".log");
    extend(&mut v, e.as_slice());
    string_of(v.as_slice())
}

/// curl's arguments for a probe: IPv4, 4 seconds at most, redirects
/// followed, only the HTTP status printed.
pub open spec fn probe_curl_text(url: Seq<char>) -> Seq<Seq<char>> {
    seq!["--max-time"@, "4"@, "-4"@, "-sS"@, "-L"@, "-o"@, "/dev/null"@, "-w"@, "%{http_code}"@, url]
}

pub fn probe_curl_args(test_url: &str) -> (r: Vec<String>)
    ensures
        views(r@) == probe_curl_text(test_url@),
{
    let r = vec![lit("--max-time"), lit("4"), lit("-4"), lit("-sS"), lit("-L"), lit("-o"), lit("/dev/null"),
        lit("-w"), lit("%{http_code}"), lit(test_url)];
    assert(views(r@) =~= probe_curl_text(test_url@));
    r
}

/// The decimal text of a signed number.
pub open spec fn signed_dec(n: int) -> Seq<char> {
    if n < 0 {
        seq!['-'] + dec((-n) as nat)
    } else {
        dec(n as nat)
    }
}

/// How an exit code prints with `{:?}`: `Some(<n>)`, or `None` when the
/// process was ended by a signal.
pub open spec fn code_text(code: Option<i32>) -> Seq<char> {
    match code {
        Some(n) => "Some("@ + signed_dec(n as int) + ")"@,
        None => "None"@,
    }
}

fn code_chars(code: Option<i32>) -> (r: Vec<char>)
    ensures
        r@ == code_text(code),
{
    match code {
        Some(n) => {
            let mut v = chars_of("Some(");
            if n < 0 {
                v.push('-');
                let m: i64 = -(n as i64);
                let d = dec_chars(m as u64);
                extend(&mut v, d.as_slice());
            } else {
                let d = dec_chars(n as u64);
                extend(&mut v, d.as_slice());
            }
            let c = chars_of(")");
            extend(&mut v, c.as_slice());
            v
        },
        None => chars_of("None"),
    }
}

/// A probe that stopped before curl ran: nothing passed, no time measured.
pub open spec fn failed_probe_spec(r: ProbeResult, strat: Seq<Seq<char>>, host: Seq<char>, error: Seq<char>) -> bool {
    &&& r.strat@ == joined(strat)
    &&& r.host@ == host
    &&& !r.tcp_443 && !r.tls_handshake && !r.cert_chain_valid && !r.http_200
    &&& r.ms == 0
    &&& opt_text(r.error) == Some(error)
}

fn failed_probe(strat_args: &[String], host: &str, error: String) -> (r: ProbeResult)
    ensures
        failed_probe_spec(r, views(strat_args@), host@, error@),
{
    ProbeResult {
        strat: strategy_file_text(strat_args),
        host: lit(host),
        tcp_443: false,
        tls_handshake: false,
        cert_chain_valid: false,
        http_200: false,
        ms: 0,
        error: Some(error),
    }
}

fn prefixed(prefix: &str, msg: &str) -> (r: String)
    ensures
        r@ == prefix@ + msg@,
{
    let mut v = chars_of(prefix);
    let m = chars_of(msg);
    extend(&mut v, m.as_slice());
    string_of(v.as_slice())
}

/// The words of an nft invocation as `{:?}` prints them: quoted and
/// comma-separated in brackets (the planned words hold no character that
/// `{:?}` escapes).
pub open spec fn quoted_list(ws: Seq<Seq<char>>) -> Seq<char>
    decreases ws.len(),
{
    if ws.len() == 0 {
        "[]"@
    } else {
        quoted_items(ws.drop_last()) + seq!['"'] + ws.last() + "\"]"@
    }
}

pub open spec fn quoted_items(ws: Seq<Seq<char>>) -> Seq<char>
    decreases ws.len(),
{
    if ws.len() == 0 {
        "["@
    } else {
        quoted_items(ws.drop_last()) + seq!['"'] + ws.last() + "\", "@
    }
}

/// What a failed probe-table step reports: `nft <args> failed: <stderr>`.
pub open spec fn nft_failure_text(args: Seq<Seq<char>>, stderr: Seq<char>) -> Seq<char> {
    "nft "@ + quoted_list(args) + " failed: "@ + trim(stderr)
}

pub fn nft_failure_message(args: &[String], stderr: &str) -> (r: String)
    ensures
        r@ == nft_failure_text(views(args@), stderr@),
{
    proof {
        reveal_strlit("[");
        reveal_strlit("[]");
        reveal_strlit("\"]");
        reveal_strlit("\", ");
        reveal_strlit("nft [");
        reveal_strlit("nft ");
    }
    let mut v = chars_of("nft [");
    let mut i: usize = 0;
    while i < args.len()
        invariant
            i <= args.len(),
            i == 0 || i < args.len(),
            v@ == "nft "@ + quoted_items(views(args@).take(i as int)),
        decreases args.len() - i,
    {
        let ghost ws = views(args@).take(i + 1);
        assert(ws.drop_last() == views(args@).take(i as int));
        assert(ws.last() == args@[i as int]@);
        if i + 1 == args.len() {
            v.push('"');
            let a = chars_of(args[i].as_str());
            extend(&mut v, a.as_slice());
            let e = chars_of("\"]");
            extend(&mut v, e.as_slice());
            assert(views(args@).take(args.len() as int) == views(args@));
            assert(v@ == "nft "@ + quoted_list(views(args@)));
            let f = chars_of(" failed: ");
            extend(&mut v, f.as_slice());
            let s = chars_of(stderr);
            let t = trim_chars(s.as_slice());
            extend(&mut v, t.as_slice());
            return string_of(v.as_slice());
        }
        v.push('"');
        let a = chars_of(args[i].as_str());
        extend(&mut v, a.as_slice());
        let e = chars_of("\", ");
        extend(&mut v, e.as_slice());
        i = i + 1;
    }
    assert(args.len() == 0);
    v.push(']');
    assert(v@ == "nft "@ + quoted_list(views(args@)));
    let f = chars_of(" failed: ");
    extend(&mut v, f.as_slice());
    let s = chars_of(stderr);
    let t = trim_chars(s.as_slice());
    extend(&mut v, t.as_slice());
    string_of(v.as_slice())
}

/// The result when the probe table could not be installed (`error` is the
/// failure message of the step that failed).
pub fn nft_install_failed(strat_args: &[String], host: &str, error: &str) -> (r: ProbeResult)
    ensures
        failed_probe_spec(r, views(strat_args@), host@, "nft install: "@ + error@),
{
    failed_probe(strat_args, host, prefixed("nft install: ", error))
}

/// The result when nfqws could not be started (`error` is the system's
/// message).
pub fn engine_spawn_failed(strat_args: &[String], host: &str, error: &str) -> (r: ProbeResult)
    ensures
        failed_probe_spec(r, views(strat_args@), host@, "nfqws spawn: "@ + error@),
{
    failed_probe(strat_args, host, prefixed("nfqws spawn: ", error))
}

/// The result when nfqws exited before curl ran, most likely because it
/// refused the strategy's arguments.
pub fn engine_exited_early(strat_args: &[String], host: &str, code: Option<i32>) -> (r: ProbeResult)
    ensures
        failed_probe_spec(r, views(strat_args@), host@, "nfqws exited early: "@ + code_text(code)),
{
    let mut v = chars_of("nfqws exited early: ");
    let c = code_chars(code);
    extend(&mut v, c.as_slice());
    failed_probe(strat_args, host, string_of(v.as_slice()))
}

/// What curl's run says: whether the connection worked, whether the page
/// loaded (status 200 or any redirect), and an error text when neither.
pub struct CurlVerdict {
    pub curl_ok: bool,
    pub http_200: bool,
    pub error: Option<String>,
}

/// The status curl printed counts as loaded when it is 200 or any 3xx.
pub open spec fn status_loaded(stdout: Seq<char>) -> bool {
    trim(stdout) == "200"@ || starts_with(trim(stdout), "3"@)
}

/// The first line of `s`, or nothing.
pub open spec fn first_line(s: Seq<char>) -> Seq<char> {
    if lines(s).len() > 0 {
        lines(s)[0]
    } else {
        seq![]
    }
}

pub open spec fn curl_error_text(code: Option<i32>, stdout: Seq<char>, stderr: Seq<char>) -> Seq<char> {
    let l = first_line(stderr);
    "curl exit="@ + code_text(code) + " body="@ + trim(stdout) + " stderr="@ + l.take(
        if l.len() < 120 { l.len() as int } else { 120 },
    )
}

/// Judges a finished curl run from its exit status and (lossily decoded)
/// output.
pub fn curl_verdict(success: bool, code: Option<i32>, stdout: &str, stderr: &str) -> (r: CurlVerdict)
    ensures
        r.http_200 == status_loaded(stdout@),
        r.curl_ok == (success || r.http_200),
        opt_text(r.error) == if !success && !r.http_200 {
            Some(curl_error_text(code, stdout@, stderr@))
        } else {
            None
        },
{
    proof {
        reveal_strlit("200");
        reveal_strlit("3");
    }
    let o = chars_of(stdout);
    let body = trim_chars(o.as_slice());
    let two = chars_of("200");
    let three = chars_of("3");
    let http_200 = eq_chars(body.as_slice(), two.as_slice()) || starts_with_chars(body.as_slice(), three.as_slice());
    let error = if !success && !http_200 {
        let mut v = chars_of("curl exit=");
        let c = code_chars(code);
        extend(&mut v, c.as_slice());
        let b = chars_of(" body=");
        extend(&mut v, b.as_slice());
        extend(&mut v, body.as_slice());
        let s = chars_of(" stderr=");
        extend(&mut v, s.as_slice());
        let e = chars_of(stderr);
        let ls = lines_chars(e.as_slice());
        if ls.len() > 0 {
            let l = &ls[0];
            let n: usize = if l.len() < 120 { l.len() } else { 120 };
            let mut j: usize = 0;
            let ghost v0 = v@;
            while j < n
                invariant
                    j <= n,
                    n <= l@.len(),
                    v@ == v0 + l@.take(j as int),
                decreases n - j,
            {
                v.push(l[j]);
                assert(l@.take(j + 1) == l@.take(j as int).push(l@[j as int]));
                j = j + 1;
            }
            assert(cviews(ls@)[0] == l@);
        } else {
            assert(v@ =~= v@ + seq![].take(0));
        }
        Some(string_of(v.as_slice()))
    } else {
        None
    };
    CurlVerdict { curl_ok: success || http_200, http_200, error }
}

/// The verdict when curl could not be started at all.
pub fn curl_spawn_failed(error: &str) -> (r: CurlVerdict)
    ensures
        !r.curl_ok,
        !r.http_200,
        opt_text(r.error) == Some("curl spawn: "@ + error@),
{
    CurlVerdict { curl_ok: false, http_200: false, error: Some(prefixed("curl spawn: ", error)) }
}

/// The result of a probe whose curl ran: connection and load as the
/// verdict says; a load counts as a handshake with a valid chain.
pub fn probe_result(strat_args: &[String], host: &str, verdict: CurlVerdict, ms: u64) -> (r: ProbeResult)
    ensures
        r.strat@ == joined(views(strat_args@)),
        r.host@ == host@,
        r.tcp_443 == verdict.curl_ok,
        r.tls_handshake == verdict.http_200,
        r.cert_chain_valid == verdict.http_200,
        r.http_200 == verdict.http_200,
        r.ms == ms,
        opt_text(r.error) == opt_text(verdict.error),
{
    ProbeResult {
        strat: strategy_file_text(strat_args),
        host: lit(host),
        tcp_443: verdict.curl_ok,
        tls_handshake: verdict.http_200,
        cert_chain_valid: verdict.http_200,
        http_200: verdict.http_200,
        ms,
        error: verdict.error,
    }
}

/// The probe table named by one line of `nft list tables`, if any, as its
/// family and name: the line, trimmed, is `table inet <name>` or
/// `table ip <name>` and the name starts with the probe prefix.
pub open spec fn probe_table_of(line: Seq<char>) -> Option<(Seq<char>, Seq<char>)> {
    let t = trim(line);
    let inet = "table inet "@;
    let ip = "table ip "@;
    if starts_with(t, inet) && starts_with(t.skip(inet.len() as int), probe_prefix()) {
        Some(("inet"@, t.skip(inet.len() as int)))
    } else if !starts_with(t, inet) && starts_with(t, ip) && starts_with(t.skip(ip.len() as int), probe_prefix()) {
        Some(("ip"@, t.skip(ip.len() as int)))
    } else {
        None
    }
}

/// The probe tables in a listing, in order, each as (family, name).
pub open spec fn probe_tables_in(ls: Seq<Seq<char>>) -> Seq<(Seq<char>, Seq<char>)>
    decreases ls.len(),
{
    if ls.len() == 0 {
        seq![]
    } else {
        probe_tables_in(ls.drop_last()) + match probe_table_of(ls.last()) {
            Some(n) => seq![n],
            None => seq![],
        }
    }
}

fn probe_table_of_exec(line: &Vec<char>) -> (r: Option<(Vec<char>, Vec<char>)>)
    ensures
        match r {
            Some(n) => probe_table_of(line@) == Some((n.0@, n.1@)),
            None => probe_table_of(line@) is None,
        },
{
    proof {
        reveal_strlit("table inet ");
        reveal_strlit("table ip ");
        reveal_strlit("unblocker_probe_");
        reveal_strlit("inet");
        reveal_strlit("ip");
    }
    let t = trim_chars(line.as_slice());
    let inet = chars_of("table inet ");
    let ip = chars_of("table ip ");
    let prefix = chars_of(PROBE_TABLE_PREFIX);
    if starts_with_chars(t.as_slice(), inet.as_slice()) {
        let rest = crate::text::slice_of(t.as_slice(), inet.len(), t.len());
        assert(rest@ == t@.skip(inet@.len() as int));
        if starts_with_chars(rest.as_slice(), prefix.as_slice()) {
            Some((chars_of("inet"), rest))
        } else {
            None
        }
    } else if starts_with_chars(t.as_slice(), ip.as_slice()) {
        let rest = crate::text::slice_of(t.as_slice(), ip.len(), t.len());
        assert(rest@ == t@.skip(ip@.len() as int));
        if starts_with_chars(rest.as_slice(), prefix.as_slice()) {
            Some((chars_of("ip"), rest))
        } else {
            None
        }
    } else {
        None
    }
}

/// The probe tables left in the output of `nft list tables`, each as its
/// family and name; each is then deleted in its own family
/// (`table_delete_args`), along with the main table.
pub fn probe_tables_to_delete(listing: &str) -> (r: Vec<(String, String)>)
    ensures
        pair_views(r@) == probe_tables_in(lines(listing@)),
{
    let v = chars_of(listing);
    let ls = lines_chars(v.as_slice());
    let ghost lv = cviews(ls@);
    let mut out: Vec<(String, String)> = Vec::new();
    let mut i: usize = 0;
    while i < ls.len()
        invariant
            i <= ls.len(),
            lv == cviews(ls@),
            lv == lines(listing@),
            pair_views(out@) == probe_tables_in(lv.take(i as int)),
        decreases ls.len() - i,
    {
        assert(lv.take(i + 1).drop_last() == lv.take(i as int));
        assert(lv.take(i + 1).last() == ls@[i as int]@);
        match probe_table_of_exec(&ls[i]) {
            Some(n) => {
                let ghost before = out@;
                out.push((string_of(n.0.as_slice()), string_of(n.1.as_slice())));
                assert(pair_views(out@) == pair_views(before).push((n.0@, n.1@)));
            },
            None => {
                assert(pair_views(out@) =~= probe_tables_in(lv.take(i + 1)));
            },
        }
        i = i + 1;
    }
    assert(lv.take(ls.len() as int) == lv);
    out
}

/// `nft delete table <family> <name>`.
pub fn table_delete_args(family: &str, name: &str) -> (r: Vec<String>)
    ensures
        views(r@) == seq!["delete"@, "table"@, family@, name@],
{
    let r = vec![lit("delete"), lit("table"), lit(family), lit(name)];
    assert(views(r@) =~= seq!["delete"@, "table"@, family@, name@]);
    r
}

/// A strategy file read for a probe: its whitespace-separated words (an
/// empty file is skipped).
pub fn strategy_file_words(content: &str) -> (r: Vec<String>)
    ensures
        views(r@) == split_ws(content@),
{
    let v = chars_of(content);
    let w = split_ws_chars(v.as_slice());
    let r = strings_of(&w);
    r
}

/// curl's arguments for checking a candidate address: the host pinned to
/// `ip` with `--resolve`, certificate errors ignored.
pub open spec fn scan_curl_text(host: Seq<char>, ip: Seq<char>, url: Seq<char>) -> Seq<Seq<char>> {
    seq!["--max-time"@, "5"@, "-4"@, "-sk"@, "-o"@, "/dev/null"@, "-w"@, "%{http_code}"@, "--resolve"@,
        host + ":443:"@ + ip, url]
}

pub fn scan_curl_args(host: &str, ip: &str, test_url: &str) -> (r: Vec<String>)
    ensures
        views(r@) == scan_curl_text(host@, ip@, test_url@),
{
    let mut pin = chars_of(host);
    let m = chars_of(":443:");
    extend(&mut pin, m.as_slice());
    let a = chars_of(ip);
    extend(&mut pin, a.as_slice());
    let r = vec![lit("--max-time"), lit("5"), lit("-4"), lit("-sk"), lit("-o"), lit("/dev/null"), lit("-w"),
        lit("%{http_code}"), lit("--resolve"), string_of(pin.as_slice()), lit(test_url)];
    assert(views(r@) =~= scan_curl_text(host@, ip@, test_url@));
    r
}

/// A candidate address is clean when curl succeeded and printed a status
/// starting with `200`.
pub fn scan_confirms(success: bool, stdout: &[u8]) -> (r: bool)
    ensures
        r == (success && stdout@.len() >= 3 && stdout@[0] == 50u8 && stdout@[1] == 48u8 && stdout@[2] == 48u8),
{
    success && stdout.len() >= 3 && stdout[0] == 50u8 && stdout[1] == 48u8 && stdout[2] == 48u8
}

} // verus!
