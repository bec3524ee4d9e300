//! Running nft and starting nfqws with the privileges they need: plainly
//! first, then through pkexec or passwordless sudo. The caller runs each
//! attempt and reports how it went.
use vstd::prelude::*;
use crate::text::{chars_of, string_of, extend, views, trim, trim_chars, dec, dec_chars};
use crate::bypass::lit;
use crate::zapret::{permission_error, nft_permission_error, first_existing, pick_existing, nfqws_candidates,
    nfqws_candidates_text, strategy_args, strategy_words};
use crate::zapret::probe::{quoted_list, nft_failure_message, nft_failure_text};
use crate::text::lines;

verus! {

/// Where the engine binary is: the first candidate that exists, or the
/// error telling the user to reinstall.
pub fn find_nfqws(exe_dir: Option<&str>, workspace_root: &str, exists: &[bool]) -> (r: Result<String, String>)
    ensures
        match r {
            Ok(p) => exists_at(exists@, nfqws_candidates_text(crate::api::opt_str(exe_dir), workspace_root@).len())
                && p@ == first_existing(nfqws_candidates_text(crate::api::opt_str(exe_dir), workspace_root@), exists@, seq![]),
            Err(e) => !exists_at(exists@, nfqws_candidates_text(crate::api::opt_str(exe_dir), workspace_root@).len())
                && e@ == "nfqws not found. Reinstall the package or run scripts/unblocker-install.sh."@,
        },
{
    let c = nfqws_candidates(exe_dir, workspace_root);
    let ghost cv = views(c@);
    let n = if c.len() < exists.len() { c.len() } else { exists.len() };
    let mut i: usize = 0;
    assert(cv.skip(0) == cv);
    assert(exists@.skip(0) == exists@);
    assert(cv == nfqws_candidates_text(crate::api::opt_str(exe_dir), workspace_root@));
    while i < n
        invariant
            i <= n,
            n <= c.len(),
            cv == nfqws_candidates_text(crate::api::opt_str(exe_dir), workspace_root@),
            n <= exists.len(),
            n == (if c.len() < exists.len() { c.len() } else { exists.len() }),
            cv == views(c@),
            forall|k: int| 0 <= k < i ==> !exists@[k],
            first_existing(cv.skip(i as int), exists@.skip(i as int), seq![]) == first_existing(cv, exists@, seq![]),
        decreases n - i,
    {
        assert(cv.skip(i as int)[0] == c@[i as int]@);
        assert(exists@.skip(i as int)[0] == exists@[i as int]);
        if exists[i] {
            assert(cv.len() == c@.len());
            assert(exists_at(exists@, cv.len()));
            return Ok(c[i].clone());
        }
        assert(cv.skip(i as int).drop_first() == cv.skip(i + 1));
        assert(exists@.skip(i as int).drop_first() == exists@.skip(i + 1));
        i = i + 1;
    }
    assert(!exists_at(exists@, cv.len()));
    Err(lit("nfqws not found. Reinstall the package or run scripts/unblocker-install.sh."))
}

/// Some candidate among the first `n` exists.
pub open spec fn exists_at(exists: Seq<bool>, n: nat) -> bool {
    exists|k: int| 0 <= k < n && k < exists.len() && exists[k]
}

/// A strategy file read for the engine (`content` is `None` when it
/// could not be read): its argv words, or the error naming the file.
pub fn load_strategy_file(path: &str, content: Option<&str>) -> (r: Result<Vec<String>, String>)
    ensures
        match content {
            Some(c) => r matches Ok(v) && views(v@) == strategy_words(lines(c@)),
            None => r matches Err(e) && e@ == "read strategy file: "@ + path@,
        },
{
    match content {
        Some(c) => Ok(strategy_args(c)),
        None => {
            let mut v = chars_of("read strategy file: ");
            let p = chars_of(path);
            extend(&mut v, p.as_slice());
            Err(string_of(v.as_slice()))
        },
    }
}

/// The log that the engine's stderr goes to, per process.
pub fn runtime_log_path(pid: u32) -> (r: String)
    ensures
        r@ == "/tmp/unblocker-runtime-nfqws-"@ + dec(pid as nat) + ".log"@,
{
    let mut v = chars_of("/tmp/unblocker-runtime-nfqws-");
    let d = dec_chars(pid as u64);
    extend(&mut v, d.as_slice());
    let e = chars_of(".log");
    extend(&mut v, e.as_slice());
    string_of(v.as_slice())
}

/// pkexec's arguments for running the engine as root: the binary, the
/// queue, then the strategy.
pub fn pkexec_engine_args(bin: &str, args: &[String]) -> (r: Vec<String>)
    ensures
        views(r@) == seq![bin@, "--qnum"@, "200"@] + views(args@),
{
    let mut v = vec![lit(bin), lit("--qnum"), lit("200")];
    let ghost head = views(v@);
    assert(head =~= seq![bin@, "--qnum"@, "200"@]);
    let mut i: usize = 0;
    while i < args.len()
        invariant
            i <= args.len(),
            views(v@) == head + views(args@).take(i as int),
        decreases args.len() - i,
    {
        let ghost before = v@;
        v.push(args[i].clone());
        assert(views(v@) == views(before).push(args@[i as int]@));
        assert(views(args@).take(i + 1) == views(args@).take(i as int).push(args@[i as int]@));
        i = i + 1;
    }
    assert(views(args@).take(args.len() as int) == views(args@));
    v
}

/// What follows the plain start of the engine: keep it when it started
/// and is running after a pause; otherwise kill the started process (if
/// any), flush the nft tables and start it again through pkexec.
pub struct SpawnFallback {
    pub keep: bool,
    pub kill_started: bool,
    pub flush_and_escalate: bool,
}

pub fn after_direct_spawn(started: bool, running: bool) -> (r: SpawnFallback)
    ensures
        r.keep == (started && running),
        r.kill_started == (started && !running),
        r.flush_and_escalate == !(started && running),
{
    if started && running {
        SpawnFallback { keep: true, kill_started: false, flush_and_escalate: false }
    } else {
        SpawnFallback { keep: false, kill_started: started, flush_and_escalate: true }
    }
}

/// How one attempt at running nft went: `ran` is false when the command
/// could not be started at all.
pub struct Attempt {
    pub ran: bool,
    pub success: bool,
    pub stderr: String,
}

/// The attempt under way.
#[derive(Clone, Copy, Debug, PartialEq, Eq, Structural)]
pub enum NftStage {
    Direct,
    Pkexec,
    Sudo,
    DirectAgain,
}

/// What to do next: run an attempt (`program` and its arguments), or stop
/// with the outcome.
pub enum NftNext {
    Run { stage: NftStage, program: String, args: Vec<String> },
    Succeeded,
    Failed { message: String },
}

pub enum NftNextView {
    Run(NftStage, Seq<char>, Seq<Seq<char>>),
    Succeeded,
    Failed(Seq<char>),
}

pub open spec fn nft_next_view(n: NftNext) -> NftNextView {
    match n {
        NftNext::Run { stage, program, args } => NftNextView::Run(stage, program@, views(args@)),
        NftNext::Succeeded => NftNextView::Succeeded,
        NftNext::Failed { message } => NftNextView::Failed(message@),
    }
}

pub open spec fn run_of(stage: NftStage, args: Seq<Seq<char>>) -> NftNextView {
    match stage {
        NftStage::Direct => NftNextView::Run(stage, "nft"@, args),
        NftStage::Pkexec => NftNextView::Run(stage, "pkexec"@, seq!["nft"@] + args),
        NftStage::Sudo => NftNextView::Run(stage, "sudo"@, seq!["-n"@, "nft"@] + args),
        NftStage::DirectAgain => NftNextView::Run(stage, "nft"@, args),
    }
}

/// The escalation of one nft invocation: plainly; a failure that is not
/// about permissions ends it; then pkexec when installed, then `sudo -n`
/// (whose failure ends it); if sudo cannot even be started, plainly once
/// more for the error message.
pub open spec fn nft_after(stage: NftStage, args: Seq<Seq<char>>, pkexec: bool, ran: bool, success: bool, stderr: Seq<char>) -> NftNextView {
    match stage {
        NftStage::Direct => if ran && success {
            NftNextView::Succeeded
        } else if ran && !permission_error(stderr) {
            NftNextView::Failed(nft_failure_text(args, stderr))
        } else if pkexec {
            run_of(NftStage::Pkexec, args)
        } else {
            run_of(NftStage::Sudo, args)
        },
        NftStage::Pkexec => if ran && success {
            NftNextView::Succeeded
        } else {
            run_of(NftStage::Sudo, args)
        },
        NftStage::Sudo => if ran && success {
            NftNextView::Succeeded
        } else if ran {
            NftNextView::Failed("nft "@ + quoted_list(args) + " failed (even via pkexec/sudo): "@ + trim(stderr))
        } else {
            run_of(NftStage::DirectAgain, args)
        },
        NftStage::DirectAgain => if ran && success {
            NftNextView::Succeeded
        } else if ran {
            NftNextView::Failed(nft_failure_text(args, stderr))
        } else {
            NftNextView::Failed("running nft "@ + quoted_list(args))
        },
    }
}

fn copy_words(args: &[String]) -> (r: Vec<String>)
    ensures
        views(r@) == views(args@),
{
    let mut v: Vec<String> = Vec::new();
    let mut i: usize = 0;
    while i < args.len()
        invariant
            i <= args.len(),
            views(v@) == views(args@).take(i as int),
        decreases args.len() - i,
    {
        let ghost before = v@;
        v.push(args[i].clone());
        assert(views(v@) == views(before).push(args@[i as int]@));
        assert(views(args@).take(i + 1) == views(args@).take(i as int).push(args@[i as int]@));
        i = i + 1;
    }
    assert(views(args@).take(args.len() as int) == views(args@));
    v
}

fn with_head(head: Vec<String>, args: &[String]) -> (r: Vec<String>)
    ensures
        views(r@) == views(head@) + views(args@),
{
    let mut v = head;
    let ghost h = views(v@);
    let mut i: usize = 0;
    while i < args.len()
        invariant
            i <= args.len(),
            views(v@) == h + views(args@).take(i as int),
        decreases args.len() - i,
    {
        let ghost before = v@;
        v.push(args[i].clone());
        assert(views(v@) == views(before).push(args@[i as int]@));
        assert(views(args@).take(i + 1) == views(args@).take(i as int).push(args@[i as int]@));
        i = i + 1;
    }
    assert(views(args@).take(args.len() as int) == views(args@));
    v
}

fn run_next(stage: NftStage, args: &[String]) -> (r: NftNext)
    ensures
        nft_next_view(r) == run_of(stage, views(args@)),
{
    match stage {
        NftStage::Direct => NftNext::Run { stage, program: lit("nft"), args: copy_words(args) },
        NftStage::Pkexec => {
            let h = vec![lit("nft")];
            assert(views(h@) =~= seq!["nft"@]);
            NftNext::Run { stage, program: lit("pkexec"), args: with_head(h, args) }
        },
        NftStage::Sudo => {
            let h = vec![lit("-n"), lit("nft")];
            assert(views(h@) =~= seq!["-n"@, "nft"@]);
            NftNext::Run { stage, program: lit("sudo"), args: with_head(h, args) }
        },
        NftStage::DirectAgain => NftNext::Run { stage, program: lit("nft"), args: copy_words(args) },
    }
}

/// The first attempt of an nft invocation.
pub fn nft_first(args: &[String]) -> (r: NftNext)
    ensures
        nft_next_view(r) == run_of(NftStage::Direct, views(args@)),
{
    run_next(NftStage::Direct, args)
}

/// What follows an attempt in `stage` (`pkexec_available`: pkexec is
/// installed).
pub fn nft_step(stage: NftStage, args: &[String], pkexec_available: bool, attempt: &Attempt) -> (r: NftNext)
    ensures
        nft_next_view(r) == nft_after(stage, views(args@), pkexec_available, attempt.ran, attempt.success, attempt.stderr@),
{
    let ran = attempt.ran;
    let success = attempt.success;
    match stage {
        NftStage::Direct => {
            if ran && success {
                NftNext::Succeeded
            } else if ran && !nft_permission_error(attempt.stderr.as_str()) {
                NftNext::Failed { message: nft_failure_message(args, attempt.stderr.as_str()) }
            } else if pkexec_available {
                run_next(NftStage::Pkexec, args)
            } else {
                run_next(NftStage::Sudo, args)
            }
        },
        NftStage::Pkexec => {
            if ran && success {
                NftNext::Succeeded
            } else {
                run_next(NftStage::Sudo, args)
            }
        },
        NftStage::Sudo => {
            if ran && success {
                NftNext::Succeeded
            } else if ran {
                let base = nft_failure_message(args, "");
                let mut v = chars_of(base.as_str());
                proof {
                    reveal_strlit("");
                    reveal_strlit(" failed: ");
                    reveal_strlit(" failed (even via pkexec/sudo): ");
                    reveal_strlit("nft ");
                    assert(trim(""@) =~= seq![]);
                }
                let cut = v.len() - 9;
                let ghost lst = quoted_list(views(args@));
                assert(v@ == "nft "@ + lst + " failed: "@ + trim(""@));
                assert(v@.take(cut as int) =~= "nft "@ + lst);
                v.truncate(cut);
                let m = chars_of(" failed (even via pkexec/sudo): ");
                extend(&mut v, m.as_slice());
                let e = chars_of(attempt.stderr.as_str());
                let t = trim_chars(e.as_slice());
                extend(&mut v, t.as_slice());
                NftNext::Failed { message: string_of(v.as_slice()) }
            } else {
                run_next(NftStage::DirectAgain, args)
            }
        },
        NftStage::DirectAgain => {
            if ran && success {
                NftNext::Succeeded
            } else if ran {
                NftNext::Failed { message: nft_failure_message(args, attempt.stderr.as_str()) }
            } else {
                let base = nft_failure_message(args, "");
                let mut v = chars_of(base.as_str());
                proof {
                    reveal_strlit("");
                    reveal_strlit(" failed: ");
                    reveal_strlit("nft ");
                    reveal_strlit("running nft ");
                    assert(trim(""@) =~= seq![]);
                }
                let cut = v.len() - 9;
                let ghost lst = quoted_list(views(args@));
                assert(v@ == "nft "@ + lst + " failed: "@ + trim(""@));
                let tail = crate::text::slice_of(v.as_slice(), 4, cut);
                assert(tail@ =~= lst);
                let mut out = chars_of("running nft ");
                extend(&mut out, tail.as_slice());
                NftNext::Failed { message: string_of(out.as_slice()) }
            }
        },
    }
}

/// Escalation ends: each report moves the invocation to a later stage or
/// to its outcome, so at most four attempts are made.
pub proof fn lemma_nft_escalation_advances(stage: NftStage, args: Seq<Seq<char>>, pkexec: bool, ran: bool, success: bool, stderr: Seq<char>)
    ensures
        nft_after(stage, args, pkexec, ran, success, stderr) matches NftNextView::Run(next, _, _) ==> stage_rank(next)
            > stage_rank(stage),
        ran && success ==> nft_after(stage, args, pkexec, ran, success, stderr) is Succeeded,
{
}

pub open spec fn stage_rank(s: NftStage) -> int {
    match s {
        NftStage::Direct => 0,
        NftStage::Pkexec => 1,
        NftStage::Sudo => 2,
        NftStage::DirectAgain => 3,
    }
}

} // verus!
