//! The decisions of the Linux bypass driver, as state machines: the driver
//! reports how each step went and is told what to do next. Bringing the
//! bypass up starts nfqws, then queues traffic to it, then pins hosts and
//! starts the Telegram proxy; taking it down stops everything and cleans
//! the system.
use vstd::prelude::*;
use crate::text::{chars_of, string_of, extend, parse_uint, parse_uint_chars};
use crate::config::{join_text, path_join};
use crate::bypass::lit;

verus! {

/// The desktop user whose traffic is redirected: `$PKEXEC_UID` when it is
/// set, else `$SUDO_UID`; when the chosen one is not a number, 1000.
pub open spec fn target_uid_of(pkexec: Option<Seq<char>>, sudo: Option<Seq<char>>) -> u32 {
    let chosen = match pkexec {
        Some(p) => Some(p),
        None => sudo,
    };
    match chosen {
        Some(s) => match parse_uint(s, u32::MAX as nat) {
            Some(n) => n as u32,
            None => 1000,
        },
        None => 1000,
    }
}

pub fn target_uid(pkexec: Option<&str>, sudo: Option<&str>) -> (r: u32)
    ensures
        r == target_uid_of(crate::api::opt_str(pkexec), crate::api::opt_str(sudo)),
{
    let chosen = match pkexec {
        Some(p) => Some(p),
        None => sudo,
    };
    match chosen {
        Some(s) => {
            let v = chars_of(s);
            match parse_uint_chars(v.as_slice(), u32::MAX as u64) {
                Some(n) => n as u32,
                None => 1000,
            }
        },
        None => 1000,
    }
}

/// Where the source tree would be: two levels above the crate's manifest
/// directory (the caller resolves it on disk).
pub fn project_root_candidate(manifest_dir: &str) -> (r: String)
    ensures
        r@ == join_text(join_text(manifest_dir@, ".."@), ".."@),
{
    let up = path_join(manifest_dir, "..");
    path_join(up.as_str(), "..")
}

/// The source tree: the resolved candidate, else the current directory.
pub fn project_root(resolved: Option<String>) -> (r: String)
    ensures
        r@ == match resolved {
            Some(p) => p@,
            None => "."@,
        },
{
    match resolved {
        Some(p) => p,
        None => lit("."),
    }
}

/// How the last step went: success (for the liveness check: nfqws was
/// found running), or failure with the error's text.
pub struct StepOutcome {
    pub ok: bool,
    pub error: String,
}

/// Where bringing the bypass up stands: the step whose outcome comes next.
#[derive(Clone, Copy, Debug, PartialEq, Eq, Structural)]
pub enum EnablePhase {
    /// Stale nft tables of earlier runs (main, Telegram, probe) are removed.
    Flushing,
    /// nfqws is looked for.
    Locating,
    /// nfqws is started with the strategy for the user.
    Spawning,
    /// After a pause, is nfqws running?
    Checking,
    /// The queue rules are installed.
    Routing,
    /// Host overrides are merged and applied, and the state file written.
    Pinning,
    /// The Telegram proxy is started.
    StartingTelegram,
    /// Telegram's plain-HTTP traffic is redirected to it.
    RedirectingTelegram,
    /// Finished, one way or the other.
    Done,
}

/// What the driver does next.
pub enum EnableAction {
    FlushStaleTables,
    FindEngine,
    SpawnEngine { uid: u32 },
    CheckEngine,
    InstallQueueRules { uid: u32, queue: u16 },
    ApplyHosts,
    StartTelegram,
    RedirectTelegram { port: u16 },
    /// The bypass is up: keep the engine and the proxy.
    Finish,
    /// Give up with `error`, after killing the engine and removing the nft
    /// tables where asked.
    Abort { kill_engine: bool, flush_tables: bool, error: String },
}

pub struct EnableMachine {
    pub phase: EnablePhase,
    pub uid: u32,
    pub tg_port: u16,
    /// Whether the build holds the Telegram proxy; without it the Telegram
    /// steps are left out.
    pub telegram: bool,
}

/// The machine's first action; `uid` and `tg_port` come from `target_uid`
/// and `api::tg_port`; `telegram` says whether the build holds the proxy.
pub fn enable_start(uid: u32, tg_port: u16, telegram: bool) -> (r: (EnableMachine, EnableAction))
    ensures
        r.0.phase == EnablePhase::Flushing,
        r.0.uid == uid,
        r.0.tg_port == tg_port,
        r.0.telegram == telegram,
        r.1 is FlushStaleTables,
{
    (EnableMachine { phase: EnablePhase::Flushing, uid, tg_port, telegram }, EnableAction::FlushStaleTables)
}

/// The next phase after an outcome in `phase` (`telegram`: whether the
/// build holds the Telegram proxy).
pub open spec fn enable_next(phase: EnablePhase, telegram: bool, ok: bool) -> EnablePhase {
    match phase {
        EnablePhase::Flushing => EnablePhase::Locating,
        EnablePhase::Locating => if ok { EnablePhase::Spawning } else { EnablePhase::Done },
        EnablePhase::Spawning => if ok { EnablePhase::Checking } else { EnablePhase::Done },
        EnablePhase::Checking => if ok { EnablePhase::Routing } else { EnablePhase::Done },
        EnablePhase::Routing => if ok { EnablePhase::Pinning } else { EnablePhase::Done },
        EnablePhase::Pinning => if telegram { EnablePhase::StartingTelegram } else { EnablePhase::Done },
        EnablePhase::StartingTelegram => if ok { EnablePhase::RedirectingTelegram } else { EnablePhase::Done },
        EnablePhase::RedirectingTelegram => EnablePhase::Done,
        EnablePhase::Done => EnablePhase::Done,
    }
}

/// The action that follows an outcome in `phase`, as a view: its kind and,
/// for an abort, whether it kills and flushes and its error text.
pub enum ActionView {
    FlushStaleTables,
    FindEngine,
    SpawnEngine(u32),
    CheckEngine,
    InstallQueueRules(u32, u16),
    ApplyHosts,
    StartTelegram,
    RedirectTelegram(u16),
    Finish,
    Abort(bool, bool, Seq<char>),
}

pub open spec fn action_view(a: EnableAction) -> ActionView {
    match a {
        EnableAction::FlushStaleTables => ActionView::FlushStaleTables,
        EnableAction::FindEngine => ActionView::FindEngine,
        EnableAction::SpawnEngine { uid } => ActionView::SpawnEngine(uid),
        EnableAction::CheckEngine => ActionView::CheckEngine,
        EnableAction::InstallQueueRules { uid, queue } => ActionView::InstallQueueRules(uid, queue),
        EnableAction::ApplyHosts => ActionView::ApplyHosts,
        EnableAction::StartTelegram => ActionView::StartTelegram,
        EnableAction::RedirectTelegram { port } => ActionView::RedirectTelegram(port),
        EnableAction::Finish => ActionView::Finish,
        EnableAction::Abort { kill_engine, flush_tables, error } => ActionView::Abort(kill_engine, flush_tables, error@),
    }
}

/// What follows an outcome: a failure to find or start nfqws aborts (after
/// a start failure the tables are flushed); nfqws not running after the
/// pause aborts with the tables flushed; a failure to install the queue
/// rules kills nfqws and flushes the tables; a failure of the Telegram
/// proxy aborts as it is. Failures to pin hosts or to redirect Telegram
/// are not fatal. A build without the Telegram proxy finishes once the
/// hosts are pinned.
pub open spec fn enable_action(m: EnableMachine, ok: bool, error: Seq<char>) -> ActionView {
    match m.phase {
        EnablePhase::Flushing => ActionView::FindEngine,
        EnablePhase::Locating => if ok { ActionView::SpawnEngine(m.uid) } else { ActionView::Abort(false, false, error) },
        EnablePhase::Spawning => if ok { ActionView::CheckEngine } else { ActionView::Abort(false, true, error) },
        EnablePhase::Checking => if ok {
            ActionView::InstallQueueRules(m.uid, 200)
        } else {
            ActionView::Abort(false, true, "nfqws daemon not found after spawn"@)
        },
        EnablePhase::Routing => if ok {
            ActionView::ApplyHosts
        } else {
            ActionView::Abort(true, true, "nft_install: "@ + error)
        },
        EnablePhase::Pinning => if m.telegram { ActionView::StartTelegram } else { ActionView::Finish },
        EnablePhase::StartingTelegram => if ok {
            ActionView::RedirectTelegram(m.tg_port)
        } else {
            ActionView::Abort(false, false, error)
        },
        EnablePhase::RedirectingTelegram => ActionView::Finish,
        EnablePhase::Done => ActionView::Finish,
    }
}

fn prefixed(prefix: &str, msg: &String) -> (r: String)
    ensures
        r@ == prefix@ + msg@,
{
    let mut v = chars_of(prefix);
    let m = chars_of(msg.as_str());
    extend(&mut v, m.as_slice());
    string_of(v.as_slice())
}

pub fn enable_step(m: &mut EnableMachine, outcome: StepOutcome) -> (r: EnableAction)
    ensures
        final(m).phase == enable_next(old(m).phase, old(m).telegram, outcome.ok),
        final(m).uid == old(m).uid,
        final(m).tg_port == old(m).tg_port,
        final(m).telegram == old(m).telegram,
        action_view(r) == enable_action(*old(m), outcome.ok, outcome.error@),
{
    let ok = outcome.ok;
    match m.phase {
        EnablePhase::Flushing => {
            m.phase = EnablePhase::Locating;
            EnableAction::FindEngine
        },
        EnablePhase::Locating => {
            if ok {
                m.phase = EnablePhase::Spawning;
                EnableAction::SpawnEngine { uid: m.uid }
            } else {
                m.phase = EnablePhase::Done;
                EnableAction::Abort { kill_engine: false, flush_tables: false, error: outcome.error }
            }
        },
        EnablePhase::Spawning => {
            if ok {
                m.phase = EnablePhase::Checking;
                EnableAction::CheckEngine
            } else {
                m.phase = EnablePhase::Done;
                EnableAction::Abort { kill_engine: false, flush_tables: true, error: outcome.error }
            }
        },
        EnablePhase::Checking => {
            if ok {
                m.phase = EnablePhase::Routing;
                EnableAction::InstallQueueRules { uid: m.uid, queue: 200 }
            } else {
                m.phase = EnablePhase::Done;
                EnableAction::Abort {
                    kill_engine: false,
                    flush_tables: true,
                    error: lit("nfqws daemon not found after spawn"),
                }
            }
        },
        EnablePhase::Routing => {
            if ok {
                m.phase = EnablePhase::Pinning;
                EnableAction::ApplyHosts
            } else {
                m.phase = EnablePhase::Done;
                EnableAction::Abort { kill_engine: true, flush_tables: true, error: prefixed("nft_install: ", &outcome.error) }
            }
        },
        EnablePhase::Pinning => {
            if m.telegram {
                m.phase = EnablePhase::StartingTelegram;
                EnableAction::StartTelegram
            } else {
                m.phase = EnablePhase::Done;
                EnableAction::Finish
            }
        },
        EnablePhase::StartingTelegram => {
            if ok {
                m.phase = EnablePhase::RedirectingTelegram;
                EnableAction::RedirectTelegram { port: m.tg_port }
            } else {
                m.phase = EnablePhase::Done;
                EnableAction::Abort { kill_engine: false, flush_tables: false, error: outcome.error }
            }
        },
        EnablePhase::RedirectingTelegram => {
            m.phase = EnablePhase::Done;
            EnableAction::Finish
        },
        EnablePhase::Done => EnableAction::Finish,
    }
}

/// Traffic is queued to nfqws only once nfqws was seen running: the only
/// step that installs the queue rules is a successful liveness check.
pub proof fn lemma_rules_only_after_engine_alive(m: EnableMachine, ok: bool, error: Seq<char>)
    ensures
        enable_action(m, ok, error) is InstallQueueRules ==> m.phase == EnablePhase::Checking && ok,
{
}

/// Once nfqws was started, every failure of the engine or of its rules
/// removes the nft tables, and a failure to install the rules also kills
/// nfqws: no rule is left queueing traffic to a queue nobody reads.
pub proof fn lemma_engine_failures_clean_up(m: EnableMachine, error: Seq<char>)
    requires
        m.phase == EnablePhase::Spawning || m.phase == EnablePhase::Checking || m.phase == EnablePhase::Routing,
    ensures
        enable_action(m, false, error) matches ActionView::Abort(kill, flush, _) && flush,
        m.phase == EnablePhase::Routing ==> (enable_action(m, false, error) matches ActionView::Abort(kill, _, _) && kill),
{
}

/// The phases in order: a run that succeeds at every step goes through
/// each of them once and finishes.
pub open spec fn enable_run(phase: EnablePhase, telegram: bool, steps: nat) -> EnablePhase
    decreases steps,
{
    if steps == 0 {
        phase
    } else {
        enable_run(enable_next(phase, telegram, true), telegram, (steps - 1) as nat)
    }
}

/// Eight successful steps take the machine from the start to the end
/// (six in a build without the Telegram proxy).
pub proof fn lemma_enable_happy_path()
    ensures
        enable_run(EnablePhase::Flushing, true, 8) == EnablePhase::Done,
        forall|k: nat| k < 8 ==> enable_run(EnablePhase::Flushing, true, k) != EnablePhase::Done,
        enable_run(EnablePhase::Flushing, false, 6) == EnablePhase::Done,
        forall|k: nat| k < 6 ==> enable_run(EnablePhase::Flushing, false, k) != EnablePhase::Done,
{
    reveal_with_fuel(enable_run, 9);
    assert forall|k: nat| k < 8 implies enable_run(EnablePhase::Flushing, true, k) != EnablePhase::Done by {
        reveal_with_fuel(enable_run, 9);
    }
    assert forall|k: nat| k < 6 implies enable_run(EnablePhase::Flushing, false, k) != EnablePhase::Done by {
        reveal_with_fuel(enable_run, 9);
    }
}

// ---------------------------------------------------------------------------
// Taking the bypass down
// ---------------------------------------------------------------------------

/// Where taking the bypass down stands.
#[derive(Clone, Copy, Debug, PartialEq, Eq, Structural)]
pub enum DisablePhase {
    /// The Telegram proxy (if running) is cancelled.
    StoppingTelegram,
    /// The started nfqws (if any) is root-killed, then killed and reaped.
    StoppingEngine,
    /// Is any nfqws still running?
    CheckingSurvivors,
    /// Survivors are root-killed.
    KillingSurvivors,
    /// Is the system service active?
    CheckingService,
    /// The service is stopped; it is polled until it is no longer active,
    /// at most 20 times (`polls` so far).
    StoppingService { polls: u8 },
    /// No service: nfqws is killed and the nft tables removed directly.
    DirectCleanup,
    /// Proxy, hosts, state, the nat OUTPUT chain and the nft tables are
    /// cleaned on every path on which each service poll could run.
    FinalCleanup,
    Done,
}

pub enum DisableAction {
    StopTelegram,
    StopEngine,
    CheckSurvivors,
    /// `pkexec pkill -9 -x nfqws`.
    RootKillEngines,
    CheckService,
    /// `systemctl stop unblocker.service`, then a poll after a pause.
    StopService,
    /// Pause, then poll `systemctl is-active` again.
    PollService,
    /// `pkill -9 -x nfqws`, remove the queue table, flush our tables and
    /// the probe tables.
    DirectCleanup,
    /// Desktop proxy off, hosts block removed, state file removed, nat
    /// OUTPUT flushed, nft tables flushed.
    FinalCleanup,
    Finish,
    /// A `systemctl is-active` poll could not run: the teardown ends with
    /// that error, before the final cleanup.
    Abort,
}

/// What the driver held when asked to stop.
pub fn disable_start(tg_running: bool, engine_started: bool) -> (r: (DisablePhase, DisableAction))
    ensures
        tg_running ==> r.0 == DisablePhase::StoppingTelegram && r.1 is StopTelegram,
        !tg_running && engine_started ==> r.0 == DisablePhase::StoppingEngine && r.1 is StopEngine,
        !tg_running && !engine_started ==> r.0 == DisablePhase::CheckingSurvivors && r.1 is CheckSurvivors,
{
    if tg_running {
        (DisablePhase::StoppingTelegram, DisableAction::StopTelegram)
    } else if engine_started {
        (DisablePhase::StoppingEngine, DisableAction::StopEngine)
    } else {
        (DisablePhase::CheckingSurvivors, DisableAction::CheckSurvivors)
    }
}

pub enum DisableView {
    StopTelegram,
    StopEngine,
    CheckSurvivors,
    RootKillEngines,
    CheckService,
    StopService,
    PollService,
    DirectCleanup,
    FinalCleanup,
    Finish,
    Abort,
}

pub open spec fn disable_view(a: DisableAction) -> DisableView {
    match a {
        DisableAction::StopTelegram => DisableView::StopTelegram,
        DisableAction::StopEngine => DisableView::StopEngine,
        DisableAction::CheckSurvivors => DisableView::CheckSurvivors,
        DisableAction::RootKillEngines => DisableView::RootKillEngines,
        DisableAction::CheckService => DisableView::CheckService,
        DisableAction::StopService => DisableView::StopService,
        DisableAction::PollService => DisableView::PollService,
        DisableAction::DirectCleanup => DisableView::DirectCleanup,
        DisableAction::FinalCleanup => DisableView::FinalCleanup,
        DisableAction::Finish => DisableView::Finish,
        DisableAction::Abort => DisableView::Abort,
    }
}

/// The step after a report in `phase`. `flag` is what was found:
/// after stopping Telegram, whether an engine was started; a survivor
/// running; the service active. Other steps ignore it.
pub open spec fn disable_next(phase: DisablePhase, flag: bool) -> (DisablePhase, DisableView) {
    match phase {
        DisablePhase::StoppingTelegram => if flag {
            (DisablePhase::StoppingEngine, DisableView::StopEngine)
        } else {
            (DisablePhase::CheckingSurvivors, DisableView::CheckSurvivors)
        },
        DisablePhase::StoppingEngine => (DisablePhase::CheckingSurvivors, DisableView::CheckSurvivors),
        DisablePhase::CheckingSurvivors => if flag {
            (DisablePhase::KillingSurvivors, DisableView::RootKillEngines)
        } else {
            (DisablePhase::CheckingService, DisableView::CheckService)
        },
        DisablePhase::KillingSurvivors => (DisablePhase::CheckingService, DisableView::CheckService),
        DisablePhase::CheckingService => if flag {
            (DisablePhase::StoppingService { polls: 0 }, DisableView::StopService)
        } else {
            (DisablePhase::DirectCleanup, DisableView::DirectCleanup)
        },
        DisablePhase::StoppingService { polls } => if flag && polls + 1 < 20 {
            (DisablePhase::StoppingService { polls: (polls + 1) as u8 }, DisableView::PollService)
        } else {
            (DisablePhase::FinalCleanup, DisableView::FinalCleanup)
        },
        DisablePhase::DirectCleanup => (DisablePhase::FinalCleanup, DisableView::FinalCleanup),
        DisablePhase::FinalCleanup => (DisablePhase::Done, DisableView::Finish),
        DisablePhase::Done => (DisablePhase::Done, DisableView::Finish),
    }
}

/// Advances the teardown. While the service is being stopped, `flag` says
/// it still reports active.
pub fn disable_step(phase: DisablePhase, flag: bool) -> (r: (DisablePhase, DisableAction))
    ensures
        (r.0, disable_view(r.1)) == disable_next(phase, flag),
{
    match phase {
        DisablePhase::StoppingTelegram => if flag {
            (DisablePhase::StoppingEngine, DisableAction::StopEngine)
        } else {
            (DisablePhase::CheckingSurvivors, DisableAction::CheckSurvivors)
        },
        DisablePhase::StoppingEngine => (DisablePhase::CheckingSurvivors, DisableAction::CheckSurvivors),
        DisablePhase::CheckingSurvivors => if flag {
            (DisablePhase::KillingSurvivors, DisableAction::RootKillEngines)
        } else {
            (DisablePhase::CheckingService, DisableAction::CheckService)
        },
        DisablePhase::KillingSurvivors => (DisablePhase::CheckingService, DisableAction::CheckService),
        DisablePhase::CheckingService => if flag {
            (DisablePhase::StoppingService { polls: 0 }, DisableAction::StopService)
        } else {
            (DisablePhase::DirectCleanup, DisableAction::DirectCleanup)
        },
        DisablePhase::StoppingService { polls } => if flag && polls < 19 {
            (DisablePhase::StoppingService { polls: polls + 1 }, DisableAction::PollService)
        } else {
            (DisablePhase::FinalCleanup, DisableAction::FinalCleanup)
        },
        DisablePhase::DirectCleanup => (DisablePhase::FinalCleanup, DisableAction::FinalCleanup),
        DisablePhase::FinalCleanup => (DisablePhase::Done, DisableAction::Finish),
        DisablePhase::Done => (DisablePhase::Done, DisableAction::Finish),
    }
}

/// While the service is being stopped, a `systemctl is-active` poll that
/// could not run ends the teardown: its error is returned and the final
/// cleanup is skipped.
pub fn disable_poll_failed(phase: DisablePhase) -> (r: (DisablePhase, DisableAction))
    requires
        phase is StoppingService,
    ensures
        r.0 == DisablePhase::Done,
        r.1 is Abort,
{
    (DisablePhase::Done, DisableAction::Abort)
}

/// The number of steps a phase is from the end, at most: every report
/// brings the teardown closer to `Done`, so it ends whatever is
/// found (the service is polled at most 20 times).
pub open spec fn steps_left(phase: DisablePhase) -> nat {
    match phase {
        DisablePhase::StoppingTelegram => 30,
        DisablePhase::StoppingEngine => 29,
        DisablePhase::CheckingSurvivors => 28,
        DisablePhase::KillingSurvivors => 27,
        DisablePhase::CheckingService => 26,
        DisablePhase::StoppingService { polls } => if polls < 20 { (22 - polls) as nat } else { 2 },
        DisablePhase::DirectCleanup => 2,
        DisablePhase::FinalCleanup => 1,
        DisablePhase::Done => 0,
    }
}

/// Each step of the teardown moves it closer to the end, and the final
/// cleanup comes on every path on which the service polls run (a poll that
/// cannot run ends it at once, `disable_poll_failed`).
pub proof fn lemma_disable_terminates(phase: DisablePhase, flag: bool)
    requires
        phase != DisablePhase::Done,
        phase matches DisablePhase::StoppingService { polls } ==> polls < 20,
    ensures
        steps_left(disable_next(phase, flag).0) < steps_left(phase),
        disable_next(phase, flag).0 matches DisablePhase::StoppingService { polls } ==> polls < 20,
        disable_next(phase, flag).0 == DisablePhase::Done ==> phase == DisablePhase::FinalCleanup,
{
}

} // verus!
