//! The install-time discovery run as a machine: load the strategy pool,
//! pin the CDN and community addresses, then for each site try the
//! strategies, scan for a clean address or record the winner, and flush
//! the probe tables at the end.
use vstd::prelude::*;
use crate::daemon::{site_plan, SitePlan};
use crate::zapret::sites::SiteKind;

verus! {

/// What follows the strategy trial of a site: whether its ranges are
/// scanned for a clean address, and whether its winning strategy is
/// recorded in the site's file.
#[derive(Clone, Copy, Debug, PartialEq, Eq, Structural)]
pub struct SiteFollowUp {
    pub scan: bool,
    pub write_config: bool,
}

/// After the strategies of a site were tried (`winner`: one of them loaded
/// the site; never so when none was tried), the addresses are scanned only
/// when no strategy won and the site's plan scans; the site file is written
/// only for a winner.
pub fn install_site_step(plan: SitePlan, winner: bool) -> (r: SiteFollowUp)
    ensures
        r.scan == (plan.scan_addresses && !winner),
        r.write_config == winner,
{
    SiteFollowUp { scan: plan.scan_addresses && !winner, write_config: winner }
}

/// Where the run stands: the step whose outcome comes next.
#[derive(Clone, Copy, Debug, PartialEq, Eq, Structural)]
pub enum InstallPhase {
    LoadingPool,
    CdnHosts,
    Community,
    Skipping { site: usize },
    Trying { site: usize },
    Scanning { site: usize },
    Writing { site: usize },
    Flushing,
    Done,
}

/// What the run does next.
#[derive(Clone, Copy, Debug, PartialEq, Eq, Structural)]
pub enum InstallAction {
    /// Read the strategy pool (an error here ends the run before anything
    /// was changed).
    LoadPool,
    /// Pin the CDN list's addresses in /etc/hosts (failures are not fatal).
    ApplyCdnHosts,
    /// Merge and pin the community list's addresses (not fatal).
    MergeCommunity,
    /// The site is tunnel-only: nothing to do.
    SkipSite { site: usize },
    /// Try each strategy of the pool on the site; report whether one won.
    TryStrategies { site: usize },
    /// Scan the site's ranges (at most `SCAN_CAP` addresses) for a clean one.
    ScanAddresses { site: usize },
    /// Write the site's file with its winning strategy.
    WriteSiteConfig { site: usize },
    /// Delete every probe table left behind.
    FlushProbeTables,
    /// Done.
    Finish,
    /// Stop with the pool's error.
    Abort,
}

pub struct InstallMachine {
    pub kinds: Vec<SiteKind>,
    pub phase: InstallPhase,
}

/// The first step on site `i` of `kinds`, or the flush after the last.
pub open spec fn site_entry(kinds: Seq<SiteKind>, i: int) -> (InstallPhase, InstallAction) {
    if i >= kinds.len() {
        (InstallPhase::Flushing, InstallAction::FlushProbeTables)
    } else if kinds[i] == SiteKind::Wss {
        (InstallPhase::Skipping { site: i as usize }, InstallAction::SkipSite { site: i as usize })
    } else if kinds[i] == SiteKind::Dpi || kinds[i] == SiteKind::Both {
        (InstallPhase::Trying { site: i as usize }, InstallAction::TryStrategies { site: i as usize })
    } else {
        (InstallPhase::Scanning { site: i as usize }, InstallAction::ScanAddresses { site: i as usize })
    }
}

/// The step after an outcome in `phase`; `ok` is the pool's loading or a
/// strategy's win, and is ignored elsewhere.
pub open spec fn install_next(kinds: Seq<SiteKind>, phase: InstallPhase, ok: bool) -> (InstallPhase, InstallAction) {
    match phase {
        InstallPhase::LoadingPool => if ok {
            (InstallPhase::CdnHosts, InstallAction::ApplyCdnHosts)
        } else {
            (InstallPhase::Done, InstallAction::Abort)
        },
        InstallPhase::CdnHosts => (InstallPhase::Community, InstallAction::MergeCommunity),
        InstallPhase::Community => site_entry(kinds, 0),
        InstallPhase::Skipping { site } => site_entry(kinds, site + 1),
        InstallPhase::Trying { site } => if ok {
            (InstallPhase::Writing { site }, InstallAction::WriteSiteConfig { site })
        } else if site < kinds.len() && kinds[site as int] == SiteKind::Both {
            (InstallPhase::Scanning { site }, InstallAction::ScanAddresses { site })
        } else {
            site_entry(kinds, site + 1)
        },
        InstallPhase::Scanning { site } => site_entry(kinds, site + 1),
        InstallPhase::Writing { site } => site_entry(kinds, site + 1),
        InstallPhase::Flushing => (InstallPhase::Done, InstallAction::Finish),
        InstallPhase::Done => (InstallPhase::Done, InstallAction::Finish),
    }
}

/// The run starts by loading the pool.
pub fn install_start(kinds: Vec<SiteKind>) -> (r: (InstallMachine, InstallAction))
    ensures
        r.0.kinds@ == kinds@,
        r.0.phase == InstallPhase::LoadingPool,
        r.1 == InstallAction::LoadPool,
{
    (InstallMachine { kinds, phase: InstallPhase::LoadingPool }, InstallAction::LoadPool)
}

fn site_entry_exec(kinds: &Vec<SiteKind>, i: usize) -> (r: (InstallPhase, InstallAction))
    ensures
        r == site_entry(kinds@, i as int),
{
    if i >= kinds.len() {
        (InstallPhase::Flushing, InstallAction::FlushProbeTables)
    } else {
        let plan = site_plan(kinds[i]);
        if plan.skip {
            (InstallPhase::Skipping { site: i }, InstallAction::SkipSite { site: i })
        } else if plan.try_strategies {
            (InstallPhase::Trying { site: i }, InstallAction::TryStrategies { site: i })
        } else {
            (InstallPhase::Scanning { site: i }, InstallAction::ScanAddresses { site: i })
        }
    }
}

/// Advances the run after the outcome of the last action.
pub fn install_step(m: &mut InstallMachine, ok: bool) -> (r: InstallAction)
    requires
        old(m).kinds.len() < usize::MAX,
    ensures
        final(m).kinds@ == old(m).kinds@,
        (final(m).phase, r) == install_next(old(m).kinds@, old(m).phase, ok),
{
    let (p, a) = match m.phase {
        InstallPhase::LoadingPool => if ok {
            (InstallPhase::CdnHosts, InstallAction::ApplyCdnHosts)
        } else {
            (InstallPhase::Done, InstallAction::Abort)
        },
        InstallPhase::CdnHosts => (InstallPhase::Community, InstallAction::MergeCommunity),
        InstallPhase::Community => site_entry_exec(&m.kinds, 0),
        InstallPhase::Skipping { site } => if site < m.kinds.len() {
            site_entry_exec(&m.kinds, site + 1)
        } else {
            (InstallPhase::Flushing, InstallAction::FlushProbeTables)
        },
        InstallPhase::Trying { site } => {
            let plan = if site < m.kinds.len() {
                site_plan(m.kinds[site])
            } else {
                SitePlan { skip: false, try_strategies: false, scan_addresses: false }
            };
            let next = install_site_step(plan, ok);
            if next.write_config {
                (InstallPhase::Writing { site }, InstallAction::WriteSiteConfig { site })
            } else if next.scan && plan.try_strategies {
                (InstallPhase::Scanning { site }, InstallAction::ScanAddresses { site })
            } else if site < m.kinds.len() {
                site_entry_exec(&m.kinds, site + 1)
            } else {
                (InstallPhase::Flushing, InstallAction::FlushProbeTables)
            }
        },
        InstallPhase::Scanning { site } => if site < m.kinds.len() {
            site_entry_exec(&m.kinds, site + 1)
        } else {
            (InstallPhase::Flushing, InstallAction::FlushProbeTables)
        },
        InstallPhase::Writing { site } => if site < m.kinds.len() {
            site_entry_exec(&m.kinds, site + 1)
        } else {
            (InstallPhase::Flushing, InstallAction::FlushProbeTables)
        },
        InstallPhase::Flushing => (InstallPhase::Done, InstallAction::Finish),
        InstallPhase::Done => (InstallPhase::Done, InstallAction::Finish),
    };
    m.phase = p;
    a
}

/// The decisions of the run, step by step:
/// - it stops with an error only when the pool cannot be loaded, its first
///   step, before anything was changed;
/// - strategies are tried only on sites whose plan tries them (never on a
///   tunnel-only site);
/// - a site's ranges are scanned only when its plan scans and no strategy
///   won on it;
/// - a site's file is written only right after a strategy won on it;
/// - the probe tables are flushed once every site was handled, and the run
///   then finishes.
pub proof fn lemma_install_decisions(kinds: Seq<SiteKind>, phase: InstallPhase, ok: bool)
    requires
        kinds.len() < usize::MAX,
    ensures
        ({
            let (p, a) = install_next(kinds, phase, ok);
            &&& (a == InstallAction::Abort ==> phase == InstallPhase::LoadingPool && !ok)
            &&& (a matches InstallAction::TryStrategies { site } ==> site < kinds.len()
                && site_plan_try(kinds[site as int]))
            &&& (a matches InstallAction::ScanAddresses { site } ==> site < kinds.len()
                && site_plan_scan(kinds[site as int])
                && (phase == InstallPhase::Trying { site } ==> !ok)
                && (phase != InstallPhase::Trying { site } ==> !site_plan_try(kinds[site as int])))
            &&& (a matches InstallAction::WriteSiteConfig { site } ==> phase == InstallPhase::Trying { site } && ok)
            &&& (a == InstallAction::FlushProbeTables ==> p == InstallPhase::Flushing)
            &&& (a == InstallAction::Finish ==> phase == InstallPhase::Flushing || phase == InstallPhase::Done)
        }),
{
}

/// The plan of a kind tries strategies (as `site_plan` says).
pub open spec fn site_plan_try(k: SiteKind) -> bool {
    k == SiteKind::Dpi || k == SiteKind::Both
}

/// The plan of a kind scans the ranges (as `site_plan` says).
pub open spec fn site_plan_scan(k: SiteKind) -> bool {
    k == SiteKind::Ip || k == SiteKind::Both
}

/// How far a phase is from the end: every step moves the run closer.
pub open spec fn install_left(kinds: Seq<SiteKind>, phase: InstallPhase) -> int {
    let n = kinds.len() as int;
    match phase {
        InstallPhase::LoadingPool => 4 * n + 6,
        InstallPhase::CdnHosts => 4 * n + 5,
        InstallPhase::Community => 4 * n + 4,
        InstallPhase::Skipping { site } => 4 * (n - site) + 1,
        InstallPhase::Trying { site } => 4 * (n - site) + 3,
        InstallPhase::Scanning { site } => 4 * (n - site) + 1,
        InstallPhase::Writing { site } => 4 * (n - site) + 1,
        InstallPhase::Flushing => 1,
        InstallPhase::Done => 0,
    }
}

/// The run ends: from any phase short of the end, whatever is found, the
/// next phase is nearer the end (sites are handled in order, each once).
pub proof fn lemma_install_terminates(kinds: Seq<SiteKind>, phase: InstallPhase, ok: bool)
    requires
        kinds.len() < usize::MAX,
        phase != InstallPhase::Done,
        phase matches InstallPhase::Skipping { site } ==> site < kinds.len(),
        phase matches InstallPhase::Trying { site } ==> site < kinds.len(),
        phase matches InstallPhase::Scanning { site } ==> site < kinds.len(),
        phase matches InstallPhase::Writing { site } ==> site < kinds.len(),
    ensures
        0 <= install_left(kinds, install_next(kinds, phase, ok).0) < install_left(kinds, phase),
{
}

} // verus!
