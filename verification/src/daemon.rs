//! The decisions of the command-line program: the system daemon's start
//! and shutdown, the install-time discovery (CDN host lists, strategy pool,
//! per-site results) and the on-demand refresh of a host's address.
use vstd::prelude::*;
use crate::text::{chars_of, string_of, extend, views, trim, trim_chars, split_ws, split_ws_chars, lines,
    lines_chars, starts_with, ends_with, ends_with_chars, cviews, pair_views};
use crate::config::{HostOverride, override_views, join_text, path_join};
use crate::bypass::lit;
use crate::zapret::sites::{Site, SiteKind, site_views, all_sites};

verus! {

// ---------------------------------------------------------------------------
// The daemon
// ---------------------------------------------------------------------------

/// Where the daemon's start stands: the step whose outcome comes next.
#[derive(Clone, Copy, Debug, PartialEq, Eq, Structural)]
pub enum DaemonPhase {
    Flushing,
    Locating,
    Spawning,
    Routing,
    Configuring,
    StartingTelegram,
    RedirectingTelegram,
    Serving,
    Done,
}

pub enum DaemonAction {
    /// Remove stale nft tables (ours and the probes').
    FlushStaleTables,
    FindEngine,
    /// Start nfqws for `uid`, then wait for it to bind its queue.
    SpawnEngine { uid: u32 },
    InstallQueueRules { uid: u32, queue: u16 },
    /// Desktop proxy on, host overrides merged and applied, state written.
    ConfigureSystem,
    /// Stop the standalone proxy (`standalone_tg_commands`), prepare the
    /// secret and link, free the port, start the proxy.
    StartTelegram { port: u16 },
    RedirectTelegram { port: u16 },
    /// Run until SIGTERM or Ctrl-C, then shut down (`shutdown_plan`).
    Serve { telegram_running: bool },
    Abort { kill_engine: bool, flush_tables: bool, error: String },
}

pub enum DaemonView {
    FlushStaleTables,
    FindEngine,
    SpawnEngine(u32),
    InstallQueueRules(u32, u16),
    ConfigureSystem,
    StartTelegram(u16),
    RedirectTelegram(u16),
    Serve(bool),
    Abort(bool, bool, Seq<char>),
}

pub open spec fn daemon_view(a: DaemonAction) -> DaemonView {
    match a {
        DaemonAction::FlushStaleTables => DaemonView::FlushStaleTables,
        DaemonAction::FindEngine => DaemonView::FindEngine,
        DaemonAction::SpawnEngine { uid } => DaemonView::SpawnEngine(uid),
        DaemonAction::InstallQueueRules { uid, queue } => DaemonView::InstallQueueRules(uid, queue),
        DaemonAction::ConfigureSystem => DaemonView::ConfigureSystem,
        DaemonAction::StartTelegram { port } => DaemonView::StartTelegram(port),
        DaemonAction::RedirectTelegram { port } => DaemonView::RedirectTelegram(port),
        DaemonAction::Serve { telegram_running } => DaemonView::Serve(telegram_running),
        DaemonAction::Abort { kill_engine, flush_tables, error } => DaemonView::Abort(kill_engine, flush_tables, error@),
    }
}

pub struct DaemonMachine {
    pub phase: DaemonPhase,
    pub uid: u32,
    pub tg_port: u16,
}

pub fn daemon_start(uid: u32, tg_port: u16) -> (r: (DaemonMachine, DaemonAction))
    ensures
        r.0.phase == DaemonPhase::Flushing,
        r.0.uid == uid,
        r.0.tg_port == tg_port,
        r.1 is FlushStaleTables,
{
    (DaemonMachine { phase: DaemonPhase::Flushing, uid, tg_port }, DaemonAction::FlushStaleTables)
}

/// The daemon's start: the engine first, then the rules that route to it
/// (a rule without an engine would black-hole the user). A failure to
/// start the engine flushes the tables; a failure to install the rules
/// kills the engine and flushes them. The Telegram proxy is optional: if
/// it does not start, the daemon serves without it.
pub open spec fn daemon_next(m: DaemonMachine, ok: bool, error: Seq<char>) -> (DaemonPhase, DaemonView) {
    match m.phase {
        DaemonPhase::Flushing => (DaemonPhase::Locating, DaemonView::FindEngine),
        DaemonPhase::Locating => if ok {
            (DaemonPhase::Spawning, DaemonView::SpawnEngine(m.uid))
        } else {
            (DaemonPhase::Done, DaemonView::Abort(false, false, error))
        },
        DaemonPhase::Spawning => if ok {
            (DaemonPhase::Routing, DaemonView::InstallQueueRules(m.uid, 200))
        } else {
            (DaemonPhase::Done, DaemonView::Abort(false, true, error))
        },
        DaemonPhase::Routing => if ok {
            (DaemonPhase::Configuring, DaemonView::ConfigureSystem)
        } else {
            (DaemonPhase::Done, DaemonView::Abort(true, true, error))
        },
        DaemonPhase::Configuring => (DaemonPhase::StartingTelegram, DaemonView::StartTelegram(m.tg_port)),
        DaemonPhase::StartingTelegram => if ok {
            (DaemonPhase::RedirectingTelegram, DaemonView::RedirectTelegram(m.tg_port))
        } else {
            (DaemonPhase::Serving, DaemonView::Serve(false))
        },
        DaemonPhase::RedirectingTelegram => (DaemonPhase::Serving, DaemonView::Serve(true)),
        DaemonPhase::Serving => (DaemonPhase::Done, DaemonView::Serve(true)),
        DaemonPhase::Done => (DaemonPhase::Done, DaemonView::Serve(false)),
    }
}

/// Advances the daemon's start with how the last step went. Nothing
/// follows `Serve` until the daemon is told to stop.
pub fn daemon_step(m: &mut DaemonMachine, ok: bool, error: String) -> (r: DaemonAction)
    requires
        old(m).phase != DaemonPhase::Serving,
        old(m).phase != DaemonPhase::Done,
    ensures
        (final(m).phase, daemon_view(r)) == daemon_next(*old(m), ok, error@),
        final(m).uid == old(m).uid,
        final(m).tg_port == old(m).tg_port,
{
    match m.phase {
        DaemonPhase::Flushing => {
            m.phase = DaemonPhase::Locating;
            DaemonAction::FindEngine
        },
        DaemonPhase::Locating => if ok {
            m.phase = DaemonPhase::Spawning;
            DaemonAction::SpawnEngine { uid: m.uid }
        } else {
            m.phase = DaemonPhase::Done;
            DaemonAction::Abort { kill_engine: false, flush_tables: false, error }
        },
        DaemonPhase::Spawning => if ok {
            m.phase = DaemonPhase::Routing;
            DaemonAction::InstallQueueRules { uid: m.uid, queue: 200 }
        } else {
            m.phase = DaemonPhase::Done;
            DaemonAction::Abort { kill_engine: false, flush_tables: true, error }
        },
        DaemonPhase::Routing => if ok {
            m.phase = DaemonPhase::Configuring;
            DaemonAction::ConfigureSystem
        } else {
            m.phase = DaemonPhase::Done;
            DaemonAction::Abort { kill_engine: true, flush_tables: true, error }
        },
        DaemonPhase::Configuring => {
            m.phase = DaemonPhase::StartingTelegram;
            DaemonAction::StartTelegram { port: m.tg_port }
        },
        DaemonPhase::StartingTelegram => if ok {
            m.phase = DaemonPhase::RedirectingTelegram;
            DaemonAction::RedirectTelegram { port: m.tg_port }
        } else {
            m.phase = DaemonPhase::Serving;
            DaemonAction::Serve { telegram_running: false }
        },
        DaemonPhase::RedirectingTelegram => {
            m.phase = DaemonPhase::Serving;
            DaemonAction::Serve { telegram_running: true }
        },
        DaemonPhase::Serving => DaemonAction::Serve { telegram_running: true },
        DaemonPhase::Done => DaemonAction::Serve { telegram_running: false },
    }
}

/// The daemon routes traffic to nfqws only after nfqws started, and every
/// failure from the engine's start on removes the nft tables; a rules
/// failure also kills the engine.
pub proof fn lemma_daemon_engine_first(m: DaemonMachine, ok: bool, error: Seq<char>)
    ensures
        daemon_next(m, ok, error).1 is InstallQueueRules ==> m.phase == DaemonPhase::Spawning && ok,
        (m.phase == DaemonPhase::Spawning || m.phase == DaemonPhase::Routing) && !ok ==> (daemon_next(
            m,
            ok,
            error,
        ).1 matches DaemonView::Abort(_, flush, _) && flush),
        m.phase == DaemonPhase::Routing && !ok ==> (daemon_next(m, ok, error).1 matches DaemonView::Abort(
            kill,
            _,
            _,
        ) && kill),
{
}

/// The Telegram proxy is stopped at shutdown exactly when it was started:
/// after a successful `StartTelegram`, whatever the redirect then does,
/// the daemon serves with `telegram_running` set, so its shutdown plan
/// stops the proxy first; when the proxy failed to start, the daemon serves
/// without it and its shutdown plan holds no such step.
pub proof fn lemma_started_proxy_is_stopped(uid: u32, tg_port: u16, redirected: bool, e1: Seq<char>, e2: Seq<char>)
    ensures
        ({
            let m = DaemonMachine { phase: DaemonPhase::StartingTelegram, uid, tg_port };
            let (p1, a1) = daemon_next(m, true, e1);
            let m1 = DaemonMachine { phase: p1, uid, tg_port };
            &&& a1 == DaemonView::RedirectTelegram(tg_port)
            &&& daemon_next(m1, redirected, e2).1 == DaemonView::Serve(true)
            &&& shutdown_text(true)[0] == ShutdownStep::StopTelegram
        }),
        ({
            let m = DaemonMachine { phase: DaemonPhase::StartingTelegram, uid, tg_port };
            &&& daemon_next(m, false, e1).1 == DaemonView::Serve(false)
            &&& !shutdown_text(false).contains(ShutdownStep::StopTelegram)
        }),
{
    let t = shutdown_text(false);
    assert(t == seq![
        ShutdownStep::KillEngine,
        ShutdownStep::RemoveQueueTable,
        ShutdownStep::FlushTables,
        ShutdownStep::DisableSystemProxy,
        ShutdownStep::RemoveHostsBlock,
        ShutdownStep::ClearState,
    ]);
    assert forall|k: int| 0 <= k < t.len() implies t[k] != ShutdownStep::StopTelegram by {}
}

/// The standalone Telegram proxy that the daemon replaces: its service is
/// stopped, disabled and masked, then whatever still holds its port or
/// runs under its name is killed (output discarded, failures ignored).
pub open spec fn standalone_tg_text() -> Seq<(Seq<char>, Seq<Seq<char>>)> {
    seq![
        ("systemctl"@, seq!["stop"@, "tg-ws-proxy.service"@]),
        ("systemctl"@, seq!["disable"@, "tg-ws-proxy.service"@]),
        ("systemctl"@, seq!["mask"@, "tg-ws-proxy.service"@]),
        ("fuser"@, seq!["-k"@, "1443/tcp"@]),
        ("pkill"@, seq!["-f"@, "tg-ws-proxy"@]),
    ]
}

pub open spec fn invocation_views(v: Seq<(String, Vec<String>)>) -> Seq<(Seq<char>, Seq<Seq<char>>)> {
    v.map_values(|a: (String, Vec<String>)| (a.0@, views(a.1@)))
}

fn invocation(program: &str, a: &str, b: &str) -> (r: (String, Vec<String>))
    ensures
        r.0@ == program@,
        views(r.1@) == seq![a@, b@],
{
    let args = vec![lit(a), lit(b)];
    assert(views(args@) =~= seq![a@, b@]);
    (lit(program), args)
}

pub fn standalone_tg_commands() -> (r: Vec<(String, Vec<String>)>)
    ensures
        invocation_views(r@) == standalone_tg_text(),
{
    let r = vec![
        invocation("systemctl", "stop", "tg-ws-proxy.service"),
        invocation("systemctl", "disable", "tg-ws-proxy.service"),
        invocation("systemctl", "mask", "tg-ws-proxy.service"),
        invocation("fuser", "-k", "1443/tcp"),
        invocation("pkill", "-f", "tg-ws-proxy"),
    ];
    assert(invocation_views(r@) =~= standalone_tg_text());
    r
}

/// The daemon's shutdown steps.
#[derive(Clone, Copy, Debug, PartialEq, Eq, Structural)]
pub enum ShutdownStep {
    /// Cancel the Telegram proxy and let it close.
    StopTelegram,
    /// Kill nfqws, so it no longer reads the queue whose rules go next.
    KillEngine,
    /// Remove the queue table (`nft_remove`).
    RemoveQueueTable,
    /// Remove both of our tables (`nft_flush_safely`).
    FlushTables,
    DisableSystemProxy,
    RemoveHostsBlock,
    ClearState,
}

pub open spec fn shutdown_text(telegram_running: bool) -> Seq<ShutdownStep> {
    (if telegram_running {
        seq![ShutdownStep::StopTelegram]
    } else {
        seq![]
    }) + seq![
        ShutdownStep::KillEngine,
        ShutdownStep::RemoveQueueTable,
        ShutdownStep::FlushTables,
        ShutdownStep::DisableSystemProxy,
        ShutdownStep::RemoveHostsBlock,
        ShutdownStep::ClearState,
    ]
}

pub fn shutdown_plan(telegram_running: bool) -> (r: Vec<ShutdownStep>)
    ensures
        r@ == shutdown_text(telegram_running),
{
    let mut v: Vec<ShutdownStep> = Vec::new();
    if telegram_running {
        v.push(ShutdownStep::StopTelegram);
    }
    v.push(ShutdownStep::KillEngine);
    v.push(ShutdownStep::RemoveQueueTable);
    v.push(ShutdownStep::FlushTables);
    v.push(ShutdownStep::DisableSystemProxy);
    v.push(ShutdownStep::RemoveHostsBlock);
    v.push(ShutdownStep::ClearState);
    assert(v@ =~= shutdown_text(telegram_running));
    v
}

/// On shutdown the engine is killed before any nft table is removed, and
/// both tables are removed.
pub proof fn lemma_shutdown_kills_engine_first(telegram_running: bool)
    ensures
        ({
            let p = shutdown_text(telegram_running);
            exists|k: int|
                0 <= k < p.len() && p[k] == ShutdownStep::KillEngine && forall|j: int|
                    0 <= j < k ==> #[trigger] p[j] != ShutdownStep::RemoveQueueTable && p[j]
                        != ShutdownStep::FlushTables
        }),
        shutdown_text(telegram_running).contains(ShutdownStep::RemoveQueueTable),
        shutdown_text(telegram_running).contains(ShutdownStep::FlushTables),
{
    let p = shutdown_text(telegram_running);
    let k: int = if telegram_running { 1 } else { 0 };
    assert(p[k] == ShutdownStep::KillEngine);
    assert(p[k + 1] == ShutdownStep::RemoveQueueTable);
    assert(p[k + 2] == ShutdownStep::FlushTables);
}

// ---------------------------------------------------------------------------
// Install-time discovery
// ---------------------------------------------------------------------------

/// Where the CDN host list is looked for: installed, then the source tree.
pub fn cdn_list_candidates(root: &str) -> (r: Vec<String>)
    ensures
        views(r@) == seq!["/etc/unblocker/hostlists/magila-cdn.txt"@, join_text(root@, "config/hosts/magila-cdn.txt"@)],
{
    let r = vec![lit("/etc/unblocker/hostlists/magila-cdn.txt"), path_join(root, "config/hosts/magila-cdn.txt")];
    assert(views(r@) =~= seq!["/etc/unblocker/hostlists/magila-cdn.txt"@, join_text(root@, "config/hosts/magila-cdn.txt"@)]);
    r
}

/// The (address, host) pairs of a CDN host list: each line, trimmed,
/// that is neither empty nor a `#` comment and has at least two words.
/// The caller keeps those whose address parses.
pub open spec fn cdn_pair(line: Seq<char>) -> Option<(Seq<char>, Seq<char>)> {
    let t = trim(line);
    if t.len() == 0 || t[0] == '#' || split_ws(t).len() < 2 {
        None
    } else {
        Some((split_ws(t)[0], split_ws(t)[1]))
    }
}

pub open spec fn cdn_pairs_in(ls: Seq<Seq<char>>) -> Seq<(Seq<char>, Seq<char>)>
    decreases ls.len(),
{
    if ls.len() == 0 {
        seq![]
    } else {
        cdn_pairs_in(ls.drop_last()) + match cdn_pair(ls.last()) {
            Some(p) => seq![p],
            None => seq![],
        }
    }
}

pub fn cdn_pairs(content: &str) -> (r: Vec<(String, String)>)
    ensures
        pair_views(r@) == cdn_pairs_in(lines(content@)),
{
    let v = chars_of(content);
    let ls = lines_chars(v.as_slice());
    let ghost lv = cviews(ls@);
    let mut out: Vec<(String, String)> = Vec::new();
    let mut i: usize = 0;
    while i < ls.len()
        invariant
            i <= ls.len(),
            lv == cviews(ls@),
            lv == lines(content@),
            pair_views(out@) == cdn_pairs_in(lv.take(i as int)),
        decreases ls.len() - i,
    {
        assert(lv.take(i + 1).drop_last() == lv.take(i as int));
        assert(lv.take(i + 1).last() == ls@[i as int]@);
        let t = trim_chars(ls[i].as_slice());
        if t.len() > 0 && t[0] != '#' {
            let ws = split_ws_chars(t.as_slice());
            if ws.len() >= 2 {
                assert(cviews(ws@)[0] == ws@[0]@ && cviews(ws@)[1] == ws@[1]@);
                let ghost before = out@;
                out.push((string_of(ws[0].as_slice()), string_of(ws[1].as_slice())));
                assert(pair_views(out@) == pair_views(before).push((ws@[0]@, ws@[1]@)));
            } else {
                assert(pair_views(out@) =~= cdn_pairs_in(lv.take(i + 1)));
            }
        } else {
            assert(pair_views(out@) =~= cdn_pairs_in(lv.take(i + 1)));
        }
        i = i + 1;
    }
    assert(lv.take(ls.len() as int) == lv);
    out
}

/// One override per (address, host) pair whose address is valid (`valid`
/// says which are, in order), in order.
pub open spec fn pair_overrides(ps: Seq<(Seq<char>, Seq<char>)>, valid: Seq<bool>) -> Seq<(Seq<char>, Seq<Seq<char>>)>
    decreases ps.len(),
{
    if ps.len() == 0 {
        seq![]
    } else {
        let n = (ps.len() - 1) as int;
        pair_overrides(ps.drop_last(), valid) + if n < valid.len() && valid[n] {
            seq![(ps.last().1, seq![ps.last().0])]
        } else {
            seq![]
        }
    }
}

/// The overrides made from address/host pairs (`ip_first`: the address is
/// the first of each pair, as in host lists; else the second, as in the
/// filtered community list).
pub fn overrides_from_pairs(pairs: &Vec<(String, String)>, ip_first: bool, valid: &[bool]) -> (r: Vec<HostOverride>)
    ensures
        override_views(r@) == pair_overrides(
            if ip_first {
                pair_views(pairs@)
            } else {
                pair_views(pairs@).map_values(|p: (Seq<char>, Seq<char>)| (p.1, p.0))
            },
            valid@,
        ),
{
    let ghost ps = if ip_first {
        pair_views(pairs@)
    } else {
        pair_views(pairs@).map_values(|p: (Seq<char>, Seq<char>)| (p.1, p.0))
    };
    let mut out: Vec<HostOverride> = Vec::new();
    let mut i: usize = 0;
    while i < pairs.len()
        invariant
            i <= pairs.len(),
            ps.len() == pairs@.len(),
            ps == (if ip_first {
                pair_views(pairs@)
            } else {
                pair_views(pairs@).map_values(|p: (Seq<char>, Seq<char>)| (p.1, p.0))
            }),
            override_views(out@) == pair_overrides(ps.take(i as int), valid@),
        decreases pairs.len() - i,
    {
        assert(ps.take(i + 1).drop_last() == ps.take(i as int));
        assert(ps.take(i + 1).len() == i + 1);
        if i < valid.len() && valid[i] {
            let (ip, host) = if ip_first {
                (pairs[i].0.clone(), pairs[i].1.clone())
            } else {
                (pairs[i].1.clone(), pairs[i].0.clone())
            };
            assert(ps[i as int] == (ip@, host@));
            let ips = vec![ip];
            let o = HostOverride { domain: host, ips };
            assert(views(o.ips@) =~= seq![ip@]);
            let ghost before = out@;
            out.push(o);
            assert(override_views(out@) =~= override_views(before).push((host@, seq![ip@])));
        } else {
            assert(override_views(out@) =~= pair_overrides(ps.take(i + 1), valid@));
        }
        i = i + 1;
    }
    assert(ps.take(pairs.len() as int) == ps);
    out
}

/// Subdomains that need overrides besides the sites themselves.
pub open spec fn extra_target_hosts() -> Seq<Seq<char>> {
    seq![
        "cdninstagram.com"@, "scontent.cdninstagram.com"@, "static.cdninstagram.com"@, "graph.instagram.com"@,
        "i.instagram.com"@, "api.instagram.com"@, "fbcdn.net"@, "static.xx.fbcdn.net"@, "scontent.xx.fbcdn.net"@,
        "mmg.whatsapp.net"@, "g.whatsapp.net"@, "mmg-fna.whatsapp.net"@, "mm-fna.whatsapp.net"@,
        "pps.whatsapp.net"@, "web.whatsapp.com"@, "whatsapp.com"@, "faq.whatsapp.com"@, "t.me"@,
        "telegram.org"@,
    ]
}

/// The hosts whose community-list entries are kept: every site's host,
/// then the extra subdomains.
pub fn community_targets(sites: &Vec<Site>) -> (r: Vec<String>)
    ensures
        views(r@) == site_views(sites@).map_values(|s: (Seq<char>, SiteKind, Seq<char>, Seq<Seq<char>>)| s.0)
            + extra_target_hosts(),
{
    let ghost hs = site_views(sites@).map_values(|s: (Seq<char>, SiteKind, Seq<char>, Seq<Seq<char>>)| s.0);
    let mut out: Vec<String> = Vec::new();
    let mut i: usize = 0;
    while i < sites.len()
        invariant
            i <= sites.len(),
            hs == site_views(sites@).map_values(|s: (Seq<char>, SiteKind, Seq<char>, Seq<Seq<char>>)| s.0),
            views(out@) == hs.take(i as int),
        decreases sites.len() - i,
    {
        let ghost before = out@;
        out.push(sites[i].host.clone());
        assert(views(out@) == views(before).push(sites@[i as int].host@));
        assert(hs.take(i + 1) == hs.take(i as int).push(hs[i as int]));
        i = i + 1;
    }
    assert(hs.take(sites.len() as int) == hs);
    let extra = vec![
        lit("cdninstagram.com"), lit("scontent.cdninstagram.com"), lit("static.cdninstagram.com"),
        lit("graph.instagram.com"), lit("i.instagram.com"), lit("api.instagram.com"), lit("fbcdn.net"),
        lit("static.xx.fbcdn.net"), lit("scontent.xx.fbcdn.net"), lit("mmg.whatsapp.net"), lit("g.whatsapp.net"),
        lit("mmg-fna.whatsapp.net"), lit("mm-fna.whatsapp.net"), lit("pps.whatsapp.net"), lit("web.whatsapp.com"),
        lit("whatsapp.com"), lit("faq.whatsapp.com"), lit("t.me"), lit("telegram.org"),
    ];
    assert(views(extra@) =~= extra_target_hosts());
    let ghost head = views(out@);
    let mut j: usize = 0;
    while j < extra.len()
        invariant
            j <= extra.len(),
            views(out@) == head + views(extra@).take(j as int),
        decreases extra.len() - j,
    {
        let ghost before = out@;
        out.push(extra[j].clone());
        assert(views(out@) == views(before).push(extra@[j as int]@));
        assert(views(extra@).take(j + 1) == views(extra@).take(j as int).push(extra@[j as int]@));
        j = j + 1;
    }
    assert(views(extra@).take(extra.len() as int) == views(extra@));
    out
}

/// What the scan does for one site.
#[derive(Clone, Copy, Debug, PartialEq, Eq, Structural)]
pub struct SitePlan {
    /// Telegram: needs its tunnel, nothing to scan.
    pub skip: bool,
    /// Try every strategy of the pool (DPI-blocked sites).
    pub try_strategies: bool,
    /// When no strategy wins, scan the site's ranges for a clean address.
    pub scan_addresses: bool,
}

pub fn site_plan(kind: SiteKind) -> (r: SitePlan)
    ensures
        r.skip == (kind == SiteKind::Wss),
        r.try_strategies == (kind == SiteKind::Dpi || kind == SiteKind::Both),
        r.scan_addresses == (kind == SiteKind::Ip || kind == SiteKind::Both),
{
    match kind {
        SiteKind::Dpi => SitePlan { skip: false, try_strategies: true, scan_addresses: false },
        SiteKind::Ip => SitePlan { skip: false, try_strategies: false, scan_addresses: true },
        SiteKind::Both => SitePlan { skip: false, try_strategies: true, scan_addresses: true },
        SiteKind::Wss => SitePlan { skip: true, try_strategies: false, scan_addresses: false },
    }
}

/// At most this many addresses of a site's ranges are scanned.
pub const SCAN_CAP: usize = 2048;

/// The file that records a site's winning strategy.
pub fn site_config_path(dir: &str, host: &str) -> (r: String)
    ensures
        r@ == join_text(dir@, host@ + ".conf"@),
{
    let mut name = chars_of(host);
    let c = chars_of(".conf");
    extend(&mut name, c.as_slice());
    let n = string_of(name.as_slice());
    path_join(dir, n.as_str())
}

/// Its text: a comment naming the host, then the strategy file's path.
pub open spec fn site_config_text(host: Seq<char>, strat: Seq<char>) -> Seq<char> {
    "# winning strategy for "@ + host + " (written by install-discover)\n"@ + strat + "\n"@
}

pub fn site_config_body(host: &str, strat_path: &str) -> (r: String)
    ensures
        r@ == site_config_text(host@, strat_path@),
{
    let mut v = chars_of("# winning strategy for ");
    let h = chars_of(host);
    extend(&mut v, h.as_slice());
    let m = chars_of(" (written by install-discover)\n");
    extend(&mut v, m.as_slice());
    let s = chars_of(strat_path);
    extend(&mut v, s.as_slice());
    let e = chars_of("\n");
    extend(&mut v, e.as_slice());
    string_of(v.as_slice())
}

/// The strategy pool's directories, installed then in the source tree;
/// each is read, then its `byebyedpi` subdirectory. The known-good runtime
/// default (`/etc/unblocker/strategies/general-hostfakesplit.strat`), when
/// it exists, is tried before all of them.
pub fn pool_dirs(root: &str) -> (r: Vec<String>)
    ensures
        views(r@) == seq!["/etc/unblocker/strategies/pool"@, join_text(root@, "config/zapret/strategies/pool"@)],
{
    let r = vec![lit("/etc/unblocker/strategies/pool"), path_join(root, "config/zapret/strategies/pool")];
    assert(views(r@) =~= seq!["/etc/unblocker/strategies/pool"@, join_text(root@, "config/zapret/strategies/pool"@)]);
    r
}

/// A directory entry is a strategy when its extension is `strat`: its name
/// ends in `.strat` with something before the dot.
pub open spec fn is_strategy_name(name: Seq<char>) -> bool {
    ends_with(name, ".strat"@) && name.len() > 6
}

pub fn is_strategy_file(name: &str) -> (r: bool)
    ensures
        r == is_strategy_name(name@),
{
    proof {
        reveal_strlit(".strat");
    }
    let v = chars_of(name);
    let s = chars_of(".strat");
    ends_with_chars(v.as_slice(), s.as_slice()) && v.len() > 6
}

/// The error when no strategy was found anywhere.
pub fn empty_pool_error() -> (r: String)
    ensures
        r@ == "strategy pool is empty: expected files in /etc/unblocker/strategies/pool"@,
{
    lit("strategy pool is empty: expected files in /etc/unblocker/strategies/pool")
}

// ---------------------------------------------------------------------------
// Refreshing a host's address
// ---------------------------------------------------------------------------

/// The hosts of the sites that are not tunnel-only, in order.
pub open spec fn refreshable(ss: Seq<(Seq<char>, SiteKind, Seq<char>, Seq<Seq<char>>)>) -> Seq<Seq<char>>
    decreases ss.len(),
{
    if ss.len() == 0 {
        seq![]
    } else {
        refreshable(ss.drop_last()) + if ss.last().1 == SiteKind::Wss {
            seq![]
        } else {
            seq![ss.last().0]
        }
    }
}

pub open spec fn usage_text() -> Seq<char> {
    "usage: unblocker refresh <host> | unblocker refresh --all"@
}

/// The hosts a refresh works on: with `all`, every site that is not
/// tunnel-only; else the one host named. Naming none without `all` is a
/// usage error.
pub fn refresh_hosts(all: bool, host: Option<String>) -> (r: Result<Vec<String>, String>)
    ensures
        !all && host is None ==> (r matches Err(e) && e@ == usage_text()),
        all ==> (r matches Ok(v) && views(v@) == refreshable(all_sites())),
        !all && host is Some ==> (r matches Ok(v) && views(v@) == seq![host->0@]),
{
    if all {
        let sites = crate::zapret::sites::all();
        let ghost ss = site_views(sites@);
        let mut out: Vec<String> = Vec::new();
        let mut i: usize = 0;
        while i < sites.len()
            invariant
                i <= sites.len(),
                ss == site_views(sites@),
                views(out@) == refreshable(ss.take(i as int)),
            decreases sites.len() - i,
        {
            assert(ss.take(i + 1).drop_last() == ss.take(i as int));
            assert(ss.take(i + 1).last() == ss[i as int]);
            if sites[i].kind != SiteKind::Wss {
                let ghost before = out@;
                out.push(sites[i].host.clone());
                assert(views(out@) == views(before).push(sites@[i as int].host@));
            } else {
                assert(views(out@) =~= refreshable(ss.take(i + 1)));
            }
            i = i + 1;
        }
        assert(ss.take(sites.len() as int) == ss);
        Ok(out)
    } else {
        match host {
            Some(h) => {
                let v = vec![h];
                assert(views(v@) =~= seq![v@[0]@]);
                Ok(v)
            },
            None => Err(lit("usage: unblocker refresh <host> | unblocker refresh --all")),
        }
    }
}

/// `xs` followed by each of `more` not yet present.
pub open spec fn add_new(xs: Seq<Seq<char>>, more: Seq<Seq<char>>) -> Seq<Seq<char>>
    decreases more.len(),
{
    if more.len() == 0 {
        xs
    } else {
        let r = add_new(xs, more.drop_last());
        if r.contains(more.last()) {
            r
        } else {
            r.push(more.last())
        }
    }
}

fn contains_text(v: &Vec<String>, s: &String) -> (r: bool)
    ensures
        r == views(v@).contains(s@),
{
    let mut i: usize = 0;
    while i < v.len()
        invariant
            i <= v.len(),
            forall|k: int| 0 <= k < i ==> views(v@)[k] != s@,
        decreases v.len() - i,
    {
        if crate::text::str_eq(v[i].as_str(), s.as_str()) {
            assert(views(v@)[i as int] == s@);
            return true;
        }
        i = i + 1;
    }
    false
}

fn append_new(out: &mut Vec<String>, more: &Vec<String>)
    ensures
        views(final(out)@) == add_new(views(old(out)@), views(more@)),
{
    let ghost start = views(out@);
    let mut i: usize = 0;
    while i < more.len()
        invariant
            i <= more.len(),
            views(out@) == add_new(start, views(more@).take(i as int)),
        decreases more.len() - i,
    {
        assert(views(more@).take(i + 1).drop_last() == views(more@).take(i as int));
        assert(views(more@).take(i + 1).last() == more@[i as int]@);
        if !contains_text(out, &more[i]) {
            let ghost before = out@;
            out.push(more[i].clone());
            assert(views(out@) == views(before).push(more@[i as int]@));
        }
        i = i + 1;
    }
    assert(views(more@).take(more.len() as int) == views(more@));
}

/// The addresses a refresh tries, in order: the precompiled ones, then
/// those of the community list, Google's and Cloudflare's DNS-over-HTTPS
/// answers that are not yet listed (all as canonical address text).
pub fn refresh_candidates(precompiled: Vec<String>, community: &Vec<String>, google: &Vec<String>, cloudflare: &Vec<String>) -> (r: Vec<String>)
    ensures
        views(r@) == add_new(add_new(add_new(views(precompiled@), views(community@)), views(google@)), views(cloudflare@)),
{
    let mut out = precompiled;
    append_new(&mut out, community);
    append_new(&mut out, google);
    append_new(&mut out, cloudflare);
    out
}

/// Adding addresses keeps the list so far in front and unchanged, and every
/// address of either list ends up among the candidates.
pub proof fn lemma_add_new(xs: Seq<Seq<char>>, more: Seq<Seq<char>>)
    ensures
        add_new(xs, more).len() >= xs.len(),
        add_new(xs, more).take(xs.len() as int) == xs,
        forall|i: int| 0 <= i < more.len() ==> add_new(xs, more).contains(#[trigger] more[i]),
        forall|i: int| 0 <= i < xs.len() ==> add_new(xs, more).contains(#[trigger] xs[i]),
    decreases more.len(),
{
    if more.len() > 0 {
        lemma_add_new(xs, more.drop_last());
        let r = add_new(xs, more.drop_last());
        assert forall|i: int| 0 <= i < more.len() implies add_new(xs, more).contains(#[trigger] more[i]) by {
            if i < more.len() - 1 {
                assert(more.drop_last()[i] == more[i]);
                assert(r.contains(more[i]));
                if !r.contains(more.last()) {
                    let k = choose|k: int| 0 <= k < r.len() && r[k] == more[i];
                    assert(r.push(more.last())[k] == more[i]);
                }
            } else {
                if !r.contains(more.last()) {
                    assert(r.push(more.last())[r.len() as int] == more.last());
                }
            }
        }
        assert forall|i: int| 0 <= i < xs.len() implies add_new(xs, more).contains(#[trigger] xs[i]) by {
            assert(r.contains(xs[i]));
            if !r.contains(more.last()) {
                let k = choose|k: int| 0 <= k < r.len() && r[k] == xs[i];
                assert(r.push(more.last())[k] == xs[i]);
            }
        }
        if !r.contains(more.last()) {
            assert(r.push(more.last()).take(xs.len() as int) =~= r.take(xs.len() as int));
        }
    }
}

/// The configuration's overrides without those for `host` (before the
/// refreshed address is added).
pub open spec fn without_domain(ovs: Seq<(Seq<char>, Seq<Seq<char>>)>, host: Seq<char>) -> Seq<(Seq<char>, Seq<Seq<char>>)>
    decreases ovs.len(),
{
    if ovs.len() == 0 {
        seq![]
    } else {
        without_domain(ovs.drop_last(), host) + if ovs.last().0 == host {
            seq![]
        } else {
            seq![ovs.last()]
        }
    }
}

pub fn drop_host_overrides(overrides: Vec<HostOverride>, host: &str) -> (r: Vec<HostOverride>)
    ensures
        override_views(r@) == without_domain(override_views(overrides@), host@),
{
    let ghost ov = override_views(overrides@);
    let mut out: Vec<HostOverride> = Vec::new();
    let mut i: usize = 0;
    while i < overrides.len()
        invariant
            i <= overrides.len(),
            ov == override_views(overrides@),
            override_views(out@) == without_domain(ov.take(i as int), host@),
        decreases overrides.len() - i,
    {
        assert(ov.take(i + 1).drop_last() == ov.take(i as int));
        assert(ov.take(i + 1).last() == ov[i as int]);
        if !crate::text::str_eq(overrides[i].domain.as_str(), host) {
            let ghost before = out@;
            out.push(overrides[i].clone_override());
            assert(override_views(out@) == override_views(before).push(ov[i as int]));
        } else {
            assert(override_views(out@) =~= without_domain(ov.take(i + 1), host@));
        }
        i = i + 1;
    }
    assert(ov.take(overrides.len() as int) == ov);
    out
}

/// After a refresh finds `ip` for `host`, the host has exactly that one
/// override, added last.
pub fn refreshed_overrides(overrides: Vec<HostOverride>, host: &str, ip: &str) -> (r: Vec<HostOverride>)
    ensures
        override_views(r@) == without_domain(override_views(overrides@), host@).push((host@, seq![ip@])),
{
    let mut out = drop_host_overrides(overrides, host);
    let o = HostOverride { domain: lit(host), ips: vec![lit(ip)] };
    assert(views(o.ips@) =~= seq![ip@]);
    let ghost before = out@;
    out.push(o);
    assert(override_views(out@) =~= override_views(before).push((host@, seq![ip@])));
    out
}

/// A refreshed host is overridden exactly once: the list holds no other
/// entry for it.
pub proof fn lemma_refresh_single_entry(ovs: Seq<(Seq<char>, Seq<Seq<char>>)>, host: Seq<char>, ip: Seq<char>)
    ensures
        ({
            let r = without_domain(ovs, host).push((host, seq![ip]));
            forall|i: int| 0 <= i < r.len() - 1 ==> (#[trigger] r[i]).0 != host
        }),
    decreases ovs.len(),
{
    lemma_without_domain(ovs, host);
    let w = without_domain(ovs, host);
    let r = w.push((host, seq![ip]));
    assert forall|i: int| 0 <= i < r.len() - 1 implies (#[trigger] r[i]).0 != host by {
        assert(r[i] == w[i]);
    }
}

proof fn lemma_without_domain(ovs: Seq<(Seq<char>, Seq<Seq<char>>)>, host: Seq<char>)
    ensures
        forall|i: int| 0 <= i < without_domain(ovs, host).len() ==> (#[trigger] without_domain(ovs, host)[i]).0 != host,
    decreases ovs.len(),
{
    if ovs.len() > 0 {
        lemma_without_domain(ovs.drop_last(), host);
        let w = without_domain(ovs.drop_last(), host);
        assert forall|i: int| 0 <= i < without_domain(ovs, host).len() implies (#[trigger] without_domain(ovs, host)[i]).0 != host by {
            if i < w.len() {
                assert(without_domain(ovs, host)[i] == w[i]);
            }
        }
    }
}

} // verus!
