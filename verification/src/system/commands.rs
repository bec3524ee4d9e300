//! The commands the bypass runs against the system: the iptables REDIRECT
//! rules, the desktop proxy settings, privilege escalation, and the order
//! in which everything is torn down. Each is planned here; the caller runs
//! the commands.
use vstd::prelude::*;
use crate::text::{chars_of, string_of, extend, views, trim, trim_chars, dec, dec_string, parse_uint,
    parse_uint_chars};
use crate::config::{join_text, path_join};
use crate::bypass::lit;
use crate::zapret::{first_existing, pick_existing};

verus! {

/// One command: the program, its arguments, and whether it needs root
/// (then it is run through the escalation chain of `root_attempts`).
pub struct SysCommand {
    pub program: String,
    pub args: Vec<String>,
    pub as_root: bool,
}

pub open spec fn cmd_view(c: SysCommand) -> (Seq<char>, Seq<Seq<char>>, bool) {
    (c.program@, views(c.args@), c.as_root)
}

pub open spec fn cmds_view(v: Seq<SysCommand>) -> Seq<(Seq<char>, Seq<Seq<char>>, bool)> {
    v.map_values(|c: SysCommand| cmd_view(c))
}

fn command(program: &str, args: Vec<String>, as_root: bool) -> (r: SysCommand)
    ensures
        cmd_view(r) == (program@, views(args@), as_root),
{
    SysCommand { program: lit(program), args, as_root }
}

/// The nat-table arguments of the REDIRECT rule for web traffic (TCP 80
/// and 443) to `port`: `op` is `-A`, `-C` or `-D`; the rule matches the
/// traffic of `uid`, or with `others` the traffic of everyone else.
pub open spec fn redirect_text(op: Seq<char>, uid: u32, port: u16, others: bool) -> Seq<Seq<char>> {
    seq!["-t"@, "nat"@, op, "OUTPUT"@, "-p"@, "tcp"@, "-m"@, "multiport"@, "--dports"@, "80,443"@, "-m"@,
        "owner"@] + (if others {
        seq!["!"@]
    } else {
        seq![]
    }) + seq!["--uid-owner"@, dec(uid as nat), "-j"@, "REDIRECT"@, "--to-ports"@, dec(port as nat)]
}

pub fn redirect_args(op: &str, uid: u32, port: u16, others: bool) -> (r: Vec<String>)
    ensures
        views(r@) == redirect_text(op@, uid, port, others),
{
    let mut v = vec![lit("-t"), lit("nat"), lit(op), lit("OUTPUT"), lit("-p"), lit("tcp"), lit("-m"),
        lit("multiport"), lit("--dports"), lit("80,443"), lit("-m"), lit("owner")];
    if others {
        v.push(lit("!"));
    }
    v.push(lit("--uid-owner"));
    v.push(dec_string(uid as u64));
    v.push(lit("-j"));
    v.push(lit("REDIRECT"));
    v.push(lit("--to-ports"));
    v.push(dec_string(port as u64));
    assert(views(v@) =~= redirect_text(op@, uid, port, others));
    v
}

/// Removing the system-wide REDIRECT (everyone but `uid`): once plainly,
/// once as root; failures are ignored.
pub fn iptables_disable(port: u16, uid: u32) -> (r: Vec<SysCommand>)
    ensures
        cmds_view(r@) == seq![
            ("iptables"@, redirect_text("-D"@, uid, port, true), false),
            ("iptables"@, redirect_text("-D"@, uid, port, true), true),
        ],
{
    let v = vec![
        command("iptables", redirect_args("-D", uid, port, true), false),
        command("iptables", redirect_args("-D", uid, port, true), true),
    ];
    assert(cmds_view(v@) =~= seq![
        ("iptables"@, redirect_text("-D"@, uid, port, true), false),
        ("iptables"@, redirect_text("-D"@, uid, port, true), true),
    ]);
    v
}

/// Redirecting the traffic of one user (the daemon runs as root for the
/// desktop user): any old copy of the rule is deleted (failure ignored),
/// then the rule is appended.
pub fn iptables_enable_for_uid(port: u16, uid: u32) -> (r: Vec<SysCommand>)
    ensures
        cmds_view(r@) == seq![
            ("iptables"@, redirect_text("-D"@, uid, port, false), false),
            ("iptables"@, redirect_text("-A"@, uid, port, false), false),
        ],
{
    let v = vec![
        command("iptables", redirect_args("-D", uid, port, false), false),
        command("iptables", redirect_args("-A", uid, port, false), false),
    ];
    assert(cmds_view(v@) =~= seq![
        ("iptables"@, redirect_text("-D"@, uid, port, false), false),
        ("iptables"@, redirect_text("-A"@, uid, port, false), false),
    ]);
    v
}

/// Deletes exactly the rule that `iptables_enable_for_uid` appends.
pub fn iptables_disable_for_uid(port: u16, uid: u32) -> (r: Vec<SysCommand>)
    ensures
        cmds_view(r@) == seq![("iptables"@, redirect_text("-D"@, uid, port, false), false)],
{
    let v = vec![command("iptables", redirect_args("-D", uid, port, false), false)];
    assert(cmds_view(v@) =~= seq![("iptables"@, redirect_text("-D"@, uid, port, false), false)]);
    v
}

/// Flushes the whole nat OUTPUT chain, so no REDIRECT survives shutdown.
pub fn iptables_flush_output() -> (r: Vec<SysCommand>)
    ensures
        cmds_view(r@) == seq![("iptables"@, seq!["-t"@, "nat"@, "-F"@, "OUTPUT"@], false)],
{
    let args = vec![lit("-t"), lit("nat"), lit("-F"), lit("OUTPUT")];
    assert(views(args@) =~= seq!["-t"@, "nat"@, "-F"@, "OUTPUT"@]);
    let v = vec![command("iptables", args, false)];
    assert(cmds_view(v@) =~= seq![("iptables"@, seq!["-t"@, "nat"@, "-F"@, "OUTPUT"@], false)]);
    v
}

/// The system-wide rule as `iptables_enable` adds it when the `-C` check
/// finds none: the whole rule is passed as one argument after `-t nat`.
pub open spec fn enable_rule_text(uid: u32, port: u16) -> Seq<char> {
    "-A OUTPUT -p tcp -m multiport --dports 80,443 -m owner ! --uid-owner "@ + dec(uid as nat)
        + " -j REDIRECT --to-ports "@ + dec(port as nat)
}

pub fn iptables_enable_add(uid: u32, port: u16) -> (r: SysCommand)
    ensures
        cmd_view(r) == ("iptables"@, seq!["-t"@, "nat"@, enable_rule_text(uid, port)], true),
{
    let mut v = chars_of("-A OUTPUT -p tcp -m multiport --dports 80,443 -m owner ! --uid-owner ");
    let u = crate::text::dec_chars(uid as u64);
    extend(&mut v, u.as_slice());
    let m = chars_of(" -j REDIRECT --to-ports ");
    extend(&mut v, m.as_slice());
    let p = crate::text::dec_chars(port as u64);
    extend(&mut v, p.as_slice());
    let args = vec![lit("-t"), lit("nat"), string_of(v.as_slice())];
    assert(views(args@) =~= seq!["-t"@, "nat"@, enable_rule_text(uid, port)]);
    command("iptables", args, true)
}

/// The test `iptables_enable` runs first: is the system-wide rule there?
pub fn iptables_enable_check(uid: u32, port: u16) -> (r: SysCommand)
    ensures
        cmd_view(r) == ("iptables"@, redirect_text("-C"@, uid, port, true), false),
{
    command("iptables", redirect_args("-C", uid, port, true), false)
}

/// The current user's id from the output of `id -u` (`None` when it was
/// not UTF-8): its trimmed text as a number, else 1000.
pub open spec fn uid_from_text(out: Option<Seq<char>>) -> u32 {
    match out {
        Some(s) => match parse_uint(trim(s), u32::MAX as nat) {
            Some(n) => n as u32,
            None => 1000,
        },
        None => 1000,
    }
}

pub fn uid_from_id_output(out: Option<&str>) -> (r: u32)
    ensures
        r == uid_from_text(
            match out {
                Some(s) => Some(s@),
                None => None,
            },
        ),
{
    match out {
        Some(s) => {
            let v = chars_of(s);
            let t = trim_chars(v.as_slice());
            match parse_uint_chars(t.as_slice(), u32::MAX as u64) {
                Some(n) => n as u32,
                None => 1000,
            }
        },
        None => 1000,
    }
}

/// How a command is tried with privileges, in order: plainly, through
/// pkexec when it is installed, through passwordless sudo, and plainly
/// once more (file capabilities may suffice). The first attempt that
/// succeeds ends the chain; the last attempt's outcome is taken as it is.
pub open spec fn root_attempts_text(cmd: Seq<char>, args: Seq<Seq<char>>, pkexec: bool) -> Seq<(Seq<char>, Seq<Seq<char>>)> {
    seq![(cmd, args)] + (if pkexec {
        seq![("pkexec"@, seq![cmd] + args)]
    } else {
        seq![]
    }) + seq![("sudo"@, seq!["-n"@, cmd] + args), (cmd, args)]
}

pub open spec fn attempt_views(v: Seq<(String, Vec<String>)>) -> Seq<(Seq<char>, Seq<Seq<char>>)> {
    v.map_values(|a: (String, Vec<String>)| (a.0@, views(a.1@)))
}

fn copy_args(args: &[String]) -> (r: Vec<String>)
    ensures
        views(r@) == views(args@),
{
    let mut v: Vec<String> = Vec::new();
    let mut i: usize = 0;
    while i < args.len()
        invariant
            i <= args.len(),
            views(v@) == views(args@).take(i as int),
        decreases args.len() - i,
    {
        let ghost before = v@;
        v.push(args[i].clone());
        assert(views(v@) == views(before).push(args@[i as int]@));
        assert(views(args@).take(i + 1) == views(args@).take(i as int).push(args@[i as int]@));
        i = i + 1;
    }
    assert(views(args@).take(args.len() as int) == views(args@));
    v
}

fn prepend(head: Vec<String>, args: &[String]) -> (r: Vec<String>)
    ensures
        views(r@) == views(head@) + views(args@),
{
    let mut v = head;
    let ghost h = views(v@);
    let mut i: usize = 0;
    while i < args.len()
        invariant
            i <= args.len(),
            views(v@) == h + views(args@).take(i as int),
        decreases args.len() - i,
    {
        let ghost before = v@;
        v.push(args[i].clone());
        assert(views(v@) == views(before).push(args@[i as int]@));
        assert(views(args@).take(i + 1) == views(args@).take(i as int).push(args@[i as int]@));
        i = i + 1;
    }
    assert(views(args@).take(args.len() as int) == views(args@));
    v
}

pub fn root_attempts(cmd: &str, args: &[String], pkexec_available: bool) -> (r: Vec<(String, Vec<String>)>)
    ensures
        attempt_views(r@) == root_attempts_text(cmd@, views(args@), pkexec_available),
{
    let ghost a = views(args@);
    let plain = (lit(cmd), copy_args(args));
    let pk_head = vec![lit(cmd)];
    assert(views(pk_head@) =~= seq![cmd@]);
    let pk = (lit("pkexec"), prepend(pk_head, args));
    let sudo_head = vec![lit("-n"), lit(cmd)];
    assert(views(sudo_head@) =~= seq!["-n"@, cmd@]);
    let sudo = (lit("sudo"), prepend(sudo_head, args));
    let last = (lit(cmd), copy_args(args));
    let mut v: Vec<(String, Vec<String>)> = Vec::new();
    v.push(plain);
    if pkexec_available {
        v.push(pk);
    }
    v.push(sudo);
    v.push(last);
    assert(attempt_views(v@) =~= root_attempts_text(cmd@, views(args@), pkexec_available));
    v
}

/// Removes the DNS drop-in that an earlier version installed.
pub fn cleanup_stale() -> (r: SysCommand)
    ensures
        cmd_view(r) == ("rm"@, seq!["-f"@, "/etc/systemd/resolved.conf.d/unblocker.conf"@], true),
{
    let args = vec![lit("-f"), lit("/etc/systemd/resolved.conf.d/unblocker.conf")];
    assert(views(args@) =~= seq!["-f"@, "/etc/systemd/resolved.conf.d/unblocker.conf"@]);
    command("rm", args, true)
}

/// Removes the state file with privileges, for when a plain removal failed
/// (the file may belong to root after a privileged run).
pub fn clear_state_inline(state_path: &str) -> (r: SysCommand)
    ensures
        cmd_view(r) == ("rm"@, seq!["-f"@, state_path@], true),
{
    let args = vec![lit("-f"), lit(state_path)];
    assert(views(args@) =~= seq!["-f"@, state_path@]);
    command("rm", args, true)
}

/// Turning on system DNS-over-HTTPS is left to the browser or the OS; the
/// call always succeeds and changes nothing.
pub fn doh_enable(_primary: &str, _ru: &str) -> (r: Result<(), String>)
    ensures
        r is Ok,
{
    Ok(())
}

/// The counterpart of `doh_enable`: nothing to undo.
pub fn doh_disable() -> (r: Result<(), String>)
    ensures
        r is Ok,
{
    Ok(())
}

/// The bypass is on exactly while its state file exists.
pub fn is_enabled(state_file_exists: bool) -> (r: bool)
    ensures
        r == state_file_exists,
{
    state_file_exists
}

/// The proxy address handed to desktop programs.
pub open spec fn proxy_url_text(port: u16) -> Seq<char> {
    "socks5h://127.0.0.1:"@ + dec(port as nat)
}

pub fn proxy_url(port: u16) -> (r: String)
    ensures
        r@ == proxy_url_text(port),
{
    let mut v = chars_of("socks5h://127.0.0.1:");
    let p = crate::text::dec_chars(port as u64);
    extend(&mut v, p.as_slice());
    string_of(v.as_slice())
}

/// The desktop proxy settings (gsettings arguments), in the order they are
/// set: manual mode, the local host for each protocol, its port, and the
/// hosts that bypass it. None of this applies when running as root.
pub open spec fn proxy_settings_text(port: u16) -> Seq<Seq<Seq<char>>> {
    let host = "'127.0.0.1'"@;
    let p = dec(port as nat);
    seq![
        seq!["set"@, "org.gnome.system.proxy"@, "mode"@, "'manual'"@],
        seq!["set"@, "org.gnome.system.proxy.http"@, "host"@, host],
        seq!["set"@, "org.gnome.system.proxy.https"@, "host"@, host],
        seq!["set"@, "org.gnome.system.proxy.socks"@, "host"@, host],
        seq!["set"@, "org.gnome.system.proxy.ftp"@, "host"@, host],
        seq!["set"@, "org.gnome.system.proxy.http"@, "port"@, p],
        seq!["set"@, "org.gnome.system.proxy.https"@, "port"@, p],
        seq!["set"@, "org.gnome.system.proxy.socks"@, "port"@, p],
        seq!["set"@, "org.gnome.system.proxy.ftp"@, "port"@, p],
        seq!["set"@, "org.gnome.system.proxy"@, "ignore-hosts"@, "['localhost', '127.0.0.0/8', '::1']"@],
    ]
}

pub open spec fn arg_lists(v: Seq<Vec<String>>) -> Seq<Seq<Seq<char>>> {
    v.map_values(|a: Vec<String>| views(a@))
}

fn setting(schema: &str, key: &str, value: String) -> (r: Vec<String>)
    ensures
        views(r@) == seq!["set"@, schema@, key@, value@],
{
    let r = vec![lit("set"), lit(schema), lit(key), value];
    assert(views(r@) =~= seq!["set"@, schema@, key@, value@]);
    r
}

pub fn proxy_settings(port: u16) -> (r: Vec<Vec<String>>)
    ensures
        arg_lists(r@) == proxy_settings_text(port),
{
    let r = vec![
        setting("org.gnome.system.proxy", "mode", lit("'manual'")),
        setting("org.gnome.system.proxy.http", "host", lit("'127.0.0.1'")),
        setting("org.gnome.system.proxy.https", "host", lit("'127.0.0.1'")),
        setting("org.gnome.system.proxy.socks", "host", lit("'127.0.0.1'")),
        setting("org.gnome.system.proxy.ftp", "host", lit("'127.0.0.1'")),
        setting("org.gnome.system.proxy.http", "port", dec_string(port as u64)),
        setting("org.gnome.system.proxy.https", "port", dec_string(port as u64)),
        setting("org.gnome.system.proxy.socks", "port", dec_string(port as u64)),
        setting("org.gnome.system.proxy.ftp", "port", dec_string(port as u64)),
        setting("org.gnome.system.proxy", "ignore-hosts", lit("['localhost', '127.0.0.0/8', '::1']")),
    ];
    assert(arg_lists(r@) =~= proxy_settings_text(port));
    r
}

/// The environment variables pointed at the proxy in the running process.
pub open spec fn proxy_enable_names() -> Seq<Seq<char>> {
    seq!["socks_proxy"@, "SOCKS_PROXY"@, "ALL_PROXY"@, "all_proxy"@]
}

pub fn proxy_env_names() -> (r: Vec<String>)
    ensures
        views(r@) == proxy_enable_names(),
{
    let r = vec![lit("socks_proxy"), lit("SOCKS_PROXY"), lit("ALL_PROXY"), lit("all_proxy")];
    assert(views(r@) =~= proxy_enable_names());
    r
}

/// The environment.d file (`~/.config/environment.d/unblocker.conf`) that
/// carries the proxy into new sessions.
pub open spec fn environment_d_text(port: u16) -> Seq<char> {
    "socks_proxy="@ + proxy_url_text(port) + "\nSOCKS_PROXY="@ + proxy_url_text(port) + "\nall_proxy="@
        + proxy_url_text(port) + "\n"@
}

pub fn environment_d_content(port: u16) -> (r: String)
    ensures
        r@ == environment_d_text(port),
{
    let u = chars_of(proxy_url(port).as_str());
    let mut v = chars_of("socks_proxy=");
    extend(&mut v, u.as_slice());
    let a = chars_of("\nSOCKS_PROXY=");
    extend(&mut v, a.as_slice());
    extend(&mut v, u.as_slice());
    let b = chars_of("\nall_proxy=");
    extend(&mut v, b.as_slice());
    extend(&mut v, u.as_slice());
    let c = chars_of("\n");
    extend(&mut v, c.as_slice());
    string_of(v.as_slice())
}

/// Turning the desktop proxy off: mode back to none; these variables are
/// removed from the process environment.
pub fn proxy_disable_setting() -> (r: Vec<String>)
    ensures
        views(r@) == seq!["set"@, "org.gnome.system.proxy"@, "mode"@, "'none'"@],
{
    setting("org.gnome.system.proxy", "mode", lit("'none'"))
}

pub open spec fn proxy_disable_names() -> Seq<Seq<char>> {
    seq!["http_proxy"@, "https_proxy"@, "HTTP_PROXY"@, "HTTPS_PROXY"@, "socks_proxy"@, "SOCKS_PROXY"@, "ALL_PROXY"@,
        "all_proxy"@]
}

pub fn proxy_disable_env_names() -> (r: Vec<String>)
    ensures
        views(r@) == proxy_disable_names(),
{
    let r = vec![lit("http_proxy"), lit("https_proxy"), lit("HTTP_PROXY"), lit("HTTPS_PROXY"), lit("socks_proxy"),
        lit("SOCKS_PROXY"), lit("ALL_PROXY"), lit("all_proxy")];
    assert(views(r@) =~= proxy_disable_names());
    r
}

/// Turning the proxy off removes every variable that turning it on set.
pub proof fn lemma_disable_unsets_enabled_vars()
    ensures
        forall|k: int| 0 <= k < proxy_enable_names().len() ==> proxy_disable_names().contains(
            #[trigger] proxy_enable_names()[k],
        ),
{
    let d = proxy_disable_names();
    let e = proxy_enable_names();
    assert(e[0] == d[4]);
    assert(e[1] == d[5]);
    assert(e[2] == d[6]);
    assert(e[3] == d[7]);
}

/// The steps of turning everything off.
pub enum TeardownStep {
    /// Run a command (failure ignored).
    Run(SysCommand),
    /// Turn the desktop proxy off (`proxy_disable_setting`).
    DisableSystemProxy,
    /// Remove the marker block from /etc/hosts and restore nsswitch.conf.
    RemoveHostsBlock,
    /// Remove the state file (`clear_state_inline` when a plain removal fails).
    ClearState,
}

pub enum StepView {
    Run((Seq<char>, Seq<Seq<char>>, bool)),
    DisableSystemProxy,
    RemoveHostsBlock,
    ClearState,
}

pub open spec fn step_view(s: TeardownStep) -> StepView {
    match s {
        TeardownStep::Run(c) => StepView::Run(cmd_view(c)),
        TeardownStep::DisableSystemProxy => StepView::DisableSystemProxy,
        TeardownStep::RemoveHostsBlock => StepView::RemoveHostsBlock,
        TeardownStep::ClearState => StepView::ClearState,
    }
}

pub open spec fn teardown_view(v: Seq<TeardownStep>) -> Seq<StepView> {
    v.map_values(|s: TeardownStep| step_view(s))
}

/// Turning everything off, in order: the REDIRECT goes first, so traffic
/// flows directly even if the engine is already dead; then the desktop
/// proxy, the hosts block and the state file; then the engines are killed
/// (the byedpi process, then nfqws) and the queue table is deleted last.
pub open spec fn teardown_plan(port: u16, uid: u32) -> Seq<StepView> {
    seq![
        StepView::Run(("iptables"@, redirect_text("-D"@, uid, port, true), false)),
        StepView::Run(("iptables"@, redirect_text("-D"@, uid, port, true), true)),
        StepView::DisableSystemProxy,
        StepView::RemoveHostsBlock,
        StepView::ClearState,
        StepView::Run(("pkill"@, seq!["-f"@, "ciadpi"@], false)),
        StepView::Run(("pkill"@, seq!["-9"@, "-x"@, "nfqws"@], true)),
        StepView::Run(("nft"@, seq!["delete"@, "table"@, "inet"@, "unblocker"@], true)),
    ]
}

pub fn disable_all(port: u16, uid: u32) -> (r: Vec<TeardownStep>)
    ensures
        teardown_view(r@) == teardown_plan(port, uid),
{
    let first = command("iptables", redirect_args("-D", uid, port, true), false);
    let second = command("iptables", redirect_args("-D", uid, port, true), true);
    let kill = command("pkill", vec![lit("-f"), lit("ciadpi")], false);
    assert(views(kill.args@) =~= seq!["-f"@, "ciadpi"@]);
    let kill_nfqws = command("pkill", vec![lit("-9"), lit("-x"), lit("nfqws")], true);
    assert(views(kill_nfqws.args@) =~= seq!["-9"@, "-x"@, "nfqws"@]);
    let drop_table = command("nft", vec![lit("delete"), lit("table"), lit("inet"), lit("unblocker")], true);
    assert(views(drop_table.args@) =~= seq!["delete"@, "table"@, "inet"@, "unblocker"@]);
    let r = vec![
        TeardownStep::Run(first),
        TeardownStep::Run(second),
        TeardownStep::DisableSystemProxy,
        TeardownStep::RemoveHostsBlock,
        TeardownStep::ClearState,
        TeardownStep::Run(kill),
        TeardownStep::Run(kill_nfqws),
        TeardownStep::Run(drop_table),
    ];
    assert(teardown_view(r@) =~= teardown_plan(port, uid));
    r
}

/// Teardown removes the REDIRECT before anything else; no process is killed
/// before the proxy, the hosts block and the state are gone; nfqws is
/// killed and then the table `inet unblocker` is deleted, as the last step.
pub proof fn lemma_teardown_order(port: u16, uid: u32)
    ensures
        ({
            let p = teardown_plan(port, uid);
            &&& p[0] matches StepView::Run(c) && c.1.contains("-D"@) && c.1.contains("REDIRECT"@)
            &&& forall|i: int| 0 <= i < 5 ==> !(#[trigger] p[i] matches StepView::Run(c) && c.0 == "pkill"@)
            &&& p[2] == StepView::DisableSystemProxy && p[3] == StepView::RemoveHostsBlock && p[4] == StepView::ClearState
            &&& p[p.len() - 2] == StepView::Run(("pkill"@, seq!["-9"@, "-x"@, "nfqws"@], true))
            &&& p.last() == StepView::Run(("nft"@, seq!["delete"@, "table"@, "inet"@, "unblocker"@], true))
        }),
{
    let p = teardown_plan(port, uid);
    let t = redirect_text("-D"@, uid, port, true);
    assert(t[2] == "-D"@);
    assert(t[16] == "REDIRECT"@);
    reveal_strlit("iptables");
    reveal_strlit("pkill");
    assert("iptables"@.len() != "pkill"@.len());
}

/// Where the engine binary is looked for, in order: next to the running
/// program and up to three levels above it (a source tree), then the
/// configured path and the usual install places.
pub open spec fn byedpi_candidates_text(exe_dir: Option<Seq<char>>, configured: Seq<char>) -> Seq<Seq<char>> {
    (match exe_dir {
        Some(d) => seq![
            join_text(d, "vendor/byedpi/ciadpi"@),
            join_text(d, "../vendor/byedpi/ciadpi"@),
            join_text(d, "../../vendor/byedpi/ciadpi"@),
            join_text(d, "../../../vendor/byedpi/ciadpi"@),
        ],
        None => seq![],
    }) + seq![configured, "vendor/byedpi/ciadpi"@, "/usr/local/bin/ciadpi"@, "/usr/bin/ciadpi"@, "/usr/bin/byedpi"@]
}

pub fn byedpi_candidates(exe_dir: Option<&str>, configured: &str) -> (r: Vec<String>)
    ensures
        views(r@) == byedpi_candidates_text(
            match exe_dir {
                Some(d) => Some(d@),
                None => None,
            },
            configured@,
        ),
{
    let mut v: Vec<String> = Vec::new();
    match exe_dir {
        Some(d) => {
            v.push(path_join(d, "vendor/byedpi/ciadpi"));
            v.push(path_join(d, "../vendor/byedpi/ciadpi"));
            v.push(path_join(d, "../../vendor/byedpi/ciadpi"));
            v.push(path_join(d, "../../../vendor/byedpi/ciadpi"));
        },
        None => {},
    }
    v.push(lit(configured));
    v.push(lit("vendor/byedpi/ciadpi"));
    v.push(lit("/usr/local/bin/ciadpi"));
    v.push(lit("/usr/bin/ciadpi"));
    v.push(lit("/usr/bin/byedpi"));
    assert(views(v@) =~= byedpi_candidates_text(
        match exe_dir {
            Some(d) => Some(d@),
            None => None,
        },
        configured@,
    ));
    v
}

/// The engine binary: the first candidate that exists (`exists` says which
/// do, in order), else the configured path.
pub fn find_byedpi_bin(exe_dir: Option<&str>, configured: &str, exists: &[bool]) -> (r: String)
    ensures
        r@ == first_existing(
            byedpi_candidates_text(
                match exe_dir {
                    Some(d) => Some(d@),
                    None => None,
                },
                configured@,
            ),
            exists@,
            configured@,
        ),
{
    let c = byedpi_candidates(exe_dir, configured);
    pick_existing(&c, exists, lit(configured))
}

/// The directories searched for static host lists; only the first that
/// exists is read.
pub open spec fn static_dirs_text() -> Seq<Seq<char>> {
    seq!["config/hosts"@, "/etc/unblocker/hostlists"@]
}

pub open spec fn first_existing_opt(cands: Seq<Seq<char>>, exists: Seq<bool>) -> Option<Seq<char>>
    decreases cands.len(),
{
    if cands.len() == 0 || exists.len() == 0 {
        None
    } else if exists[0] {
        Some(cands[0])
    } else {
        first_existing_opt(cands.drop_first(), exists.drop_first())
    }
}

pub fn static_hosts_dir(exists: &[bool]) -> (r: Option<String>)
    ensures
        match r {
            Some(d) => first_existing_opt(static_dirs_text(), exists@) == Some(d@),
            None => first_existing_opt(static_dirs_text(), exists@) is None,
        },
{
    proof {
        reveal_with_fuel(first_existing_opt, 3);
    }
    if exists.len() > 0 && exists[0] {
        Some(lit("config/hosts"))
    } else if exists.len() > 1 && exists[1] {
        assert(exists@.drop_first()[0] == exists@[1]);
        Some(lit("/etc/unblocker/hostlists"))
    } else {
        if exists.len() > 0 {
            assert(exists@.drop_first().len() == 0 || !exists@.drop_first()[0]);
            assert(static_dirs_text().drop_first().drop_first().len() == 0);
        }
        None
    }
}

/// What the watchdog does on each tick.
#[derive(Clone, Copy, Debug, PartialEq, Eq, Structural)]
pub enum WatchAction {
    /// The bypass was turned off: stop watching.
    Stop,
    /// The engine no longer answers: remove the REDIRECT so traffic is not
    /// black-holed.
    RemoveRedirect,
    /// All is well.
    Continue,
}

pub fn watchdog_step(state_file_exists: bool, engine_alive: bool) -> (r: WatchAction)
    ensures
        !state_file_exists ==> r == WatchAction::Stop,
        state_file_exists && !engine_alive ==> r == WatchAction::RemoveRedirect,
        state_file_exists && engine_alive ==> r == WatchAction::Continue,
{
    if !state_file_exists {
        WatchAction::Stop
    } else if !engine_alive {
        WatchAction::RemoveRedirect
    } else {
        WatchAction::Continue
    }
}

/// A lower-case hex digit.
pub open spec fn hex_digit(d: int) -> char {
    if d < 10 {
        ((48 + d) as u32) as char
    } else {
        ((87 + d) as u32) as char
    }
}

/// How a JSON string writes one character: a quote and a backslash behind
/// a backslash; backspace, tab, newline, form feed and carriage return as a
/// backslash and `b`, `t`, `n`, `f`, `r`; other control characters as a
/// backslash, `u00` and two lower-case hex digits; every other character
/// as itself.
pub open spec fn json_char(c: char) -> Seq<char> {
    if c == '"' {
        seq!['\\', '"']
    } else if c == '\\' {
        seq!['\\', '\\']
    } else if c == '\u{8}' {
        seq!['\\', 'b']
    } else if c == '\t' {
        seq!['\\', 't']
    } else if c == '\n' {
        seq!['\\', 'n']
    } else if c == '\u{c}' {
        seq!['\\', 'f']
    } else if c == '\r' {
        seq!['\\', 'r']
    } else if (c as u32) < 0x20 {
        seq!['\\', 'u', '0', '0', hex_digit((c as u32) as int / 16), hex_digit((c as u32) as int % 16)]
    } else {
        seq![c]
    }
}

/// The characters of a JSON string's body for `s`.
pub open spec fn json_escaped(s: Seq<char>) -> Seq<char>
    decreases s.len(),
{
    if s.len() == 0 {
        seq![]
    } else {
        json_escaped(s.drop_last()) + json_char(s.last())
    }
}

/// The text `serde_json::to_string_pretty` gives for the JSON object
/// `{"port": port, "profile": profile, "pid": pid}`: keys in sorted order
/// (the map is a `BTreeMap`), each on its own line indented by two spaces,
/// numbers in decimal, the profile as a JSON string.
pub open spec fn state_json_text(port: u16, profile: Seq<char>, pid: u32) -> Seq<char> {
    "{\n  \"pid\": "@ + dec(pid as nat) + ",\n  \"port\": "@ + dec(port as nat) + ",\n  \"profile\": \""@
        + json_escaped(profile) + "\"\n}"@
}

/// Builds the object with `serde_json::Map` and renders it with
/// `serde_json::to_string_pretty`; the contract states the text it gives
/// (`state_json_text`).
#[verifier::external_body]
fn state_json(port: u16, profile: &str, pid: u32) -> (r: String)
    ensures
        r@ == state_json_text(port, profile@, pid),
{
    let mut m = serde_json::Map::new();
    m.insert("port".to_string(), serde_json::Value::from(port));
    m.insert("profile".to_string(), serde_json::Value::from(profile));
    m.insert("pid".to_string(), serde_json::Value::from(pid));
    serde_json::to_string_pretty(&serde_json::Value::Object(m)).unwrap_or_default()
}

/// The state file's text: the SOCKS port, the profile in use and the id
/// of the process that wrote it, as pretty-printed JSON.
pub fn state_record(port: u16, profile: &str, pid: u32) -> (r: String)
    ensures
        r@ == state_json_text(port, profile@, pid),
{
    state_json(port, profile, pid)
}

fn copy_command(from: &str, to: &str) -> (r: SysCommand)
    ensures
        cmd_view(r) == ("cp"@, seq![from@, to@], true),
{
    let args = vec![lit(from), lit(to)];
    assert(views(args@) =~= seq![from@, to@]);
    command("cp", args, true)
}

/// Where new /etc/hosts text is staged before it is copied into place.
pub open spec fn hosts_staging() -> Seq<char> {
    "/tmp/unblocker.hosts.new"@
}

/// Copies the staged hosts text over /etc/hosts with privileges (when
/// that fails, the text is written directly, which works as root).
pub fn hosts_copy_command() -> (r: SysCommand)
    ensures
        cmd_view(r) == ("cp"@, seq![hosts_staging(), "/etc/hosts"@], true),
{
    copy_command("/tmp/unblocker.hosts.new", "/etc/hosts")
}

/// Backing up nsswitch.conf before changing it (only when no backup
/// exists): a privileged copy to a temporary file, which the caller then
/// copies to `/etc/nsswitch.conf.unblocker-backup`.
pub fn nsswitch_backup_command() -> (r: SysCommand)
    ensures
        cmd_view(r) == ("cp"@, seq!["/etc/nsswitch.conf"@, "/tmp/unblocker.nsswitch.bak"@], true),
{
    copy_command("/etc/nsswitch.conf", "/tmp/unblocker.nsswitch.bak")
}

/// Installing the fixed text, staged in a temporary file.
pub fn nsswitch_write_command() -> (r: SysCommand)
    ensures
        cmd_view(r) == ("cp"@, seq!["/tmp/unblocker.nsswitch.new"@, "/etc/nsswitch.conf"@], true),
{
    copy_command("/tmp/unblocker.nsswitch.new", "/etc/nsswitch.conf")
}

/// Restoring the backup: copied out to a temporary file, then over
/// nsswitch.conf; the backup is removed once both copies succeeded.
pub fn nsswitch_restore_commands() -> (r: Vec<SysCommand>)
    ensures
        cmds_view(r@) == seq![
            ("cp"@, seq!["/etc/nsswitch.conf.unblocker-backup"@, "/tmp/unblocker.nsswitch.restore"@], true),
            ("cp"@, seq!["/tmp/unblocker.nsswitch.restore"@, "/etc/nsswitch.conf"@], true),
        ],
{
    let v = vec![
        copy_command("/etc/nsswitch.conf.unblocker-backup", "/tmp/unblocker.nsswitch.restore"),
        copy_command("/tmp/unblocker.nsswitch.restore", "/etc/nsswitch.conf"),
    ];
    assert(cmds_view(v@) =~= seq![
        ("cp"@, seq!["/etc/nsswitch.conf.unblocker-backup"@, "/tmp/unblocker.nsswitch.restore"@], true),
        ("cp"@, seq!["/tmp/unblocker.nsswitch.restore"@, "/etc/nsswitch.conf"@], true),
    ]);
    v
}

/// After nsswitch.conf changes, systemd-resolved's cache is flushed.
pub fn resolver_flush_command() -> (r: SysCommand)
    ensures
        cmd_view(r) == ("resolvectl"@, seq!["flush-caches"@], false),
{
    let args = vec![lit("flush-caches")];
    assert(views(args@) =~= seq!["flush-caches"@]);
    command("resolvectl", args, false)
}

} // verus!
