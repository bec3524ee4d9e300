//! The byedpi desync engine's configuration: its command line and its
//! SOCKS address, and the pool of candidate strategies.
use vstd::prelude::*;
use crate::text::{chars_of, contains, contains_chars, dec, dec_string, string_of, views, cviews, split_ws, split_ws_chars, has_char, has_char_exec, find_char_from, find_char_exec, lemma_find_char_from, eq_chars};
use crate::shell::{shell_split, shell_words};
use crate::config::{join_text, path_join};
use crate::zapret::{first_existing, pick_existing};

verus! {

/// A string made from a literal.
pub fn lit(s: &str) -> (r: String)
    ensures
        r@ == s@,
{
    String::from_str(s)
}

/// Where and how to run the byedpi engine.
#[derive(Clone, Debug)]
pub struct BypassConfig {
    pub bin: String,
    pub socks_addr: String,
    pub socks_port: u16,
    /// Raw byedpi args, e.g. "--disorder 1 --auto=torst --tlsrec 1+s"
    pub args: String,
    /// Use byedpi --transparent (raw TCP + SOCKS, accepts iptables REDIRECT)
    pub transparent: bool,
}

impl Default for BypassConfig {
    fn default() -> (r: Self)
        ensures
            r.bin@ == ""@,
            r.socks_addr@ == "127.0.0.1"@,
            r.socks_port == 1080,
            r.args@ == ""@,
            r.transparent,
    {
        BypassConfig {
            bin: lit(""),
            socks_addr: lit("127.0.0.1"),
            socks_port: 1080,
            args: lit(""),
            transparent: true,
        }
    }
}

/// `socks5://addr:port`.
pub open spec fn socks_url_text(addr: Seq<char>, port: u16) -> Seq<char> {
    "socks5://"@ + addr + seq![':'] + dec(port as nat)
}

/// The args already name a connect address (`--conn-ip`).
pub open spec fn names_conn_ip(args: Seq<char>) -> bool {
    contains(args, "--conn-ip"@) || contains(args, "conn-ip"@)
}

/// The command line of byedpi for a configuration: listen address and
/// port, `--transparent` when asked, the configured args split
/// shell-style, and `--conn-ip 0.0.0.0` unless the args name one.
pub open spec fn argv_text(addr: Seq<char>, port: u16, args: Seq<char>, transparent: bool) -> Seq<Seq<char>> {
    seq!["--ip"@, addr, "--port"@, dec(port as nat)] + (if transparent {
        seq!["--transparent"@]
    } else {
        seq![]
    }) + shell_split(args) + (if names_conn_ip(args) {
        seq![]
    } else {
        seq!["--conn-ip"@, "0.0.0.0"@]
    })
}

impl BypassConfig {
    pub fn socks_url(&self) -> (r: String)
        ensures
            r@ == socks_url_text(self.socks_addr@, self.socks_port),
    {
        let mut v = chars_of("socks5://");
        let a = chars_of(self.socks_addr.as_str());
        crate::text::extend(&mut v, a.as_slice());
        v.push(':');
        let p = crate::text::dec_chars(self.socks_port as u64);
        crate::text::extend(&mut v, p.as_slice());
        string_of(v.as_slice())
    }

    pub fn to_argv(&self) -> (r: Vec<String>)
        ensures
            views(r@) == argv_text(self.socks_addr@, self.socks_port, self.args@, self.transparent),
    {
        let mut v: Vec<String> = Vec::new();
        v.push(lit("--ip"));
        v.push(self.socks_addr.clone());
        v.push(lit("--port"));
        v.push(dec_string(self.socks_port as u64));
        assert(views(v@) =~= seq!["--ip"@, self.socks_addr@, "--port"@, dec(self.socks_port as nat)]);
        if self.transparent {
            let ghost before = v@;
            v.push(lit("--transparent"));
            assert(views(v@) == views(before).push("--transparent"@));
        }
        let a = chars_of(self.args.as_str());
        let c1 = chars_of("--conn-ip");
        let c2 = chars_of("conn-ip");
        let has_conn_ip = contains_chars(a.as_slice(), c1.as_slice()) || contains_chars(
            a.as_slice(),
            c2.as_slice(),
        );
        let ghost head = views(v@);
        let toks = shell_words(self.args.as_str());
        let mut i: usize = 0;
        while i < toks.len()
            invariant
                i <= toks.len(),
                views(v@) == head + views(toks@).take(i as int),
            decreases toks.len() - i,
        {
            let ghost before = v@;
            v.push(toks[i].clone());
            assert(views(v@) == views(before).push(toks@[i as int]@));
            assert(views(toks@).take(i + 1) == views(toks@).take(i as int).push(toks@[i as int]@));
            i = i + 1;
        }
        assert(views(toks@).take(toks.len() as int) == views(toks@));
        assert(views(v@) == head + shell_split(self.args@));
        if !has_conn_ip {
            let ghost before = v@;
            v.push(lit("--conn-ip"));
            v.push(lit("0.0.0.0"));
            assert(views(v@) == views(before).push("--conn-ip"@).push("0.0.0.0"@));
        }
        assert(views(v@) =~= argv_text(self.socks_addr@, self.socks_port, self.args@, self.transparent));
        v
    }
}

/// The candidate byedpi strategies that tuning scores, in order.
pub open spec fn candidate_pool_text() -> Seq<Seq<char>> {
    seq![
        "--tlsrec 1+s --conn-ip 0.0.0.0"@,
        "--fake -1 --ttl 8 --conn-ip 0.0.0.0"@,
        "--disorder 1 --tlsrec 1+s --conn-ip 0.0.0.0"@,
        "--disorder 1 --conn-ip 0.0.0.0"@,
        "--oob 3+s --conn-ip 0.0.0.0"@,
        "--fake -1 --md5sig --conn-ip 0.0.0.0"@,
        "--fake -1 --ttl 10 --conn-ip 0.0.0.0"@,
        "--disorder 1 --auto=torst --tlsrec 1+s --conn-ip 0.0.0.0"@,
        "--split 1+s --disorder 3+s --conn-ip 0.0.0.0"@,
    ]
}

pub fn candidate_pool() -> (r: Vec<String>)
    ensures
        views(r@) == candidate_pool_text(),
{
    let r = vec![
        lit("--tlsrec 1+s --conn-ip 0.0.0.0"),
        lit("--fake -1 --ttl 8 --conn-ip 0.0.0.0"),
        lit("--disorder 1 --tlsrec 1+s --conn-ip 0.0.0.0"),
        lit("--disorder 1 --conn-ip 0.0.0.0"),
        lit("--oob 3+s --conn-ip 0.0.0.0"),
        lit("--fake -1 --md5sig --conn-ip 0.0.0.0"),
        lit("--fake -1 --ttl 10 --conn-ip 0.0.0.0"),
        lit("--disorder 1 --auto=torst --tlsrec 1+s --conn-ip 0.0.0.0"),
        lit("--split 1+s --disorder 3+s --conn-ip 0.0.0.0"),
    ];
    assert(views(r@) =~= candidate_pool_text());
    r
}

/// Where the engine binary is looked for, in order: beside the running
/// program and up to two levels above it, then the source tree's build
/// outputs, then the usual install places.
pub open spec fn byedpi_paths_text(exe_dir: Option<Seq<char>>, root: Seq<char>) -> Seq<Seq<char>> {
    (match exe_dir {
        Some(d) => seq![
            join_text(d, "vendor/byedpi/ciadpi"@),
            join_text(d, "../vendor/byedpi/ciadpi"@),
            join_text(d, "../../vendor/byedpi/ciadpi"@),
        ],
        None => seq![],
    }) + seq![
        join_text(root, "vendor/byedpi/ciadpi"@),
        join_text(root, "vendor/byedpi/byedpi"@),
        join_text(root, "vendor/byedpi/build/ciadpi"@),
        "/usr/local/bin/ciadpi"@,
        "/usr/bin/ciadpi"@,
        "/usr/bin/byedpi"@,
    ]
}

pub fn byedpi_paths(exe_dir: Option<&str>, root: &str) -> (r: Vec<String>)
    ensures
        views(r@) == byedpi_paths_text(crate::api::opt_str(exe_dir), root@),
{
    let mut v: Vec<String> = Vec::new();
    match exe_dir {
        Some(d) => {
            v.push(path_join(d, "vendor/byedpi/ciadpi"));
            v.push(path_join(d, "../vendor/byedpi/ciadpi"));
            v.push(path_join(d, "../../vendor/byedpi/ciadpi"));
        },
        None => {},
    }
    v.push(path_join(root, "vendor/byedpi/ciadpi"));
    v.push(path_join(root, "vendor/byedpi/byedpi"));
    v.push(path_join(root, "vendor/byedpi/build/ciadpi"));
    v.push(lit("/usr/local/bin/ciadpi"));
    v.push(lit("/usr/bin/ciadpi"));
    v.push(lit("/usr/bin/byedpi"));
    assert(views(v@) =~= byedpi_paths_text(crate::api::opt_str(exe_dir), root@));
    v
}

/// The engine binary: the first path that exists (`exists` says which do,
/// in order; the caller checks again after trying to build it from the
/// source tree), else the source tree's default location.
pub fn ensure_byedpi(exe_dir: Option<&str>, root: &str, exists: &[bool]) -> (r: String)
    ensures
        r@ == first_existing(byedpi_paths_text(crate::api::opt_str(exe_dir), root@), exists@, join_text(root@, "vendor/byedpi/ciadpi"@)),
{
    let c = byedpi_paths(exe_dir, root);
    pick_existing(&c, exists, path_join(root, "vendor/byedpi/ciadpi"))
}

/// `make`'s arguments for building the engine in the source tree.
pub fn byedpi_make_args(root: &str) -> (r: Vec<String>)
    ensures
        views(r@) == seq!["-C"@, join_text(root@, "vendor/byedpi"@), "-j4"@],
{
    let r = vec![lit("-C"), path_join(root, "vendor/byedpi"), lit("-j4")];
    assert(views(r@) =~= seq!["-C"@, join_text(root@, "vendor/byedpi"@), "-j4"@]);
    r
}

// ---------------------------------------------------------------------------
// Embedded engine command line
// ---------------------------------------------------------------------------

/// Flags that would daemonize the engine; they are left out in-process.
pub open spec fn daemon_flag(t: Seq<char>) -> bool {
    t == "-D"@ || t == "--daemon"@ || t == "-w"@ || t == "--pidfile"@
}

pub open spec fn kept_args(ts: Seq<Seq<char>>) -> Seq<Seq<char>>
    decreases ts.len(),
{
    if ts.len() == 0 {
        seq![]
    } else if daemon_flag(ts.last()) {
        kept_args(ts.drop_last())
    } else {
        kept_args(ts.drop_last()).push(ts.last())
    }
}

/// The embedded engine is never told to daemonize or to write a pid file:
/// after its five leading words (program, `--ip`, address, `--port`,
/// port) its argv is exactly the whitespace-separated words of `args`, in
/// order, without any `-D`, `--daemon`, `-w` or `--pidfile`.
pub proof fn lemma_engine_argv_drops_daemon_flags(args: Seq<char>, ip: Seq<char>, port: Seq<char>)
    ensures
        engine_argv(args, ip, port).skip(5) == split_ws(args).filter(
            |w: Seq<char>| w != "-D"@ && w != "--daemon"@ && w != "-w"@ && w != "--pidfile"@,
        ),
        forall|k: int|
            5 <= k < engine_argv(args, ip, port).len() ==> {
                let w = #[trigger] engine_argv(args, ip, port)[k];
                w != "-D"@ && w != "--daemon"@ && w != "-w"@ && w != "--pidfile"@
            },
{
    let pred = |w: Seq<char>| w != "-D"@ && w != "--daemon"@ && w != "-w"@ && w != "--pidfile"@;
    lemma_kept_args_filter(split_ws(args));
    let e = engine_argv(args, ip, port);
    let kept = kept_args(split_ws(args));
    assert(e.skip(5) =~= kept);
    assert forall|k: int| 5 <= k < e.len() implies {
        let w = #[trigger] e[k];
        w != "-D"@ && w != "--daemon"@ && w != "-w"@ && w != "--pidfile"@
    } by {
        assert(e[k] == kept[k - 5]);
        split_ws(args).lemma_filter_pred(pred, k - 5);
    }
}

proof fn lemma_kept_args_filter(ts: Seq<Seq<char>>)
    ensures
        kept_args(ts) == ts.filter(
            |w: Seq<char>| w != "-D"@ && w != "--daemon"@ && w != "-w"@ && w != "--pidfile"@,
        ),
    decreases ts.len(),
{
    reveal(Seq::filter);
    if ts.len() > 0 {
        lemma_kept_args_filter(ts.drop_last());
    }
}

/// The first of the words that holds a NUL character, if any.
pub open spec fn first_with_nul(ts: Seq<Seq<char>>) -> Option<int>
    decreases ts.len(),
{
    if ts.len() == 0 {
        None
    } else {
        match first_with_nul(ts.drop_last()) {
            Some(i) => Some(i),
            None => if has_char(ts.last(), '\0') {
                Some(ts.len() - 1)
            } else {
                None
            },
        }
    }
}

/// A word that cannot be handed to the engine: it holds a NUL character.
pub struct ArgError {
    pub token: String,
    pub position: usize,
}

impl ArgError {
    /// `invalid arg '<token>': nul byte found in provided data at position: <n>`.
    pub fn message(&self) -> (r: String)
        ensures
            r@ == "invalid arg '"@ + self.token@ + "': nul byte found in provided data at position: "@
                + dec(self.position as nat),
    {
        let mut v = chars_of("invalid arg '");
        let t = chars_of(self.token.as_str());
        crate::text::extend(&mut v, t.as_slice());
        let m = chars_of("': nul byte found in provided data at position: ");
        crate::text::extend(&mut v, m.as_slice());
        let d = crate::text::dec_chars(self.position as u64);
        crate::text::extend(&mut v, d.as_slice());
        string_of(v.as_slice())
    }
}

/// The embedded engine's argv: program name, listen address and port, then
/// the words of `args` without daemonizing flags.
pub open spec fn engine_argv(args: Seq<char>, ip: Seq<char>, port: Seq<char>) -> Seq<Seq<char>> {
    seq!["ciadpi"@, "--ip"@, ip, "--port"@, port] + kept_args(split_ws(args))
}

fn is_daemon_flag(t: &[char]) -> (r: bool)
    ensures
        r == daemon_flag(t@),
{
    let a = chars_of("-D");
    let b = chars_of("--daemon");
    let c = chars_of("-w");
    let d = chars_of("--pidfile");
    eq_chars(t, a.as_slice()) || eq_chars(t, b.as_slice()) || eq_chars(t, c.as_slice())
        || eq_chars(t, d.as_slice())
}

/// Builds the argv for the embedded engine: `ciadpi --ip <ip> --port <port>`
/// and the whitespace-separated words of `args`, leaving out `-D`,
/// `--daemon`, `-w` and `--pidfile`. Fails on the first word that holds a
/// NUL character (it cannot become a C string).
pub fn build_argv(args: &str, ip: &str, port: &str) -> (r: Result<Vec<String>, ArgError>)
    ensures
        r matches Ok(v) ==> first_with_nul(kept_args(split_ws(args@))) is None && views(v@)
            == engine_argv(args@, ip@, port@),
        r matches Err(e) ==> first_with_nul(kept_args(split_ws(args@))) matches Some(k) && e.token@
            == kept_args(split_ws(args@))[k] && find_char_from(e.token@, '\0', 0) == Some(
            e.position as int,
        ),
{
    let mut v: Vec<String> = Vec::new();
    v.push(lit("ciadpi"));
    v.push(lit("--ip"));
    v.push(String::from_str(ip));
    v.push(lit("--port"));
    v.push(String::from_str(port));
    let a = chars_of(args);
    let toks = split_ws_chars(a.as_slice());
    let ghost ts = cviews(toks@);
    let ghost head = views(v@);
    let mut i: usize = 0;
    while i < toks.len()
        invariant
            i <= toks.len(),
            ts == cviews(toks@),
            ts == split_ws(a@),
            a@ == args@,
            views(v@) == head + kept_args(ts.take(i as int)),
            first_with_nul(kept_args(ts.take(i as int))) is None,
        decreases toks.len() - i,
    {
        let t = &toks[i];
        assert(ts.take(i + 1).drop_last() == ts.take(i as int));
        assert(ts.take(i + 1).last() == t@);
        if !is_daemon_flag(t.as_slice()) {
            match find_char_exec(t.as_slice(), '\0', 0) {
                Some(pos) => {
                    proof {
                        lemma_find_char_from(t@, '\0', 0);
                        assert(has_char(t@, '\0'));
                        let kt = kept_args(ts.take(i + 1));
                        assert(kt == kept_args(ts.take(i as int)).push(t@));
                        assert(kt.drop_last() == kept_args(ts.take(i as int)));
                        assert(kt.last() == t@);
                        assert(first_with_nul(kt) == Some(kt.len() - 1));
                        lemma_first_with_nul_prefix(ts, i as int + 1, toks.len() as int);
                        assert(kept_args(ts)[kt.len() - 1] == kt[kt.len() - 1]);
                        assert(ts == split_ws(args@));
                    }
                    return Err(ArgError { token: string_of(t.as_slice()), position: pos });
                },
                None => {
                    proof {
                        lemma_find_char_from(t@, '\0', 0);
                        let kt = kept_args(ts.take(i + 1));
                        assert(kt.drop_last() == kept_args(ts.take(i as int)));
                    }
                    let ghost before = v@;
                    v.push(string_of(t.as_slice()));
                    assert(views(v@) == views(before).push(t@));
                },
            }
        }
        i = i + 1;
    }
    assert(ts.take(toks.len() as int) == ts);
    assert(views(v@) =~= engine_argv(args@, ip@, port@));
    Ok(v)
}

/// The first NUL word among the kept words of a prefix stays the first one.
proof fn lemma_first_with_nul_prefix(ts: Seq<Seq<char>>, i: int, n: int)
    requires
        0 <= i <= n == ts.len(),
        first_with_nul(kept_args(ts.take(i))) is Some,
    ensures
        first_with_nul(kept_args(ts)) == first_with_nul(kept_args(ts.take(i))),
        kept_args(ts.take(i)).len() <= kept_args(ts).len(),
        forall|k: int| 0 <= k < kept_args(ts.take(i)).len() ==> kept_args(ts)[k] == kept_args(ts.take(i))[k],
    decreases n - i,
{
    if i < n {
        lemma_first_with_nul_prefix_step(ts, i);
        lemma_first_with_nul_prefix(ts, i + 1, n);
    } else {
        assert(ts.take(i) == ts);
    }
}

proof fn lemma_first_with_nul_prefix_step(ts: Seq<Seq<char>>, i: int)
    requires
        0 <= i < ts.len(),
        first_with_nul(kept_args(ts.take(i))) is Some,
    ensures
        first_with_nul(kept_args(ts.take(i + 1))) == first_with_nul(kept_args(ts.take(i))),
        kept_args(ts.take(i)).len() <= kept_args(ts.take(i + 1)).len(),
        forall|k: int| 0 <= k < kept_args(ts.take(i)).len() ==> kept_args(ts.take(i + 1))[k] == kept_args(ts.take(i))[k],
{
    assert(ts.take(i + 1).drop_last() == ts.take(i));
    let p = kept_args(ts.take(i));
    let q = kept_args(ts.take(i + 1));
    if !daemon_flag(ts.take(i + 1).last()) {
        assert(q == p.push(ts.take(i + 1).last()));
        assert(q.drop_last() == p);
    }
}

} // verus!
