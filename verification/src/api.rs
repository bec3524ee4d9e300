//! The logic behind the GUI's entry points: where the app keeps its files,
//! when a recorded session is stale, the Telegram proxy's port, secret and
//! link, and the SOCKS5 and HTTP exchanges of the diagnostics. The entry
//! points themselves, which do the I/O, call these.
use vstd::prelude::*;
use crate::text::{chars_of, string_of, extend, views, trim, trim_chars, trim_end, dec, dec_chars, dec_string,
    parse_uint, parse_uint_chars, str_eq, lines, lines_chars, contains, contains_chars, cviews};
use crate::config::{join_text, path_join, opt_view};
use crate::dns::encode_utf8_of;
use crate::bypass::lit;

verus! {

/// Where the app keeps its files.
#[derive(Clone, Debug)]
pub struct AppPaths {
    pub etc_dir: String,
    pub state_file: String,
    pub cache_dir: String,
    pub config_dir: Option<String>,
}

pub open spec fn paths_view(p: AppPaths) -> (Seq<char>, Seq<char>, Seq<char>, Option<Seq<char>>) {
    (p.etc_dir@, p.state_file@, p.cache_dir@, opt_view(p.config_dir))
}

fn clone_opt(o: &Option<String>) -> (r: Option<String>)
    ensures
        opt_view(r) == opt_view(*o),
{
    match o {
        Some(s) => Some(s.clone()),
        None => None,
    }
}

fn clone_paths(p: &AppPaths) -> (r: AppPaths)
    ensures
        paths_view(r) == paths_view(*p),
{
    AppPaths {
        etc_dir: p.etc_dir.clone(),
        state_file: p.state_file.clone(),
        cache_dir: p.cache_dir.clone(),
        config_dir: clone_opt(&p.config_dir),
    }
}

/// `s` without its trailing `/` characters.
pub open spec fn trim_slashes(s: Seq<char>) -> Seq<char>
    decreases s.len(),
{
    if s.len() > 0 && s.last() == '/' {
        trim_slashes(s.drop_last())
    } else {
        s
    }
}

/// The cache directory: `$XDG_CACHE_HOME/unblocker` when that variable is
/// set and not blank, else `~/.cache/unblocker`, else the system cache.
pub open spec fn cache_dir_text(xdg: Option<Seq<char>>, home: Option<Seq<char>>) -> Seq<char> {
    match xdg {
        Some(x) if trim(x).len() > 0 => trim_slashes(x) + "/unblocker"@,
        _ => match home {
            Some(h) => join_text(h, ".cache/unblocker"@),
            None => "/var/cache/unblocker"@,
        },
    }
}

pub open spec fn opt_str(o: Option<&str>) -> Option<Seq<char>> {
    match o {
        Some(s) => Some(s@),
        None => None,
    }
}

fn trim_slashes_chars(v: Vec<char>) -> (r: Vec<char>)
    ensures
        r@ == trim_slashes(v@),
{
    let mut v = v;
    let ghost orig = v@;
    while v.len() > 0 && v[v.len() - 1] == '/'
        invariant
            trim_slashes(v@) == trim_slashes(orig),
        decreases v.len(),
    {
        v.pop();
    }
    v
}

/// `xdg` is `$XDG_CACHE_HOME` and `home` the home directory, when known.
pub fn default_cache_dir(xdg: Option<&str>, home: Option<&str>) -> (r: String)
    ensures
        r@ == cache_dir_text(opt_str(xdg), opt_str(home)),
{
    match xdg {
        Some(x) => {
            let v = chars_of(x);
            let t = trim_chars(v.as_slice());
            if t.len() > 0 {
                let mut w = trim_slashes_chars(v);
                let tail = chars_of("/unblocker");
                extend(&mut w, tail.as_slice());
                return string_of(w.as_slice());
            }
        },
        None => {},
    }
    match home {
        Some(h) => path_join(h, ".cache/unblocker"),
        None => lit("/var/cache/unblocker"),
    }
}

pub open spec fn default_paths_view(xdg: Option<Seq<char>>, home: Option<Seq<char>>) -> (Seq<char>, Seq<char>, Seq<char>, Option<Seq<char>>) {
    ("/etc/unblocker"@, "/tmp/unblocker.state"@, cache_dir_text(xdg, home), None)
}

/// The desktop defaults.
pub fn default_paths(xdg: Option<&str>, home: Option<&str>) -> (r: AppPaths)
    ensures
        paths_view(r) == default_paths_view(opt_str(xdg), opt_str(home)),
{
    AppPaths {
        etc_dir: lit("/etc/unblocker"),
        state_file: lit("/tmp/unblocker.state"),
        cache_dir: default_cache_dir(xdg, home),
        config_dir: None,
    }
}

/// The paths in effect: those the app set, else the defaults.
pub fn paths(set: &Option<AppPaths>, xdg: Option<&str>, home: Option<&str>) -> (r: AppPaths)
    ensures
        paths_view(r) == match set {
            Some(p) => paths_view(*p),
            None => default_paths_view(opt_str(xdg), opt_str(home)),
        },
{
    match set {
        Some(p) => clone_paths(p),
        None => default_paths(xdg, home),
    }
}

/// A path handed in by the app counts when it is given and not empty.
pub open spec fn given(o: Option<Seq<char>>) -> bool {
    o matches Some(s) && s.len() > 0
}

/// The paths after the app points the engine at its own directories:
/// each given, non-empty path replaces the current one; the others stay.
pub open spec fn applied_paths(
    cur: (Seq<char>, Seq<char>, Seq<char>, Option<Seq<char>>),
    etc: Option<Seq<char>>,
    state: Option<Seq<char>>,
    cache: Option<Seq<char>>,
    config: Option<Seq<char>>,
) -> (Seq<char>, Seq<char>, Seq<char>, Option<Seq<char>>) {
    (
        if given(etc) { etc->0 } else { cur.0 },
        if given(state) { state->0 } else { cur.1 },
        if given(cache) { cache->0 } else { cur.2 },
        if given(config) { config } else { cur.3 },
    )
}

fn pick(given_path: Option<&str>, cur: &String) -> (r: String)
    ensures
        r@ == if given(opt_str(given_path)) { given_path->0@ } else { cur@ },
{
    match given_path {
        Some(s) => {
            let v = chars_of(s);
            if v.len() > 0 {
                lit(s)
            } else {
                cur.clone()
            }
        },
        None => cur.clone(),
    }
}

/// The result of the app setting its paths: the new paths, and whether
/// they differ from those in effect before (then the state file and the
/// config directory are switched over).
pub struct PathsUpdate {
    pub paths: AppPaths,
    pub changed: bool,
}

fn opt_eq(a: &Option<String>, b: &Option<String>) -> (r: bool)
    ensures
        r == (opt_view(*a) == opt_view(*b)),
{
    match (a, b) {
        (Some(x), Some(y)) => str_eq(x.as_str(), y.as_str()),
        (None, None) => true,
        _ => false,
    }
}

/// `prev` is what the app set before, if anything; the defaults come from
/// `xdg` and `home` as in `default_paths`.
pub fn apply_app_paths(
    prev: &Option<AppPaths>,
    xdg: Option<&str>,
    home: Option<&str>,
    etc: Option<&str>,
    state: Option<&str>,
    cache: Option<&str>,
    config: Option<&str>,
) -> (r: PathsUpdate)
    ensures
        paths_view(r.paths) == applied_paths(
            match prev {
                Some(p) => paths_view(*p),
                None => default_paths_view(opt_str(xdg), opt_str(home)),
            },
            opt_str(etc),
            opt_str(state),
            opt_str(cache),
            opt_str(config),
        ),
        r.changed == match prev {
            Some(p) => paths_view(*p) != paths_view(r.paths),
            None => true,
        },
{
    let cur = paths(prev, xdg, home);
    let new_config = match config {
        Some(c) => {
            let v = chars_of(c);
            if v.len() > 0 {
                Some(lit(c))
            } else {
                clone_opt(&cur.config_dir)
            }
        },
        None => clone_opt(&cur.config_dir),
    };
    let next = AppPaths {
        etc_dir: pick(etc, &cur.etc_dir),
        state_file: pick(state, &cur.state_file),
        cache_dir: pick(cache, &cur.cache_dir),
        config_dir: new_config,
    };
    let changed = match prev {
        Some(p) => !(str_eq(p.etc_dir.as_str(), next.etc_dir.as_str()) && str_eq(
            p.state_file.as_str(),
            next.state_file.as_str(),
        ) && str_eq(p.cache_dir.as_str(), next.cache_dir.as_str()) && opt_eq(&p.config_dir, &next.config_dir)),
        None => true,
    };
    PathsUpdate { paths: next, changed }
}

/// `systemctl is-active` reports the service running.
pub open spec fn reports_active(stdout: Seq<char>) -> bool {
    trim(stdout) == "active"@
}

pub fn service_active(stdout: &str) -> (r: bool)
    ensures
        r == reports_active(stdout@),
{
    let v = chars_of(stdout);
    let t = trim_chars(v.as_slice());
    let a = chars_of("active");
    crate::text::eq_chars(t.as_slice(), a.as_slice())
}

/// The GUI sees the bypass on when the state file exists or the system
/// service reports itself active (`None`: systemctl could not be run).
pub fn bypass_enabled(state_file_exists: bool, systemctl_stdout: Option<&str>) -> (r: bool)
    ensures
        r == (state_file_exists || (systemctl_stdout matches Some(s) && reports_active(s@))),
{
    if state_file_exists {
        return true;
    }
    match systemctl_stdout {
        Some(s) => service_active(s),
        None => false,
    }
}

/// What enabling does about a recorded session.
#[derive(Clone, Copy, Debug, PartialEq, Eq, Structural)]
pub enum EnableStart {
    /// Nothing recorded: enable.
    Fresh,
    /// A session is recorded and nfqws runs: already on, nothing to do.
    AlreadyOn,
    /// A session is recorded but nfqws is gone: the state is stale; clear
    /// it, then enable.
    ClearStale,
}

pub fn enable_start(state_file_exists: bool, nfqws_running: bool) -> (r: EnableStart)
    ensures
        !state_file_exists ==> r == EnableStart::Fresh,
        state_file_exists && nfqws_running ==> r == EnableStart::AlreadyOn,
        state_file_exists && !nfqws_running ==> r == EnableStart::ClearStale,
{
    if !state_file_exists {
        EnableStart::Fresh
    } else if nfqws_running {
        EnableStart::AlreadyOn
    } else {
        EnableStart::ClearStale
    }
}

/// The secret the app passes in overrides the configured one when it is
/// not empty.
pub fn secret_override(secret: Option<&str>) -> (r: Option<String>)
    ensures
        match r {
            Some(s) => secret matches Some(x) && x@.len() > 0 && s@ == x@,
            None => !(secret matches Some(x) && x@.len() > 0),
        },
{
    match secret {
        Some(s) => {
            let v = chars_of(s);
            if v.len() > 0 {
                Some(lit(s))
            } else {
                None
            }
        },
        None => None,
    }
}

/// The Telegram proxy's port: `$TG_PROXY_PORT` when it is a port number,
/// else 1444.
pub open spec fn tg_port_of(env: Option<Seq<char>>) -> u16 {
    match env {
        Some(s) => match parse_uint(s, 65535) {
            Some(n) => n as u16,
            None => 1444,
        },
        None => 1444,
    }
}

pub fn tg_port(env: Option<&str>) -> (r: u16)
    ensures
        r == tg_port_of(opt_str(env)),
{
    match env {
        Some(s) => {
            let v = chars_of(s);
            match parse_uint_chars(v.as_slice(), 65535) {
                Some(n) => n as u16,
                None => 1444,
            }
        },
        None => 1444,
    }
}

/// A saved secret is reused when, trimmed, it is 32 bytes long.
pub open spec fn saved_secret(content: Seq<char>) -> Option<Seq<char>> {
    if trim(content).len() > 0 && encode_utf8_of(trim(content)).len() == 32 {
        Some(trim(content))
    } else {
        None
    }
}

pub fn secret_from_file(content: &str) -> (r: Option<String>)
    ensures
        opt_view(r) == saved_secret(content@),
{
    let v = chars_of(content);
    let t = trim_chars(v.as_slice());
    let s = string_of(t.as_slice());
    let n = s.as_str().as_bytes().len();
    if t.len() > 0 && n == 32 {
        Some(s)
    } else {
        None
    }
}

pub open spec fn hex_lower(d: int) -> char {
    if d < 10 {
        ((d + 48) as u32) as char
    } else {
        ((d + 87) as u32) as char
    }
}

/// Bytes as lowercase hex, two digits each.
pub open spec fn hex_text(bs: Seq<u8>) -> Seq<char>
    decreases bs.len(),
{
    if bs.len() == 0 {
        seq![]
    } else {
        hex_text(bs.drop_last()) + seq![hex_lower(bs.last() as int / 16), hex_lower(bs.last() as int % 16)]
    }
}

fn hex_digit(d: u8) -> (r: char)
    requires
        d < 16,
    ensures
        r == hex_lower(d as int),
{
    if d < 10 {
        (d + 48) as char
    } else {
        (d + 87) as char
    }
}

/// A fresh secret from random bytes (the caller reads them from the
/// system's random source).
pub fn hex_secret(bytes: &[u8]) -> (r: String)
    ensures
        r@ == hex_text(bytes@),
{
    let mut v: Vec<char> = Vec::new();
    let mut i: usize = 0;
    while i < bytes.len()
        invariant
            i <= bytes.len(),
            v@ == hex_text(bytes@.take(i as int)),
        decreases bytes.len() - i,
    {
        let b = bytes[i];
        assert(bytes@.take(i + 1).drop_last() == bytes@.take(i as int));
        v.push(hex_digit(b / 16));
        v.push(hex_digit(b % 16));
        i = i + 1;
    }
    assert(bytes@.take(bytes.len() as int) == bytes@);
    string_of(v.as_slice())
}

/// The link that opens the proxy in Telegram: a local MTProto proxy with a
/// fake-TLS (`dd`) secret.
pub open spec fn tg_link_text(port: u16, secret: Seq<char>) -> Seq<char> {
    "tg://proxy?server=127.0.0.1&port="@ + dec(port as nat) + "&secret=dd"@ + secret
}

pub fn tg_proxy_url(port: u16, secret: &str) -> (r: String)
    ensures
        r@ == tg_link_text(port, secret@),
{
    let mut v = chars_of("tg://proxy?server=127.0.0.1&port=");
    let p = dec_chars(port as u64);
    extend(&mut v, p.as_slice());
    let m = chars_of("&secret=dd");
    extend(&mut v, m.as_slice());
    let s = chars_of(secret);
    extend(&mut v, s.as_slice());
    string_of(v.as_slice())
}

/// Frees the proxy's port before it starts: whatever listens on it is
/// killed (`fuser`), and so is an older standalone proxy (`pkill`).
pub fn tg_stale_listener_kills(port: u16) -> (r: Vec<(String, Vec<String>)>)
    ensures
        r@.len() == 2,
        r@[0].0@ == "fuser"@,
        views(r@[0].1@) == seq!["-k"@, dec(port as nat) + "/tcp"@],
        r@[1].0@ == "pkill"@,
        views(r@[1].1@) == seq!["-f"@, "tg-ws-proxy"@],
{
    let mut pt = dec_chars(port as u64);
    let t = chars_of("/tcp");
    extend(&mut pt, t.as_slice());
    let a = vec![lit("-k"), string_of(pt.as_slice())];
    let b = vec![lit("-f"), lit("tg-ws-proxy")];
    assert(views(a@) =~= seq!["-k"@, dec(port as nat) + "/tcp"@]);
    assert(views(b@) =~= seq!["-f"@, "tg-ws-proxy"@]);
    vec![(lit("fuser"), a), (lit("pkill"), b)]
}

// ---------------------------------------------------------------------------
// Diagnostics: SOCKS5 and HTTP through the local engine
// ---------------------------------------------------------------------------

/// The SOCKS5 greeting: version 5, one method, no authentication.
pub fn socks5_greeting() -> (r: Vec<u8>)
    ensures
        r@ == seq![5u8, 1u8, 0u8],
{
    let r = vec![5u8, 1u8, 0u8];
    assert(r@ =~= seq![5u8, 1u8, 0u8]);
    r
}

pub open spec fn be_port(port: u16) -> Seq<u8> {
    seq![(port / 256) as u8, (port % 256) as u8]
}

/// A CONNECT to a host name: its length and bytes, then the port.
pub open spec fn connect_domain_text(host: Seq<u8>, port: u16) -> Seq<u8> {
    seq![5u8, 1u8, 0u8, 3u8, host.len() as u8] + host + be_port(port)
}

/// A CONNECT to an IPv4 address.
pub open spec fn connect_ipv4_text(ip: Seq<u8>, port: u16) -> Seq<u8> {
    seq![5u8, 1u8, 0u8, 1u8] + ip + be_port(port)
}

fn push_port(v: &mut Vec<u8>, port: u16)
    ensures
        final(v)@ == old(v)@ + be_port(port),
{
    let ghost before = v@;
    v.push((port / 256) as u8);
    v.push((port % 256) as u8);
    assert(v@ =~= before + be_port(port));
}

/// The CONNECT request for `host` (the length byte takes the name's length
/// modulo 256, as a single byte must).
pub fn socks5_connect_domain(host: &str, port: u16) -> (r: Vec<u8>)
    ensures
        r@ == connect_domain_text(encode_utf8_of(host@), port),
{
    let hb = host.as_bytes();
    let n: usize = hb.len();
    let mut v = vec![5u8, 1u8, 0u8, 3u8, (n % 256) as u8];
    assert((n % 256) as u8 == n as u8) by (bit_vector);
    let mut i: usize = 0;
    let ghost head = v@;
    while i < hb.len()
        invariant
            i <= hb.len(),
            v@ == head + hb@.take(i as int),
        decreases hb.len() - i,
    {
        v.push(hb[i]);
        assert(hb@.take(i + 1) == hb@.take(i as int).push(hb@[i as int]));
        i = i + 1;
    }
    assert(hb@.take(hb.len() as int) == hb@);
    push_port(&mut v, port);
    assert(v@ =~= connect_domain_text(encode_utf8_of(host@), port));
    v
}

pub fn socks5_connect_ipv4(ip: [u8; 4], port: u16) -> (r: Vec<u8>)
    ensures
        r@ == connect_ipv4_text(ip@, port),
{
    let mut v = vec![5u8, 1u8, 0u8, 1u8, ip[0], ip[1], ip[2], ip[3]];
    push_port(&mut v, port);
    assert(v@ =~= connect_ipv4_text(ip@, port));
    v
}

/// The last `:` of `s`, if any.
pub open spec fn last_colon(s: Seq<char>) -> Option<int>
    decreases s.len(),
{
    if s.len() == 0 {
        None
    } else if s.last() == ':' {
        Some(s.len() - 1)
    } else {
        last_colon(s.drop_last())
    }
}

/// A diagnostics target `host:port` split at its last colon; no colon means
/// port 443, and a port that does not parse means 443 too.
pub open spec fn split_target_text(t: Seq<char>) -> (Seq<char>, u16) {
    match last_colon(t) {
        Some(i) => (t.take(i), match parse_uint(t.skip(i + 1), 65535) {
            Some(n) => n as u16,
            None => 443,
        }),
        None => (t, 443),
    }
}

proof fn lemma_last_colon(s: Seq<char>)
    ensures
        last_colon(s) matches Some(i) ==> 0 <= i < s.len() && s[i] == ':',
    decreases s.len(),
{
    if s.len() > 0 && s.last() != ':' {
        lemma_last_colon(s.drop_last());
    }
}

pub fn split_target(target: &str) -> (r: (String, u16))
    ensures
        (r.0@, r.1) == split_target_text(target@),
{
    let v = chars_of(target);
    let mut i: usize = v.len();
    assert(v@.take(v.len() as int) == v@);
    while i > 0 && v[i - 1] != ':'
        invariant
            i <= v.len(),
            last_colon(v@) == last_colon(v@.take(i as int)),
        decreases i,
    {
        assert(v@.take(i as int).drop_last() == v@.take(i - 1));
        i = i - 1;
    }
    if i == 0 {
        assert(v@.take(0) == Seq::<char>::empty());
        return (string_of(v.as_slice()), 443);
    }
    assert(last_colon(v@.take(i as int)) == Some(i - 1));
    let host = crate::text::slice_of(v.as_slice(), 0, i - 1);
    let rest = crate::text::slice_of(v.as_slice(), i, v.len());
    assert(host@ == v@.take(i - 1));
    assert(rest@ == v@.skip(i as int));
    let port = match parse_uint_chars(rest.as_slice(), 65535) {
        Some(n) => n as u16,
        None => 443,
    };
    (string_of(host.as_slice()), port)
}

/// `{:#x}` of a byte: `0x` and its lowercase hex digits, no padding.
pub open spec fn alt_hex(b: u8) -> Seq<char> {
    "0x"@ + if b < 16 {
        seq![hex_lower(b as int)]
    } else {
        seq![hex_lower(b as int / 16), hex_lower(b as int % 16)]
    }
}

pub fn alt_hex_text(b: u8) -> (r: Vec<char>)
    ensures
        r@ == alt_hex(b),
{
    let mut v = chars_of("0x");
    if b < 16 {
        v.push(hex_digit(b));
    } else {
        v.push(hex_digit(b / 16));
        v.push(hex_digit(b % 16));
    }
    v
}

/// How many more reply bytes follow the first four of a CONNECT reply,
/// by address type: an IPv4 address and port, a name's length byte (the
/// name and port follow it), or an IPv6 address and port. Any other type
/// is an error: `bad atyp <type>`.
pub fn socks5_reply_rest(atyp: u8) -> (r: Result<usize, String>)
    ensures
        atyp == 1 ==> r == Ok::<usize, String>(6),
        atyp == 3 ==> r == Ok::<usize, String>(1),
        atyp == 4 ==> r == Ok::<usize, String>(18),
        atyp != 1 && atyp != 3 && atyp != 4 ==> (r matches Err(e) && e@ == "bad atyp "@ + alt_hex(atyp)),
{
    if atyp == 1 {
        Ok(6)
    } else if atyp == 3 {
        Ok(1)
    } else if atyp == 4 {
        Ok(18)
    } else {
        let mut v = chars_of("bad atyp ");
        let h = alt_hex_text(atyp);
        extend(&mut v, h.as_slice());
        Err(string_of(v.as_slice()))
    }
}

/// The error for a refused step of the exchange: `what` and the code.
pub fn socks5_error(what: &str, code: u8) -> (r: String)
    ensures
        r@ == what@ + " "@ + alt_hex(code),
{
    proof {
        reveal_strlit(" ");
    }
    let mut v = chars_of(what);
    v.push(' ');
    let h = alt_hex_text(code);
    extend(&mut v, h.as_slice());
    string_of(v.as_slice())
}

/// The plain GET sent through the tunnel.
pub open spec fn http_get_text(host: Seq<char>) -> Seq<char> {
    "GET / HTTP/1.1\r\nHost: "@ + host + "\r\nConnection: close\r\n\r\n"@
}

pub fn http_get_request(host: &str) -> (r: String)
    ensures
        r@ == http_get_text(host@),
{
    let mut v = chars_of("GET / HTTP/1.1\r\nHost: ");
    let h = chars_of(host);
    extend(&mut v, h.as_slice());
    let t = chars_of("\r\nConnection: close\r\n\r\n");
    extend(&mut v, t.as_slice());
    string_of(v.as_slice())
}

/// The status line of a response: its first line, or `?`.
pub open spec fn status_line_text(resp: Seq<char>) -> Seq<char> {
    if lines(resp).len() > 0 {
        lines(resp)[0]
    } else {
        "?"@
    }
}

pub fn status_line(resp: &str) -> (r: String)
    ensures
        r@ == status_line_text(resp@),
{
    let v = chars_of(resp);
    let ls = lines_chars(v.as_slice());
    if ls.len() > 0 {
        assert(cviews(ls@)[0] == ls@[0]@);
        string_of(ls[0].as_slice())
    } else {
        lit("?")
    }
}

/// The response looks like a web page.
pub open spec fn has_html(resp: Seq<char>) -> bool {
    contains(resp, "<html"@) || contains(resp, "<HTML"@) || contains(resp, "<!DOCTYPE"@)
}

/// The port-80 check's detail: status line, whether a page came back, and
/// the response's size in bytes.
pub open spec fn http80_detail_text(resp: Seq<char>) -> Seq<char> {
    status_line_text(resp) + " | html="@ + (if has_html(resp) {
        "true"@
    } else {
        "false"@
    }) + " | "@ + dec(encode_utf8_of(resp).len()) + "B"@
}

pub fn http80_detail(resp: &str) -> (r: String)
    ensures
        r@ == http80_detail_text(resp@),
{
    let v = chars_of(resp);
    let a = chars_of("<html");
    let b = chars_of("<HTML");
    let c = chars_of("<!DOCTYPE");
    let html = contains_chars(v.as_slice(), a.as_slice()) || contains_chars(v.as_slice(), b.as_slice())
        || contains_chars(v.as_slice(), c.as_slice());
    let s = status_line(resp);
    let mut out = chars_of(s.as_str());
    let m = chars_of(" | html=");
    extend(&mut out, m.as_slice());
    let hb = if html {
        chars_of("true")
    } else {
        chars_of("false")
    };
    extend(&mut out, hb.as_slice());
    let sep = chars_of(" | ");
    extend(&mut out, sep.as_slice());
    let n = resp.as_bytes().len();
    let d = dec_chars(n as u64);
    extend(&mut out, d.as_slice());
    out.push('B');
    proof {
        reveal_strlit("B");
    }
    string_of(out.as_slice())
}

/// A UDP DNS check's detail on success: the address and the time taken.
pub fn dns_udp_detail(ip: &str, ms: u64) -> (r: String)
    ensures
        r@ == ip@ + " ("@ + dec(ms as nat) + "ms)"@,
{
    let mut v = chars_of(ip);
    let o = chars_of(" (");
    extend(&mut v, o.as_slice());
    let d = dec_chars(ms);
    extend(&mut v, d.as_slice());
    let c = chars_of("ms)");
    extend(&mut v, c.as_slice());
    string_of(v.as_slice())
}

} // verus!
