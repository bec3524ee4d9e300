//! Application configuration and its defaults.
use vstd::prelude::*;
use crate::text::{views, chars_of, string_of, extend, trim, trim_chars, ends_with, ends_with_chars, str_eq};
use crate::bypass::lit;

verus! {

/// One `/etc/hosts` override: a domain and the addresses it maps to.
#[derive(Clone, Debug)]
pub struct HostOverride {
    pub domain: String,
    pub ips: Vec<String>,
}

impl View for HostOverride {
    type V = (Seq<char>, Seq<Seq<char>>);

    open spec fn view(&self) -> (Seq<char>, Seq<Seq<char>>) {
        (self.domain@, views(self.ips@))
    }
}

impl HostOverride {
    /// A copy of this override.
    pub fn clone_override(&self) -> (r: HostOverride)
        ensures
            r@ == self@,
    {
        let mut ips: Vec<String> = Vec::new();
        let mut i: usize = 0;
        while i < self.ips.len()
            invariant
                i <= self.ips.len(),
                views(ips@) == views(self.ips@).take(i as int),
            decreases self.ips.len() - i,
        {
            let ghost before = ips@;
            ips.push(self.ips[i].clone());
            assert(views(ips@) == views(before).push(self.ips@[i as int]@));
            i = i + 1;
        }
        assert(views(self.ips@).take(self.ips.len() as int) == views(self.ips@));
        HostOverride { domain: self.domain.clone(), ips }
    }
}

/// The views of a sequence of overrides.
pub open spec fn override_views(v: Seq<HostOverride>) -> Seq<(Seq<char>, Seq<Seq<char>>)> {
    v.map_values(|o: HostOverride| o@)
}


/// The application configuration (`config.json`).
#[derive(Clone, Debug)]
pub struct AppConfig {
    pub version: u32,
    pub doh_primary: String,
    pub doh_fallback: String,
    pub doh_ru: String,
    pub socks_addr: String,
    pub socks_port: u16,
    pub byedpi_bin: String,
    pub profile: String,
    pub hosts_overrides: Vec<HostOverride>,
    pub bypass_domains: Vec<String>,
    pub exclude_domains: Vec<String>,
    pub telegram_bridge: bool,
    pub tg_ws_port: u16,
}

/// The default byedpi profile: disorder only, bound to IPv4.
pub open spec fn default_profile_text() -> Seq<char> {
    "--disorder 1 --conn-ip 0.0.0.0"@
}

pub fn default_profile() -> (r: String)
    ensures
        r@ == default_profile_text(),
{
    lit("--disorder 1 --conn-ip 0.0.0.0")
}

pub fn default_true() -> (r: bool)
    ensures
        r,
{
    true
}

pub open spec fn default_bypass_domains_text() -> Seq<Seq<char>> {
    seq![
        "youtube.com"@, "googlevideo.com"@, "ytimg.com"@, "discord.com"@, "discord.gg"@,
        "instagram.com"@, "cdninstagram.com"@, "fbcdn.net"@, "facebook.com"@, "fb.com"@,
        "fbsbx.com"@, "scontent.cdninstagram.com"@, "x.com"@, "twitter.com"@, "t.co"@,
        "twimg.com"@, "bbc.com"@, "bbc.co.uk"@, "t.me"@, "telegram.org"@, "whatsapp.com"@,
        "grok.com"@, "x.ai"@, "imo.im"@,
    ]
}

pub fn default_bypass_domains() -> (r: Vec<String>)
    ensures
        views(r@) == default_bypass_domains_text(),
{
    let r = vec![
        lit("youtube.com"), lit("googlevideo.com"), lit("ytimg.com"), lit("discord.com"),
        lit("discord.gg"), lit("instagram.com"), lit("cdninstagram.com"), lit("fbcdn.net"),
        lit("facebook.com"), lit("fb.com"), lit("fbsbx.com"), lit("scontent.cdninstagram.com"),
        lit("x.com"), lit("twitter.com"), lit("t.co"), lit("twimg.com"), lit("bbc.com"),
        lit("bbc.co.uk"), lit("t.me"), lit("telegram.org"), lit("whatsapp.com"), lit("grok.com"),
        lit("x.ai"), lit("imo.im"),
    ];
    assert(views(r@) =~= default_bypass_domains_text());
    r
}

pub open spec fn default_exclude_domains_text() -> Seq<Seq<char>> {
    seq!["yandex.ru"@, "ya.ru"@, "mail.ru"@, "gosuslugi.ru"@, "sberbank.ru"@]
}

pub fn default_exclude_domains() -> (r: Vec<String>)
    ensures
        views(r@) == default_exclude_domains_text(),
{
    let r = vec![lit("yandex.ru"), lit("ya.ru"), lit("mail.ru"), lit("gosuslugi.ru"), lit("sberbank.ru")];
    assert(views(r@) =~= default_exclude_domains_text());
    r
}

/// No address is hardcoded: discovery writes only addresses that work.
pub fn default_hosts() -> (r: Vec<HostOverride>)
    ensures
        r@.len() == 0,
{
    Vec::new()
}

impl Default for AppConfig {
    fn default() -> (r: Self)
        ensures
            r.version == 1,
            r.doh_primary@ == "https://dns.google/dns-query"@,
            r.doh_fallback@ == "https://doh.opendns.com/dns-query"@,
            r.doh_ru@ == "https://xbox-dns.ru/dns-query"@,
            r.socks_addr@ == "127.0.0.1"@,
            r.socks_port == 1080,
            r.byedpi_bin@ == "vendor/byedpi/ciadpi"@,
            r.profile@ == default_profile_text(),
            r.hosts_overrides@.len() == 0,
            views(r.bypass_domains@) == default_bypass_domains_text(),
            views(r.exclude_domains@) == default_exclude_domains_text(),
            r.telegram_bridge,
            r.tg_ws_port == 1443,
    {
        AppConfig {
            version: 1,
            doh_primary: lit("https://dns.google/dns-query"),
            doh_fallback: lit("https://doh.opendns.com/dns-query"),
            doh_ru: lit("https://xbox-dns.ru/dns-query"),
            socks_addr: lit("127.0.0.1"),
            socks_port: 1080,
            byedpi_bin: lit("vendor/byedpi/ciadpi"),
            profile: default_profile(),
            hosts_overrides: default_hosts(),
            bypass_domains: default_bypass_domains(),
            exclude_domains: default_exclude_domains(),
            telegram_bridge: true,
            tg_ws_port: 1443,
        }
    }
}

// ---------------------------------------------------------------------------
// Paths
// ---------------------------------------------------------------------------

/// `Path::join` of a relative path: `b` after `a`, with one `/` between
/// them unless `a` is empty or already ends with `/`.
pub open spec fn join_text(a: Seq<char>, b: Seq<char>) -> Seq<char> {
    if a.len() == 0 {
        b
    } else if a.last() == '/' {
        a + b
    } else {
        a + seq!['/'] + b
    }
}

pub fn path_join(a: &str, b: &str) -> (r: String)
    ensures
        r@ == join_text(a@, b@),
{
    let mut v = chars_of(a);
    let w = chars_of(b);
    if v.len() > 0 && v[v.len() - 1] != '/' {
        v.push('/');
    }
    extend(&mut v, w.as_slice());
    string_of(v.as_slice())
}

/// Where configuration and runtime state live. The desktop defaults can be
/// overridden (the mobile GUI points them at its own directories).
#[derive(Clone, Debug)]
pub struct PathOverrides {
    pub config_dir: Option<String>,
    pub state_file: String,
}

impl PathOverrides {
    /// No configuration directory override; state in `/tmp/unblocker.state`.
    pub fn new() -> (r: PathOverrides)
        ensures
            r.config_dir is None,
            r.state_file@ == "/tmp/unblocker.state"@,
    {
        PathOverrides { config_dir: None, state_file: lit("/tmp/unblocker.state") }
    }
}

pub fn set_config_dir(paths: &mut PathOverrides, p: String)
    ensures
        final(paths).config_dir == Some(p),
        final(paths).state_file == old(paths).state_file,
{
    paths.config_dir = Some(p);
}

/// `config.json` in the override directory, else in the per-user project
/// configuration directory, else in the current directory.
pub open spec fn config_path_text(config_dir: Option<Seq<char>>, project_dir: Option<Seq<char>>) -> Seq<char> {
    match config_dir {
        Some(d) => join_text(d, "config.json"@),
        None => match project_dir {
            Some(p) => join_text(p, "config.json"@),
            None => join_text("."@, "config.json"@),
        },
    }
}

pub open spec fn opt_view(o: Option<String>) -> Option<Seq<char>> {
    match o {
        Some(s) => Some(s@),
        None => None,
    }
}

pub fn config_path(paths: &PathOverrides, project_dir: Option<String>) -> (r: String)
    ensures
        r@ == config_path_text(opt_view(paths.config_dir), opt_view(project_dir)),
{
    match &paths.config_dir {
        Some(d) => path_join(d.as_str(), "config.json"),
        None => match &project_dir {
            Some(p) => path_join(p.as_str(), "config.json"),
            None => path_join(".", "config.json"),
        },
    }
}

pub fn set_state_file(paths: &mut PathOverrides, p: String)
    ensures
        final(paths).state_file == p,
        final(paths).config_dir == old(paths).config_dir,
{
    paths.state_file = p;
}

pub fn state_file(paths: &PathOverrides) -> (r: String)
    ensures
        r@ == paths.state_file@,
{
    paths.state_file.clone()
}

// ---------------------------------------------------------------------------
// Profile resolution on enable
// ---------------------------------------------------------------------------

/// The detected profile used when the configured one is blank or `auto`.
pub open spec fn detected_profile_text() -> Seq<char> {
    "--disorder 1 --tlsrec 1+s --conn-ip 0.0.0.0"@
}

/// The profile to run and whether it is to be saved back to the
/// configuration: a blank or `auto` profile becomes the detected one (and is
/// saved) when the engine binary exists; otherwise the configured profile
/// is used as it is.
pub open spec fn resolved_profile(profile: Seq<char>, has_bin: bool) -> (Seq<char>, bool) {
    if (trim(profile).len() == 0 || profile == "auto"@) && has_bin {
        (detected_profile_text(), true)
    } else {
        (profile, false)
    }
}

pub fn resolve_profile(profile: &str, has_bin: bool) -> (r: (String, bool))
    ensures
        (r.0@, r.1) == resolved_profile(profile@, has_bin),
{
    let v = chars_of(profile);
    let t = trim_chars(v.as_slice());
    if (t.len() == 0 || str_eq(profile, "auto")) && has_bin {
        (lit("--disorder 1 --tlsrec 1+s --conn-ip 0.0.0.0"), true)
    } else {
        (String::from_str(profile), false)
    }
}

} // verus!
