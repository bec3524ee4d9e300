//! The sites the strategy scanner works through. Each site's kind says how
//! it is unblocked: a DPI strategy, a clean CDN address, either, or the
//! Telegram tunnel.
use vstd::prelude::*;
use crate::text::{chars_of, string_of, extend, views, padded, pad_right};
use crate::bypass::lit;

verus! {

#[derive(Clone, Copy, Debug, PartialEq, Eq, Structural)]
pub enum SiteKind {
    /// TLS DPI block — try a winning DPI strategy from the pool.
    Dpi,
    /// IP block on the entire CDN range — need a known-clean IP in /etc/hosts.
    Ip,
    /// Try DPI first, fall back to IP override if DPI fails.
    Both,
    /// Telegram — needs a WSS proxy.
    Wss,
}

#[derive(Clone, Debug)]
pub struct Site {
    pub host: String,
    pub kind: SiteKind,
    pub test_url: String,
    /// Candidate ranges to scan if DPI fails.
    pub allowed_ip_ranges: Vec<String>,
}

pub open spec fn site_view(s: Site) -> (Seq<char>, SiteKind, Seq<char>, Seq<Seq<char>>) {
    (s.host@, s.kind, s.test_url@, views(s.allowed_ip_ranges@))
}

pub open spec fn site_views(v: Seq<Site>) -> Seq<(Seq<char>, SiteKind, Seq<char>, Seq<Seq<char>>)> {
    v.map_values(|s: Site| site_view(s))
}

/// Telegram's address ranges, scanned for its two hosts.
pub open spec fn telegram_ranges() -> Seq<Seq<char>> {
    seq![
        "91.108.4.0/22"@, "91.108.8.0/22"@, "91.108.12.0/22"@, "91.108.16.0/22"@,
        "91.108.20.0/22"@, "91.108.56.0/22"@, "149.154.160.0/20"@, "149.154.175.50/32"@,
    ]
}

pub open spec fn dpi_site(host: Seq<char>, url: Seq<char>) -> (Seq<char>, SiteKind, Seq<char>, Seq<Seq<char>>) {
    (host, SiteKind::Dpi, url, seq![])
}

/// The scanned sites, in order (x.com is listed twice, as it is in the
/// shipped list).
pub open spec fn all_sites() -> Seq<(Seq<char>, SiteKind, Seq<char>, Seq<Seq<char>>)> {
    seq![
        dpi_site("youtube.com"@, "https://www.youtube.com/"@),
        dpi_site("discord.com"@, "https://discord.com/"@),
        dpi_site("meduza.io"@, "https://meduza.io/"@),
        dpi_site("rutracker.org"@, "http://rutracker.org/"@),
        dpi_site("vk.com"@, "https://vk.com/"@),
        dpi_site("bbc.com"@, "https://www.bbc.com/"@),
        dpi_site("x.com"@, "https://x.com/"@),
        dpi_site("signal.org"@, "https://signal.org/"@),
        dpi_site("google.com"@, "https://www.google.com/"@),
        dpi_site("instagram.com"@, "https://www.instagram.com/"@),
        dpi_site("facebook.com"@, "https://www.facebook.com/"@),
        dpi_site("web.whatsapp.com"@, "https://web.whatsapp.com/"@),
        dpi_site("x.com"@, "https://x.com/"@),
        ("t.me"@, SiteKind::Wss, "https://t.me/"@, telegram_ranges()),
        ("telegram.org"@, SiteKind::Wss, "https://telegram.org/"@, telegram_ranges()),
    ]
}

fn dpi(host: &str, test_url: &str) -> (r: Site)
    ensures
        site_view(r) == dpi_site(host@, test_url@),
{
    let r = Site { host: lit(host), kind: SiteKind::Dpi, test_url: lit(test_url), allowed_ip_ranges: Vec::new() };
    assert(views(r.allowed_ip_ranges@) =~= seq![]);
    r
}

fn telegram_ranges_exec() -> (r: Vec<String>)
    ensures
        views(r@) == telegram_ranges(),
{
    let r = vec![
        lit("91.108.4.0/22"), lit("91.108.8.0/22"), lit("91.108.12.0/22"), lit("91.108.16.0/22"),
        lit("91.108.20.0/22"), lit("91.108.56.0/22"), lit("149.154.160.0/20"), lit("149.154.175.50/32"),
    ];
    assert(views(r@) =~= telegram_ranges());
    r
}

fn wss(host: &str, test_url: &str) -> (r: Site)
    ensures
        site_view(r) == (host@, SiteKind::Wss, test_url@, telegram_ranges()),
{
    Site { host: lit(host), kind: SiteKind::Wss, test_url: lit(test_url), allowed_ip_ranges: telegram_ranges_exec() }
}

/// The full list of scanned sites.
pub fn all() -> (r: Vec<Site>)
    ensures
        site_views(r@) == all_sites(),
{
    let r = vec![
        dpi("youtube.com", "https://www.youtube.com/"),
        dpi("discord.com", "https://discord.com/"),
        dpi("meduza.io", "https://meduza.io/"),
        dpi("rutracker.org", "http://rutracker.org/"),
        dpi("vk.com", "https://vk.com/"),
        dpi("bbc.com", "https://www.bbc.com/"),
        dpi("x.com", "https://x.com/"),
        dpi("signal.org", "https://signal.org/"),
        dpi("google.com", "https://www.google.com/"),
        dpi("instagram.com", "https://www.instagram.com/"),
        dpi("facebook.com", "https://www.facebook.com/"),
        dpi("web.whatsapp.com", "https://web.whatsapp.com/"),
        dpi("x.com", "https://x.com/"),
        wss("t.me", "https://t.me/"),
        wss("telegram.org", "https://telegram.org/"),
    ];
    assert(site_views(r@) =~= all_sites());
    r
}

pub open spec fn kind_name(k: SiteKind) -> Seq<char> {
    match k {
        SiteKind::Dpi => "Dpi"@,
        SiteKind::Ip => "Ip"@,
        SiteKind::Both => "Both"@,
        SiteKind::Wss => "Wss"@,
    }
}

/// The host left-aligned in 24 columns, then the kind in brackets.
pub open spec fn site_text(host: Seq<char>, kind: SiteKind) -> Seq<char> {
    padded(host, 24) + " ("@ + kind_name(kind) + ")"@
}

impl Site {
    /// The one-line description of a site (its `Display`).
    pub fn describe(&self) -> (r: String)
        ensures
            r@ == site_text(self.host@, self.kind),
    {
        let mut v = pad_right(self.host.as_str(), 24);
        let k = match self.kind {
            SiteKind::Dpi => chars_of("Dpi"),
            SiteKind::Ip => chars_of("Ip"),
            SiteKind::Both => chars_of("Both"),
            SiteKind::Wss => chars_of("Wss"),
        };
        let o = chars_of(" (");
        extend(&mut v, o.as_slice());
        extend(&mut v, k.as_slice());
        let c = chars_of(")");
        extend(&mut v, c.as_slice());
        string_of(v.as_slice())
    }
}

/// Every address of a network in CIDR notation, from its network address
/// to its broadcast address in order, each as address text (256 for a
/// /24), or `None` when the text does not parse as an `ipnet::IpNet`.
pub uninterp spec fn net_addresses(range: Seq<char>) -> Option<Seq<Seq<char>>>;

/// Parses `range` with `ipnet::IpNet::from_str` and lists at most `limit`
/// of the addresses of the `ipnet` address range from the network's
/// `network()` to its `broadcast()`, in order, as text. The contract
/// claims only that these are the first ones of the named list.
#[verifier::external_body]
fn parse_net_addresses(range: &str, limit: usize) -> (r: Option<Vec<String>>)
    ensures
        match r {
            Some(v) => net_addresses(range@) matches Some(all) && views(v@) == all.take(
                if all.len() < limit { all.len() as int } else { limit as int },
            ),
            None => net_addresses(range@) is None,
        },
{
    match range.parse::<ipnet::IpNet>() {
        Ok(ipnet::IpNet::V4(n)) => {
            Some(ipnet::Ipv4AddrRange::new(n.network(), n.broadcast()).take(limit).map(|ip| ip.to_string()).collect())
        },
        Ok(ipnet::IpNet::V6(n)) => {
            Some(ipnet::Ipv6AddrRange::new(n.network(), n.broadcast()).take(limit).map(|ip| ip.to_string()).collect())
        },
        Err(_) => None,
    }
}

/// The addresses of all ranges (each range whole, network and broadcast
/// addresses included), in order; ranges that do not parse give none.
pub open spec fn expanded(ranges: Seq<Seq<char>>) -> Seq<Seq<char>>
    decreases ranges.len(),
{
    if ranges.len() == 0 {
        seq![]
    } else {
        expanded(ranges.drop_last()) + match net_addresses(ranges.last()) {
            Some(h) => h,
            None => seq![],
        }
    }
}

pub open spec fn take_at_most(s: Seq<Seq<char>>, n: nat) -> Seq<Seq<char>> {
    s.take(if s.len() < n { s.len() as int } else { n as int })
}

proof fn lemma_take_concat(a: Seq<Seq<char>>, b: Seq<Seq<char>>, n: nat)
    requires
        a.len() < n,
    ensures
        take_at_most(a + b, n) == a + take_at_most(b, (n - a.len()) as nat),
{
    assert(take_at_most(a + b, n) =~= a + take_at_most(b, (n - a.len()) as nat));
}

/// The first `cap` addresses of the ranges, in order (the scan of a site's
/// ranges is capped; a wide range is not listed past the cap).
pub fn expand_ranges(ranges: &[String], cap: usize) -> (r: Vec<String>)
    ensures
        views(r@) == take_at_most(expanded(views(ranges@)), cap as nat),
{
    let ghost rv = views(ranges@);
    let mut out: Vec<String> = Vec::new();
    let mut i: usize = 0;
    while i < ranges.len() && out.len() < cap
        invariant
            i <= ranges.len(),
            rv == views(ranges@),
            out.len() <= cap,
            out.len() < cap ==> views(out@) == expanded(rv.take(i as int)),
            out.len() == cap ==> views(out@) == take_at_most(expanded(rv.take(i as int)), cap as nat),
        decreases ranges.len() - i,
    {
        let ghost before = views(out@);
        assert(rv.take(i + 1).drop_last() == rv.take(i as int));
        assert(rv.take(i + 1).last() == ranges@[i as int]@);
        let room = cap - out.len();
        match parse_net_addresses(ranges[i].as_str(), room) {
            Some(hs) => {
                let ghost all = net_addresses(ranges@[i as int]@)->0;
                let mut j: usize = 0;
                while j < hs.len()
                    invariant
                        j <= hs.len(),
                        views(out@) == before + views(hs@).take(j as int),
                    decreases hs.len() - j,
                {
                    let ghost b2 = out@;
                    out.push(hs[j].clone());
                    assert(views(out@) == views(b2).push(hs@[j as int]@));
                    assert(views(hs@).take(j + 1) == views(hs@).take(j as int).push(hs@[j as int]@));
                    j = j + 1;
                }
                assert(views(hs@).take(hs.len() as int) == views(hs@));
                proof {
                    let e = expanded(rv.take(i + 1));
                    assert(e == before + all);
                    if all.len() < room {
                        assert(views(hs@) == all);
                    } else {
                        lemma_take_concat(before, all, cap as nat);
                    }
                }
            },
            None => {
                assert(expanded(rv.take(i + 1)) =~= expanded(rv.take(i as int)));
            },
        }
        i = i + 1;
    }
    proof {
        if out.len() < cap {
            assert(i == ranges.len());
            assert(rv.take(i as int) == rv);
        } else {
            lemma_expanded_prefix(rv, i as int, cap as nat);
        }
    }
    out
}

/// Ranges after the first `i` only add addresses after those of the first
/// `i`, so once `n` addresses are there the first `n` stay the same.
proof fn lemma_expanded_prefix(rv: Seq<Seq<char>>, i: int, n: nat)
    requires
        0 <= i <= rv.len(),
        expanded(rv.take(i)).len() >= n,
    ensures
        take_at_most(expanded(rv), n) == take_at_most(expanded(rv.take(i)), n),
    decreases rv.len() - i,
{
    if i < rv.len() {
        assert(rv.take(i + 1).drop_last() == rv.take(i));
        lemma_expanded_prefix(rv, i + 1, n);
        let a = expanded(rv.take(i));
        let b = expanded(rv.take(i + 1));
        assert(take_at_most(b, n) =~= take_at_most(a, n));
    } else {
        assert(rv.take(i) == rv);
    }
}

} // verus!
