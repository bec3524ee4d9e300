//! The sites the daemon watches (both DPI-blocked and IP-blocked) and the
//! asset URLs used to check that a host's address still works.
use vstd::prelude::*;
use crate::text::{chars_of, string_of, extend, str_eq, ends_with, ends_with_chars, padded, pad_right};
use crate::bypass::lit;

verus! {

#[derive(Clone, Copy, Debug, PartialEq, Eq, Structural)]
pub enum SiteKind {
    /// TLS DPI block — nfqws with the strategy pool handles it.
    Dpi,
    /// Whole IP range blocked — needs an unblocked IP in /etc/hosts.
    Ip,
    /// Both DPI and IP — try DPI first, fall back to IP discovery.
    Both,
    /// Special: needs WSS tunnel (telegram).
    Wss,
}

#[derive(Clone, Debug)]
pub struct Site {
    pub host: String,
    pub kind: SiteKind,
    pub test_url: String,
}

pub open spec fn site_view(s: Site) -> (Seq<char>, SiteKind, Seq<char>) {
    (s.host@, s.kind, s.test_url@)
}

pub open spec fn site_views(v: Seq<Site>) -> Seq<(Seq<char>, SiteKind, Seq<char>)> {
    v.map_values(|s: Site| site_view(s))
}

/// The watched sites, in order.
pub open spec fn all_sites() -> Seq<(Seq<char>, SiteKind, Seq<char>)> {
    seq![
        ("youtube.com"@, SiteKind::Dpi, "https://www.youtube.com/"@),
        ("discord.com"@, SiteKind::Dpi, "https://discord.com/"@),
        ("meduza.io"@, SiteKind::Dpi, "https://meduza.io/"@),
        ("rutracker.org"@, SiteKind::Dpi, "http://rutracker.org/"@),
        ("vk.com"@, SiteKind::Dpi, "https://vk.com/"@),
        ("bbc.com"@, SiteKind::Dpi, "https://www.bbc.com/"@),
        ("x.com"@, SiteKind::Dpi, "https://x.com/"@),
        ("signal.org"@, SiteKind::Dpi, "https://signal.org/"@),
        ("google.com"@, SiteKind::Dpi, "https://www.google.com/"@),
        ("instagram.com"@, SiteKind::Ip, "https://www.instagram.com/"@),
        ("facebook.com"@, SiteKind::Ip, "https://www.facebook.com/"@),
        ("web.whatsapp.com"@, SiteKind::Ip, "https://web.whatsapp.com/"@),
        ("t.me"@, SiteKind::Wss, "https://t.me/"@),
        ("telegram.org"@, SiteKind::Wss, "https://telegram.org/"@),
    ]
}

fn site(host: &str, kind: SiteKind, test_url: &str) -> (r: Site)
    ensures
        site_view(r) == (host@, kind, test_url@),
{
    Site { host: lit(host), kind, test_url: lit(test_url) }
}

/// The full list of watched sites.
pub fn all() -> (r: Vec<Site>)
    ensures
        site_views(r@) == all_sites(),
{
    let r = vec![
        site("youtube.com", SiteKind::Dpi, "https://www.youtube.com/"),
        site("discord.com", SiteKind::Dpi, "https://discord.com/"),
        site("meduza.io", SiteKind::Dpi, "https://meduza.io/"),
        site("rutracker.org", SiteKind::Dpi, "http://rutracker.org/"),
        site("vk.com", SiteKind::Dpi, "https://vk.com/"),
        site("bbc.com", SiteKind::Dpi, "https://www.bbc.com/"),
        site("x.com", SiteKind::Dpi, "https://x.com/"),
        site("signal.org", SiteKind::Dpi, "https://signal.org/"),
        site("google.com", SiteKind::Dpi, "https://www.google.com/"),
        site("instagram.com", SiteKind::Ip, "https://www.instagram.com/"),
        site("facebook.com", SiteKind::Ip, "https://www.facebook.com/"),
        site("web.whatsapp.com", SiteKind::Ip, "https://web.whatsapp.com/"),
        site("t.me", SiteKind::Wss, "https://t.me/"),
        site("telegram.org", SiteKind::Wss, "https://telegram.org/"),
    ];
    assert(site_views(r@) =~= all_sites());
    r
}

pub open spec fn kind_name(k: SiteKind) -> Seq<char> {
    match k {
        SiteKind::Dpi => "Dpi"@,
        SiteKind::Ip => "Ip"@,
        SiteKind::Both => "Both"@,
        SiteKind::Wss => "Wss"@,
    }
}

/// The host padded with spaces to 22 characters, then the kind in brackets.
pub open spec fn site_text(host: Seq<char>, kind: SiteKind) -> Seq<char> {
    padded(host, 22) + " ("@
        + kind_name(kind) + ")"@
}

impl Site {
    /// The one-line description of a site (its `Display`).
    pub fn describe(&self) -> (r: String)
        ensures
            r@ == site_text(self.host@, self.kind),
    {
        let mut v = pad_right(self.host.as_str(), 22);
        let k = match self.kind {
            SiteKind::Dpi => chars_of("Dpi"),
            SiteKind::Ip => chars_of("Ip"),
            SiteKind::Both => chars_of("Both"),
            SiteKind::Wss => chars_of("Wss"),
        };
        assert(k@ == kind_name(self.kind));
        let o = chars_of(" (");
        extend(&mut v, o.as_slice());
        extend(&mut v, k.as_slice());
        let c = chars_of(")");
        extend(&mut v, c.as_slice());
        string_of(v.as_slice())
    }
}

pub open spec fn instagram_asset() -> Seq<char> {
    "https://scontent-hel3-1.cdninstagram.com/v/t51.2885-19/455596973_468815979375023_2483373531962989209_n.jpg?stp=dst-jpg_s150x150_tt6&_nc_cat=100&ccb=7-5&_nc_sid=f7ccc5&efg=eyJ2ZW5jb2RlX3RhZyI6InByb2ZpbGVfcGljLnd3dy4zMzMuQzMifQ%3D%3D&_nc_ohc=jDweqdYxbNwQ7kNvwELuwPm&_nc_oc=AdrrXnEwmrkQM9Y6J3FL83r9Ya0QLDT6ZsYx5i4SFlhdDJRDHqZ6FD2h5ukvlPG7H28&_nc_zt=24&_nc_ht=scontent-hel3-1.cdninstagram.com&_nc_ss=7b6a8&oh=00_AQJ8RUB_46NQeCLWqPyrMKgqDNRhpkNFbskPUn9ZE-a1sA&oe=6A9B87FF"@
}

/// The representative URL probed to check a host's address, if the host is
/// one of those pinned in /etc/hosts.
pub open spec fn asset_url(h: Seq<char>) -> Option<Seq<char>> {
    if h == "instagram.com"@ || h == "www.instagram.com"@ || h == "cdninstagram.com"@ || h
        == "scontent.cdninstagram.com"@ || h == "scontent-hel3-1.cdninstagram.com"@ {
        Some(instagram_asset())
    } else if h == "facebook.com"@ || h == "www.facebook.com"@ {
        Some("https://www.facebook.com/"@)
    } else if h == "web.whatsapp.com"@ || h == "whatsapp.com"@ || h == "www.whatsapp.com"@ || h
        == "faq.whatsapp.com"@ || h == "blog.whatsapp.com"@ || h == "g.whatsapp.net"@ {
        Some("https://faq.whatsapp.com/ru/web/26000012/?category=5245235"@)
    } else if ends_with(h, ".fbcdn.net"@) || h == "fbcdn.net"@ || ends_with(h, ".cdninstagram.com"@)
        || h == "cdninstagram.com"@ || ends_with(h, ".whatsapp.net"@) || h == "whatsapp.net"@ {
        Some("https://www.instagram.com/"@)
    } else {
        None
    }
}

fn ends_with_str(h: &str, suffix: &str) -> (r: bool)
    ensures
        r == ends_with(h@, suffix@),
{
    let a = chars_of(h);
    let b = chars_of(suffix);
    ends_with_chars(a.as_slice(), b.as_slice())
}

pub fn asset_probe_url(host: &str) -> (r: Option<&'static str>)
    ensures
        r matches Some(u) ==> asset_url(host@) == Some(u@),
        r is None ==> asset_url(host@) is None,
{
    if str_eq(host, "instagram.com") || str_eq(host, "www.instagram.com") || str_eq(
        host,
        "cdninstagram.com",
    ) || str_eq(host, "scontent.cdninstagram.com") || str_eq(
        host,
        "scontent-hel3-1.cdninstagram.com",
    ) {
        Some(
            "https://scontent-hel3-1.cdninstagram.com/v/t51.2885-19/455596973_468815979375023_2483373531962989209_n.jpg?stp=dst-jpg_s150x150_tt6&_nc_cat=100&ccb=7-5&_nc_sid=f7ccc5&efg=eyJ2ZW5jb2RlX3RhZyI6InByb2ZpbGVfcGljLnd3dy4zMzMuQzMifQ%3D%3D&_nc_ohc=jDweqdYxbNwQ7kNvwELuwPm&_nc_oc=AdrrXnEwmrkQM9Y6J3FL83r9Ya0QLDT6ZsYx5i4SFlhdDJRDHqZ6FD2h5ukvlPG7H28&_nc_zt=24&_nc_ht=scontent-hel3-1.cdninstagram.com&_nc_ss=7b6a8&oh=00_AQJ8RUB_46NQeCLWqPyrMKgqDNRhpkNFbskPUn9ZE-a1sA&oe=6A9B87FF",
        )
    } else if str_eq(host, "facebook.com") || str_eq(host, "www.facebook.com") {
        Some("https://www.facebook.com/")
    } else if str_eq(host, "web.whatsapp.com") || str_eq(host, "whatsapp.com") || str_eq(
        host,
        "www.whatsapp.com",
    ) || str_eq(host, "faq.whatsapp.com") || str_eq(host, "blog.whatsapp.com") || str_eq(
        host,
        "g.whatsapp.net",
    ) {
        Some("https://faq.whatsapp.com/ru/web/26000012/?category=5245235")
    } else if ends_with_str(host, ".fbcdn.net") || str_eq(host, "fbcdn.net") || ends_with_str(
        host,
        ".cdninstagram.com",
    ) || str_eq(host, "cdninstagram.com") || ends_with_str(host, ".whatsapp.net") || str_eq(
        host,
        "whatsapp.net",
    ) {
        Some("https://www.instagram.com/")
    } else {
        None
    }
}

} // verus!
