//! Address discovery for IP-blocked services: parent domains, and the
//! discovered entries kept in the marker block of `/etc/hosts`.
use vstd::prelude::*;
use crate::text::{chars_of, string_of, strings_of, slice_of, extend, eq_chars, views, cviews, trim, trim_end, trim_chars, trim_end_chars, find, find_chars, contains, contains_chars, starts_with, starts_with_chars, ends_with, ends_with_chars, has_char, has_char_exec, split_ws, split_ws_chars, lemma_split_ws_tokens, no_ws, is_ws, lead, trail, lemma_lead_bounds, lemma_trail_bounds, trim_start, lines, lines_chars, lowercase, to_lowercase, find_char_from, find_char_exec, lemma_find_char_from, eq_ignore_ascii_case, eq_ignore_ascii_case_chars, find_from, lemma_find_from, occurs_at, pair_views};
use crate::system::{marker_begin, marker_end, marker_begin_chars, marker_end_chars};
use crate::ip_discovery::sites::{all, all_sites, site_views, SiteKind};

pub mod geohide;
pub mod pool;
pub mod readback;
pub mod sites;

verus! {

/// Where a candidate address came from.
#[derive(Clone, Copy, Debug, PartialEq, Eq, Structural)]
pub enum DiscoverySource {
    /// Returned by one of the DoH providers.
    GoogleDoH,
    CloudflareDoH,
    /// From the precompiled pool of known-good addresses.
    Precompiled,
    /// Returned by the system DNS resolver.
    System,
    /// From the GeoHide DNS community hosts file.
    GeoHide,
}

/// One of the watched services that is blocked by address (its domain,
/// as `sites::all_sites` lists it).
pub open spec fn ip_blocked_service(h: Seq<char>) -> bool {
    exists|k: int| 0 <= k < all_sites().len() && all_sites()[k].0 == h && all_sites()[k].1 == SiteKind::Ip
}

/// The service domain that a CDN domain stands for: `cdn` followed by the
/// domain of a watched service blocked by address (`cdninstagram.com`
/// stands for `instagram.com`); other names stand for none.
pub open spec fn cdn_brand(d: Seq<char>) -> Seq<Seq<char>> {
    if d.len() > 3 && d.take(3) == "cdn"@ && ip_blocked_service(d.skip(3)) {
        seq![d.skip(3)]
    } else {
        seq![]
    }
}

fn is_ip_blocked_service(h: &[char]) -> (r: bool)
    ensures
        r == ip_blocked_service(h@),
{
    let sites = all();
    let mut i: usize = 0;
    while i < sites.len()
        invariant
            i <= sites.len(),
            site_views(sites@) == all_sites(),
            forall|k: int| 0 <= k < i ==> !(all_sites()[k].0 == h@ && all_sites()[k].1 == SiteKind::Ip),
        decreases sites.len() - i,
    {
        let hv = chars_of(sites[i].host.as_str());
        assert(all_sites()[i as int] == site_views(sites@)[i as int]);
        if eq_chars(hv.as_slice(), h) && sites[i].kind == SiteKind::Ip {
            return true;
        }
        i = i + 1;
    }
    false
}

/// `host` and every parent domain of it, nearest first: each is the text
/// after the first `.` of the one before, down to the last non-empty one.
/// A CDN domain is followed by the service domain it stands for, so
/// `scontent-hel3-1.cdninstagram.com` gives `scontent-hel3-1.cdninstagram.com`,
/// `cdninstagram.com`, `instagram.com`, `com`.
pub open spec fn parent_domains(host: Seq<char>) -> Seq<Seq<char>>
    decreases host.len(),
{
    seq![host] + cdn_brand(host) + match find_char_from(host, '.', 0) {
        None => seq![],
        Some(i) => if 0 <= i < host.len() && i + 1 < host.len() {
            parent_domains(host.skip(i + 1))
        } else {
            seq![]
        },
    }
}

/// The service domain `v` stands for, if it is a CDN domain (see `cdn_brand`).
fn cdn_brand_of(v: &[char]) -> (r: Option<Vec<char>>)
    ensures
        match r {
            Some(b) => cdn_brand(v@) == seq![b@],
            None => cdn_brand(v@) == Seq::<Seq<char>>::empty(),
        },
{
    proof {
        reveal_strlit("cdn");
    }
    if v.len() > 3 && v[0] == 'c' && v[1] == 'd' && v[2] == 'n' {
        assert(v@.take(3) =~= "cdn"@);
        let b = slice_of(v, 3, v.len());
        assert(b@ =~= v@.skip(3));
        if is_ip_blocked_service(b.as_slice()) {
            return Some(b);
        }
    } else if v.len() > 3 {
        assert(v@.take(3) != "cdn"@) by {
            if v@.take(3) == "cdn"@ {
                assert(v@.take(3)[0] == 'c' && v@.take(3)[1] == 'd' && v@.take(3)[2] == 'n');
            }
        }
    }
    None
}

pub fn parent_domains_of(host: &str) -> (r: Vec<String>)
    ensures
        views(r@) == parent_domains(host@),
{
    let mut out: Vec<String> = Vec::new();
    let mut cur = chars_of(host);
    loop
        invariant
            views(out@) + parent_domains(cur@) == parent_domains(host@),
        decreases cur@.len(),
    {
        let s = string_of(cur.as_slice());
        let ghost o = out@;
        out.push(s);
        assert(views(out@) == views(o).push(cur@));
        let ghost o2 = out@;
        match cdn_brand_of(cur.as_slice()) {
            Some(b) => {
                out.push(string_of(b.as_slice()));
                assert(views(out@) == views(o2).push(b@));
                assert(views(out@) =~= views(o) + seq![cur@] + cdn_brand(cur@));
            },
            None => {
                assert(views(out@) =~= views(o) + seq![cur@] + cdn_brand(cur@));
            },
        }
        match find_char_exec(cur.as_slice(), '.', 0) {
            None => {
                assert(parent_domains(cur@) == seq![cur@] + cdn_brand(cur@));
                assert(views(out@) =~= parent_domains(host@));
                return out;
            },
            Some(idx) => {
                proof {
                    lemma_find_char_from(cur@, '.', 0);
                }
                if cur.len() - idx <= 1 {
                    assert(parent_domains(cur@) == seq![cur@] + cdn_brand(cur@));
                    assert(views(out@) =~= parent_domains(host@));
                    return out;
                }
                let next = slice_of(cur.as_slice(), idx + 1, cur.len());
                assert(next@ == cur@.skip(idx + 1));
                assert(parent_domains(cur@) == seq![cur@] + cdn_brand(cur@) + parent_domains(next@));
                assert(views(out@) + parent_domains(next@) =~= views(o) + parent_domains(cur@));
                cur = next;
            },
        }
    }
}

// ---------------------------------------------------------------------------
// Discovered entries in the marker block
// ---------------------------------------------------------------------------

/// One discovered `/etc/hosts` entry: a host and the text of its address.
#[derive(Clone, Debug)]
pub struct HostsEntry {
    pub host: String,
    pub ip: String,
}

impl View for HostsEntry {
    type V = (Seq<char>, Seq<char>);

    open spec fn view(&self) -> (Seq<char>, Seq<char>) {
        (self.host@, self.ip@)
    }
}

pub open spec fn entry_views(v: Seq<HostsEntry>) -> Seq<(Seq<char>, Seq<char>)> {
    v.map_values(|e: HostsEntry| e@)
}

/// Removes the marker block when both markers are found, begin before end:
/// the text before the begin marker joined to the text after the end marker.
pub open spec fn strip_block_text(c: Seq<char>) -> Seq<char> {
    match (find(c, marker_begin()), find(c, marker_end())) {
        (Some(b), Some(e)) => if e > b {
            c.take(b) + c.skip(e + marker_end().len())
        } else {
            c
        },
        _ => c,
    }
}

pub fn strip_unblocker_block(content: &str) -> (r: String)
    ensures
        r@ == strip_block_text(content@),
{
    let v = chars_of(content);
    let bm = marker_begin_chars();
    let em = marker_end_chars();
    let begin = find_chars(v.as_slice(), bm.as_slice());
    let end = find_chars(v.as_slice(), em.as_slice());
    if let (Some(b), Some(e)) = (begin, end) {
        if e > b {
            proof {
                lemma_find_from(v@, em@, 0);
                assert(occurs_at(v@, em@, e as int));
            }
            let k = em.len();
            assert(e + k <= v.len());
            let mut out = slice_of(v.as_slice(), 0, b);
            let after = slice_of(v.as_slice(), e + k, v.len());
            extend(&mut out, after.as_slice());
            assert(out@ =~= v@.take(b as int) + v@.skip(e + em@.len()));
            return string_of(out.as_slice());
        }
    }
    string_of(v.as_slice())
}

/// The `ip<TAB>host` lines of the entries.
pub open spec fn entry_lines(es: Seq<(Seq<char>, Seq<char>)>) -> Seq<char>
    decreases es.len(),
{
    if es.len() == 0 {
        seq![]
    } else {
        entry_lines(es.drop_last()) + es.last().1 + seq!['\t'] + es.last().0 + seq!['\n']
    }
}

/// The hosts file once the discovered entries replace the marker block.
pub open spec fn hosts_with_entries_text(existing: Seq<char>, es: Seq<(Seq<char>, Seq<char>)>) -> Seq<
    char,
> {
    trim_end(strip_block_text(existing)) + seq!['\n'] + marker_begin() + seq!['\n'] + entry_lines(es)
        + marker_end() + seq!['\n']
}

/// The new hosts file text for `add_to_hosts`: the old marker block is
/// replaced by one holding one `ip<TAB>host` line per entry. Read back with
/// `hosts_block_lines` (as `current_hosts_entries` does), it gives every
/// entry as (address, host), in order, when each host and address is a
/// non-empty word without whitespace and the rest of the file holds no
/// begin marker.
pub fn hosts_with_entries(existing: &str, entries: &[HostsEntry]) -> (r: String)
    ensures
        r@ == hosts_with_entries_text(existing@, entry_views(entries@)),
        !contains(strip_block_text(existing@), marker_begin()) && crate::ip_discovery::readback::words_ok(
            entry_views(entries@),
        ) ==> hosts_block_pairs(r@) == crate::ip_discovery::readback::swapped(entry_views(entries@)),
{
    let stripped = strip_unblocker_block(existing);
    let sv = chars_of(stripped.as_str());
    let mut out = trim_end_chars(sv.as_slice());
    out.push('\n');
    let bm = marker_begin_chars();
    extend(&mut out, bm.as_slice());
    out.push('\n');
    let ghost head = out@;
    let ghost es = entry_views(entries@);
    let mut i: usize = 0;
    while i < entries.len()
        invariant
            i <= entries.len(),
            es == entry_views(entries@),
            out@ == head + entry_lines(es.take(i as int)),
        decreases entries.len() - i,
    {
        let ip = chars_of(entries[i].ip.as_str());
        let host = chars_of(entries[i].host.as_str());
        extend(&mut out, ip.as_slice());
        out.push('\t');
        extend(&mut out, host.as_slice());
        out.push('\n');
        assert(es.take(i + 1).drop_last() == es.take(i as int));
        assert(es.take(i + 1).last() == entries@[i as int]@);
        i = i + 1;
    }
    assert(es.take(entries.len() as int) == es);
    let em = marker_end_chars();
    extend(&mut out, em.as_slice());
    out.push('\n');
    proof {
        if !contains(strip_block_text(existing@), marker_begin()) && crate::ip_discovery::readback::words_ok(es) {
            crate::ip_discovery::readback::lemma_entries_read_back(existing@, es);
        }
    }
    string_of(out.as_slice())
}

/// Scanner over the lines of a hosts file: the `(ip, host)` word pairs seen
/// inside the marker block, and whether the scan is inside it.
pub open spec fn block_scan(ls: Seq<Seq<char>>) -> (Seq<(Seq<char>, Seq<char>)>, bool)
    decreases ls.len(),
{
    if ls.len() == 0 {
        (seq![], false)
    } else {
        let (out, inside) = block_scan(ls.drop_last());
        let line = ls.last();
        if contains(line, marker_begin()) {
            (out, true)
        } else if contains(line, marker_end()) {
            (out, false)
        } else if !inside {
            (out, inside)
        } else {
            let parts = split_ws(line);
            if parts.len() >= 2 {
                (out.push((parts[0], parts[1])), inside)
            } else {
                (out, inside)
            }
        }
    }
}

/// The first two words of each line in the marker block (address text,
/// then host), as `current_hosts_entries` reads them before parsing the address.
pub open spec fn hosts_block_pairs(content: Seq<char>) -> Seq<(Seq<char>, Seq<char>)> {
    block_scan(lines(content)).0
}

pub fn hosts_block_lines(content: &str) -> (r: Vec<(String, String)>)
    ensures
        pair_views(r@) == hosts_block_pairs(content@),
{
    let v = chars_of(content);
    let ls = lines_chars(v.as_slice());
    let bm = marker_begin_chars();
    let em = marker_end_chars();
    let ghost lv = cviews(ls@);
    let mut out: Vec<(String, String)> = Vec::new();
    let mut inside = false;
    let mut i: usize = 0;
    while i < ls.len()
        invariant
            i <= ls.len(),
            lv == cviews(ls@),
            lv == lines(v@),
            bm@ == marker_begin(),
            em@ == marker_end(),
            (pair_views(out@), inside) == block_scan(lv.take(i as int)),
        decreases ls.len() - i,
    {
        let line = &ls[i];
        assert(lv.take(i + 1).drop_last() == lv.take(i as int));
        assert(lv.take(i + 1).last() == line@);
        if contains_chars(line.as_slice(), bm.as_slice()) {
            inside = true;
        } else if contains_chars(line.as_slice(), em.as_slice()) {
            inside = false;
        } else if inside {
            let parts = split_ws_chars(line.as_slice());
            if parts.len() >= 2 {
                let a = string_of(parts[0].as_slice());
                let b = string_of(parts[1].as_slice());
                let ghost o = out@;
                out.push((a, b));
                assert(pair_views(out@) == pair_views(o).push((cviews(parts@)[0], cviews(parts@)[1])));
            }
        }
        i = i + 1;
    }
    assert(lv.take(ls.len() as int) == lv);
    out
}

pub open spec fn named_in(h: Seq<char>, hosts: Seq<Seq<char>>) -> bool {
    exists|i: int| 0 <= i < hosts.len() && eq_ignore_ascii_case(#[trigger] hosts[i], h)
}

/// The entries, in order, whose host is not named (ignoring ASCII case).
pub open spec fn entries_without(es: Seq<(Seq<char>, Seq<char>)>, hosts: Seq<Seq<char>>) -> Seq<
    (Seq<char>, Seq<char>),
>
    decreases es.len(),
{
    if es.len() == 0 {
        seq![]
    } else {
        let r = entries_without(es.drop_last(), hosts);
        if named_in(es.last().0, hosts) {
            r
        } else {
            r.push(es.last())
        }
    }
}

/// Removing hosts keeps, in order, exactly the entries whose host equals
/// (ignoring ASCII case) none of the named hosts, at whatever position a
/// name stands: no kept entry matches any name, and every entry that
/// matches no name is kept.
pub proof fn lemma_removal_matches_every_name(es: Seq<(Seq<char>, Seq<char>)>, hosts: Seq<Seq<char>>)
    ensures
        entries_without(es, hosts) == es.filter(
            |e: (Seq<char>, Seq<char>)| forall|j: int| 0 <= j < hosts.len() ==> !eq_ignore_ascii_case(#[trigger] hosts[j], e.0),
        ),
        forall|k: int, j: int|
            0 <= k < entries_without(es, hosts).len() && 0 <= j < hosts.len() ==> !eq_ignore_ascii_case(
                #[trigger] hosts[j],
                #[trigger] entries_without(es, hosts)[k].0,
            ),
    decreases es.len(),
{
    reveal(Seq::filter);
    let pred = |e: (Seq<char>, Seq<char>)| forall|j: int| 0 <= j < hosts.len() ==> !eq_ignore_ascii_case(#[trigger] hosts[j], e.0);
    if es.len() > 0 {
        lemma_removal_matches_every_name(es.drop_last(), hosts);
        assert(named_in(es.last().0, hosts) == !pred(es.last()));
    }
    let r = entries_without(es, hosts);
    assert(r == es.filter(pred));
    es.lemma_filter_len(pred);
    assert forall|k: int, j: int| 0 <= k < r.len() && 0 <= j < hosts.len() implies !eq_ignore_ascii_case(
        #[trigger] hosts[j],
        #[trigger] r[k].0,
    ) by {
        es.lemma_filter_pred(pred, k);
    }
}

fn named_in_exec(h: &String, hosts: &[String]) -> (r: bool)
    ensures
        r == named_in(h@, views(hosts@)),
{
    let hv = chars_of(h.as_str());
    let mut i: usize = 0;
    while i < hosts.len()
        invariant
            i <= hosts.len(),
            hv@ == h@,
            forall|j: int| 0 <= j < i ==> !eq_ignore_ascii_case(#[trigger] views(hosts@)[j], h@),
        decreases hosts.len() - i,
    {
        let x = chars_of(hosts[i].as_str());
        assert(views(hosts@)[i as int] == hosts@[i as int]@);
        if eq_ignore_ascii_case_chars(x.as_slice(), hv.as_slice()) {
            return true;
        }
        i = i + 1;
    }
    false
}

/// Drops the entries for the given hosts (compared ignoring ASCII case),
/// keeping the other entries in order.
pub fn remove_from_hosts(existing: Vec<HostsEntry>, hosts: &[String]) -> (r: Vec<HostsEntry>)
    ensures
        entry_views(r@) == entries_without(entry_views(existing@), views(hosts@)),
{
    let ghost es = entry_views(existing@);
    let mut out: Vec<HostsEntry> = Vec::new();
    let mut i: usize = 0;
    while i < existing.len()
        invariant
            i <= existing.len(),
            es == entry_views(existing@),
            entry_views(out@) == entries_without(es.take(i as int), views(hosts@)),
        decreases existing.len() - i,
    {
        assert(es.take(i + 1).drop_last() == es.take(i as int));
        assert(es.take(i + 1).last() == existing@[i as int]@);
        if !named_in_exec(&existing[i].host, hosts) {
            let e = HostsEntry { host: existing[i].host.clone(), ip: existing[i].ip.clone() };
            let ghost o = out@;
            out.push(e);
            assert(entry_views(out@) == entry_views(o).push(es[i as int]));
        }
        i = i + 1;
    }
    assert(es.take(existing.len() as int) == es);
    out
}



// ---------------------------------------------------------------------------
// Candidates
// ---------------------------------------------------------------------------

/// A candidate address for a host (as canonical address text) and where it
/// came from.
#[derive(Clone, Debug)]
pub struct IpCandidate {
    pub ip: String,
    pub source: DiscoverySource,
}

pub open spec fn candidate_views(v: Seq<IpCandidate>) -> Seq<(Seq<char>, DiscoverySource)> {
    v.map_values(|c: IpCandidate| (c.ip@, c.source))
}

pub open spec fn listed(cs: Seq<(Seq<char>, DiscoverySource)>, ip: Seq<char>) -> bool {
    exists|k: int| 0 <= k < cs.len() && (#[trigger] cs[k]).0 == ip
}

/// `cs` followed by each address of `ips` not listed yet, tagged `source`.
pub open spec fn with_new(cs: Seq<(Seq<char>, DiscoverySource)>, ips: Seq<Seq<char>>, source: DiscoverySource) -> Seq<
    (Seq<char>, DiscoverySource),
>
    decreases ips.len(),
{
    if ips.len() == 0 {
        cs
    } else {
        let r = with_new(cs, ips.drop_last(), source);
        if listed(r, ips.last()) {
            r
        } else {
            r.push((ips.last(), source))
        }
    }
}

fn is_listed(cs: &Vec<IpCandidate>, ip: &String) -> (r: bool)
    ensures
        r == listed(candidate_views(cs@), ip@),
{
    let mut i: usize = 0;
    while i < cs.len()
        invariant
            i <= cs.len(),
            forall|k: int| 0 <= k < i ==> (#[trigger] candidate_views(cs@)[k]).0 != ip@,
        decreases cs.len() - i,
    {
        if crate::text::str_eq(cs[i].ip.as_str(), ip.as_str()) {
            assert(candidate_views(cs@)[i as int].0 == ip@);
            return true;
        }
        i = i + 1;
    }
    false
}

fn add_tagged(out: &mut Vec<IpCandidate>, ips: &Vec<String>, source: DiscoverySource)
    ensures
        candidate_views(final(out)@) == with_new(candidate_views(old(out)@), views(ips@), source),
{
    let ghost start = candidate_views(out@);
    let mut i: usize = 0;
    while i < ips.len()
        invariant
            i <= ips.len(),
            candidate_views(out@) == with_new(start, views(ips@).take(i as int), source),
        decreases ips.len() - i,
    {
        assert(views(ips@).take(i + 1).drop_last() == views(ips@).take(i as int));
        assert(views(ips@).take(i + 1).last() == ips@[i as int]@);
        if !is_listed(out, &ips[i]) {
            let ghost before = out@;
            out.push(IpCandidate { ip: ips[i].clone(), source });
            assert(candidate_views(out@) == candidate_views(before).push((ips@[i as int]@, source)));
        }
        i = i + 1;
    }
    assert(views(ips@).take(ips.len() as int) == views(ips@));
}

/// A host's candidates in priority order: the precompiled pool, then the
/// answers of Google's and Cloudflare's DNS-over-HTTPS (each list as the
/// caller got it, empty on error); an address is listed once, under the
/// first source that gave it.
pub fn discover_candidates(precompiled: &Vec<String>, google: &Vec<String>, cloudflare: &Vec<String>) -> (r: Vec<IpCandidate>)
    ensures
        candidate_views(r@) == with_new(
            with_new(with_new(seq![], views(precompiled@), DiscoverySource::Precompiled), views(google@), DiscoverySource::GoogleDoH),
            views(cloudflare@),
            DiscoverySource::CloudflareDoH,
        ),
{
    let mut out: Vec<IpCandidate> = Vec::new();
    assert(candidate_views(out@) =~= seq![]);
    add_tagged(&mut out, precompiled, DiscoverySource::Precompiled);
    add_tagged(&mut out, google, DiscoverySource::GoogleDoH);
    add_tagged(&mut out, cloudflare, DiscoverySource::CloudflareDoH);
    out
}

/// The candidates extended with the community list's addresses for the
/// host or a parent domain (those that parse, as canonical text).
pub fn discover_candidates_with_geohide(candidates: Vec<IpCandidate>, community: &Vec<String>) -> (r: Vec<IpCandidate>)
    ensures
        candidate_views(r@) == with_new(candidate_views(candidates@), views(community@), DiscoverySource::GeoHide),
{
    let mut out = candidates;
    add_tagged(&mut out, community, DiscoverySource::GeoHide);
    out
}

/// No address is listed twice: adding addresses keeps a list free of
/// repeats.
pub proof fn lemma_candidates_distinct(cs: Seq<(Seq<char>, DiscoverySource)>, ips: Seq<Seq<char>>, source: DiscoverySource)
    requires
        forall|i: int, j: int| 0 <= i < j < cs.len() ==> (#[trigger] cs[i]).0 != (#[trigger] cs[j]).0,
    ensures
        ({
            let r = with_new(cs, ips, source);
            forall|i: int, j: int| 0 <= i < j < r.len() ==> (#[trigger] r[i]).0 != (#[trigger] r[j]).0
        }),
    decreases ips.len(),
{
    if ips.len() > 0 {
        lemma_candidates_distinct(cs, ips.drop_last(), source);
        let r = with_new(cs, ips.drop_last(), source);
        if !listed(r, ips.last()) {
            let t = r.push((ips.last(), source));
            assert forall|i: int, j: int| 0 <= i < j < t.len() implies (#[trigger] t[i]).0 != (#[trigger] t[j]).0 by {
                if j == r.len() {
                    assert(t[i] == r[i]);
                } else {
                    assert(t[i] == r[i] && t[j] == r[j]);
                }
            }
        }
    }
}

} // verus!
