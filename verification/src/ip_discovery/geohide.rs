//! The community hosts file (GeoHide DNS): its format and the filter to
//! the hosts this program cares about.
use vstd::prelude::*;
use crate::text::{chars_of, string_of, strings_of, slice_of, extend, eq_chars, views, cviews, trim, trim_end, trim_chars, trim_end_chars, find, find_chars, contains, contains_chars, starts_with, starts_with_chars, ends_with, ends_with_chars, has_char, has_char_exec, split_ws, split_ws_chars, lemma_split_ws_tokens, no_ws, is_ws, lead, trail, lemma_lead_bounds, lemma_trail_bounds, trim_start, lines, lines_chars, lowercase, to_lowercase, find_char_from, find_char_exec, lemma_find_char_from, eq_ignore_ascii_case, eq_ignore_ascii_case_chars, find_from, lemma_find_from, occurs_at, pair_views};

verus! {

// ---------------------------------------------------------------------------
// Community hosts format: `IP hostname [hostname...]` per line
// ---------------------------------------------------------------------------

/// The entries that one line of a hosts-format file gives: `(host, ip)` for
/// every host named after an address-like first word (one holding `.` or
/// `:`); blank lines, `#` lines and text after ` #` give nothing.
pub open spec fn hosts_format_line(raw: Seq<char>) -> Seq<(Seq<char>, Seq<char>)> {
    let l1 = trim(raw);
    if l1.len() == 0 || l1[0] == '#' {
        seq![]
    } else {
        let l2 = match find(l1, seq![' ', '#']) {
            Some(i) => l1.take(i),
            None => l1,
        };
        let parts = split_ws(trim(l2));
        if parts.len() == 0 {
            seq![]
        } else if !has_char(parts[0], '.') && !has_char(parts[0], ':') {
            seq![]
        } else {
            parts.skip(1).map_values(|h: Seq<char>| (h, parts[0]))
        }
    }
}

/// The entries of all `lines`, in order.
pub open spec fn hosts_format_lines(ls: Seq<Seq<char>>) -> Seq<(Seq<char>, Seq<char>)>
    decreases ls.len(),
{
    if ls.len() == 0 {
        seq![]
    } else {
        hosts_format_lines(ls.drop_last()) + hosts_format_line(ls.last())
    }
}

/// What `parse_hosts_format` returns for a file body.
pub open spec fn hosts_format(body: Seq<char>) -> Seq<(Seq<char>, Seq<char>)> {
    hosts_format_lines(lines(body))
}

fn hosts_format_line_exec(raw: &[char]) -> (r: Vec<(String, String)>)
    ensures
        pair_views(r@) == hosts_format_line(raw@),
{
    let mut out: Vec<(String, String)> = Vec::new();
    let l1 = trim_chars(raw);
    if l1.len() == 0 || l1[0] == '#' {
        assert(pair_views(out@) =~= seq![]);
        return out;
    }
    let hash_pat: Vec<char> = vec![' ', '#'];
    assert(hash_pat@ == seq![' ', '#']);
    let l2 = match find_chars(l1.as_slice(), hash_pat.as_slice()) {
        Some(idx) => {
            proof {
                lemma_find_from(l1@, hash_pat@, 0);
            }
            slice_of(l1.as_slice(), 0, idx)
        },
        None => l1,
    };
    let l3 = trim_chars(l2.as_slice());
    let parts = split_ws_chars(l3.as_slice());
    if parts.len() == 0 {
        assert(pair_views(out@) =~= seq![]);
        return out;
    }
    let ghost ps = cviews(parts@);
    assert(ps[0] == parts@[0]@);
    let ip = &parts[0];
    if !has_char_exec(ip.as_slice(), '.') && !has_char_exec(ip.as_slice(), ':') {
        assert(pair_views(out@) =~= seq![]);
        return out;
    }
    let ip_s = string_of(ip.as_slice());
    proof {
        lemma_split_ws_tokens(l3@);
    }
    let ghost want = ps.skip(1).map_values(|h: Seq<char>| (h, ps[0]));
    let mut k: usize = 1;
    while k < parts.len()
        invariant
            1 <= k <= parts.len(),
            ps == cviews(parts@),
            ps == split_ws(l3@),
            ip_s@ == ps[0],
            forall|j: int| 0 <= j < ps.len() ==> (#[trigger] ps[j]).len() > 0 && no_ws(ps[j]),
            want == ps.skip(1).map_values(|h: Seq<char>| (h, ps[0])),
            pair_views(out@) == want.take(k - 1),
        decreases parts.len() - k,
    {
        let host = &parts[k];
        assert(ps[k as int] == host@);
        let skip = host.len() == 0 || has_char_exec(host.as_slice(), ' ');
        proof {
            if has_char(host@, ' ') {
                let j = choose|j: int| 0 <= j < host@.len() && host@[j] == ' ';
                assert(!is_ws(ps[k as int][j]));
            }
        }
        if !skip {
            let hs = string_of(host.as_slice());
            let ghost o = out@;
            out.push((hs, ip_s.clone()));
            assert(pair_views(out@) == pair_views(o).push((hs@, ip_s@)));
        }
        k = k + 1;
        assert(want.take(k - 1) == want.take(k - 2).push(want[k - 2]));
    }
    assert(want.take(parts.len() - 1) =~= want);
    out
}

/// Parses a hosts-format file: `IP hostname [more-hostnames...]` per line.
/// Comment lines start with `#`; blank lines and lines whose first word
/// holds neither `.` nor `:` are skipped. Returns one `(host, ip)` pair
/// per host named.
pub fn parse_hosts_format(body: &str) -> (r: Vec<(String, String)>)
    ensures
        pair_views(r@) == hosts_format(body@),
{
    let v = chars_of(body);
    let ls = lines_chars(v.as_slice());
    let ghost lv = cviews(ls@);
    let mut out: Vec<(String, String)> = Vec::new();
    let mut i: usize = 0;
    while i < ls.len()
        invariant
            i <= ls.len(),
            lv == cviews(ls@),
            lv == lines(v@),
            pair_views(out@) == hosts_format_lines(lv.take(i as int)),
        decreases ls.len() - i,
    {
        let es = hosts_format_line_exec(ls[i].as_slice());
        let ghost o = out@;
        let mut j: usize = 0;
        while j < es.len()
            invariant
                j <= es.len(),
                pair_views(out@) == pair_views(o) + pair_views(es@).take(j as int),
            decreases es.len() - j,
        {
            let ghost o2 = out@;
            out.push((es[j].0.clone(), es[j].1.clone()));
            assert(pair_views(out@) == pair_views(o2).push(pair_views(es@)[j as int]));
            j = j + 1;
            assert(pair_views(es@).take(j as int) == pair_views(es@).take(j - 1).push(pair_views(es@)[j - 1]));
        }
        assert(pair_views(es@).take(es.len() as int) == pair_views(es@));
        assert(lv.take(i + 1).drop_last() == lv.take(i as int));
        assert(lv[i as int] == ls@[i as int]@);
        i = i + 1;
    }
    assert(lv.take(ls.len() as int) == lv);
    out
}


/// `h` is `t` or a subdomain of `t`, compared in lower case.
pub open spec fn matches_target(h: Seq<char>, t: Seq<char>) -> bool {
    let hl = lowercase(h);
    let tl = lowercase(t);
    hl == tl || ends_with(hl, seq!['.'] + tl)
}

pub open spec fn matches_any_target(h: Seq<char>, ts: Seq<Seq<char>>) -> bool {
    exists|i: int| 0 <= i < ts.len() && matches_target(h, #[trigger] ts[i])
}

/// The entries, in order, whose host matches one of the targets.
pub open spec fn filter_targets(es: Seq<(Seq<char>, Seq<char>)>, ts: Seq<Seq<char>>) -> Seq<
    (Seq<char>, Seq<char>),
>
    decreases es.len(),
{
    if es.len() == 0 {
        seq![]
    } else {
        let r = filter_targets(es.drop_last(), ts);
        if matches_any_target(es.last().0, ts) {
            r.push(es.last())
        } else {
            r
        }
    }
}

pub open spec fn str_views(v: Seq<&str>) -> Seq<Seq<char>> {
    v.map_values(|t: &str| t@)
}

fn matches_any_exec(host: &str, target_hosts: &[&str]) -> (r: bool)
    ensures
        r == matches_any_target(host@, str_views(target_hosts@)),
{
    let hl = to_lowercase(host);
    let h = chars_of(hl.as_str());
    let ghost ts = str_views(target_hosts@);
    let mut i: usize = 0;
    while i < target_hosts.len()
        invariant
            i <= target_hosts.len(),
            ts == str_views(target_hosts@),
            h@ == lowercase(host@),
            forall|j: int| 0 <= j < i ==> !matches_target(host@, #[trigger] ts[j]),
        decreases target_hosts.len() - i,
    {
        let tl = to_lowercase(target_hosts[i]);
        let t = chars_of(tl.as_str());
        let mut dotted: Vec<char> = vec!['.'];
        extend(&mut dotted, t.as_slice());
        assert(dotted@ == seq!['.'] + t@);
        assert(ts[i as int] == target_hosts@[i as int]@);
        assert(t@ == lowercase(ts[i as int]));
        if eq_chars(h.as_slice(), t.as_slice()) || ends_with_chars(h.as_slice(), dotted.as_slice()) {
            assert(matches_target(host@, ts[i as int]));
            return true;
        }
        i = i + 1;
    }
    false
}

/// Keeps the `(host, ip)` entries whose host is one of `target_hosts` or a
/// subdomain of one, compared in lower case.
pub fn filter_to_targets(entries: Vec<(String, String)>, target_hosts: &[&str]) -> (r: Vec<
    (String, String),
>)
    ensures
        pair_views(r@) == filter_targets(pair_views(entries@), str_views(target_hosts@)),
{
    let ghost es = pair_views(entries@);
    let ghost ts = str_views(target_hosts@);
    let mut out: Vec<(String, String)> = Vec::new();
    let mut i: usize = 0;
    while i < entries.len()
        invariant
            i <= entries.len(),
            es == pair_views(entries@),
            ts == str_views(target_hosts@),
            pair_views(out@) == filter_targets(es.take(i as int), ts),
        decreases entries.len() - i,
    {
        assert(es.take(i + 1).drop_last() == es.take(i as int));
        assert(es.take(i + 1).last() == es[i as int]);
        if matches_any_exec(entries[i].0.as_str(), target_hosts) {
            let ghost o = out@;
            out.push((entries[i].0.clone(), entries[i].1.clone()));
            assert(pair_views(out@) == pair_views(o).push(es[i as int]));
        }
        i = i + 1;
    }
    assert(es.take(entries.len() as int) == es);
    out
}

/// The community hosts file: the jsDelivr mirror first (rarely blocked by
/// DPI), then the file itself on raw.githubusercontent.com.
pub open spec fn geohide_primary() -> Seq<char> {
    "https://cdn.jsdelivr.net/gh/Internet-Helper/GeoHideDNS@main/hosts/hosts"@
}

pub open spec fn geohide_fallback() -> Seq<char> {
    "https://raw.githubusercontent.com/Internet-Helper/GeoHideDNS/refs/heads/main/hosts/hosts"@
}

pub fn geohide_primary_url() -> (r: String)
    ensures
        r@ == geohide_primary(),
{
    crate::bypass::lit("https://cdn.jsdelivr.net/gh/Internet-Helper/GeoHideDNS@main/hosts/hosts")
}

pub fn geohide_fallback_url() -> (r: String)
    ensures
        r@ == geohide_fallback(),
{
    crate::bypass::lit(
        "https://raw.githubusercontent.com/Internet-Helper/GeoHideDNS/refs/heads/main/hosts/hosts",
    )
}

pub open spec fn opt_text(o: Option<String>) -> Option<Seq<char>> {
    match o {
        Some(s) => Some(s@),
        None => None,
    }
}

/// The entries of the community hosts file: those of the body fetched from
/// the primary mirror, else of the body from the fallback mirror (fetched
/// only when the primary failed), else none.
pub open spec fn geohide_entries(primary: Option<Seq<char>>, fallback: Option<Seq<char>>) -> Seq<
    (Seq<char>, Seq<char>),
> {
    match primary {
        Some(b) => hosts_format(b),
        None => match fallback {
            Some(b) => hosts_format(b),
            None => seq![],
        },
    }
}

/// Parses whichever mirror answered; `primary` and `fallback` are the
/// bodies fetched from `geohide_primary_url` and `geohide_fallback_url`
/// (`None` for a failed fetch).
pub fn fetch_geohide_hosts(primary: Option<String>, fallback: Option<String>) -> (r: Vec<
    (String, String),
>)
    ensures
        pair_views(r@) == geohide_entries(opt_text(primary), opt_text(fallback)),
{
    match primary {
        Some(b) => parse_hosts_format(b.as_str()),
        None => match fallback {
            Some(b) => parse_hosts_format(b.as_str()),
            None => Vec::new(),
        },
    }
}

} // verus!
