//! System integration logic: the marker block that this program owns in
//! `/etc/hosts`, static host lists, the merge of overrides, and the
//! `nsswitch.conf` order fix.
use vstd::prelude::*;
use crate::config::{HostOverride, override_views};
use crate::text::{str_eq, chars_of, string_of, strings_of, slice_of, extend, eq_chars, views, cviews, trim, trim_end, trim_chars, trim_end_chars, find, find_chars, contains, contains_chars, starts_with, starts_with_chars, ends_with, ends_with_chars, has_char, has_char_exec, split_ws, split_ws_chars, lemma_split_ws_tokens, no_ws, is_ws, lead, trail, lemma_lead_bounds, lemma_trail_bounds, trim_start, lines, lines_chars, lowercase, to_lowercase, find_char_from, find_char_exec, lemma_find_char_from, eq_ignore_ascii_case, eq_ignore_ascii_case_chars, find_from, lemma_find_from, occurs_at, pair_views};

pub mod commands;

verus! {

pub open spec fn marker_begin() -> Seq<char> {
    seq!['#', ' ', 'B', 'E', 'G', 'I', 'N', ' ', 'u', 'n', 'b', 'l', 'o', 'c', 'k', 'e', 'r']
}

pub open spec fn marker_end() -> Seq<char> {
    seq!['#', ' ', 'E', 'N', 'D', ' ', 'u', 'n', 'b', 'l', 'o', 'c', 'k', 'e', 'r']
}

pub fn marker_begin_chars() -> (r: Vec<char>)
    ensures
        r@ == marker_begin(),
{
    let r = chars_of("# BEGIN unblocker");
    proof {
        reveal_strlit("# BEGIN unblocker");
    }
    assert(r@ == marker_begin());
    r
}

pub fn marker_end_chars() -> (r: Vec<char>)
    ensures
        r@ == marker_end(),
{
    let r = chars_of("# END unblocker");
    proof {
        reveal_strlit("# END unblocker");
    }
    assert(r@ == marker_end());
    r
}


// ---------------------------------------------------------------------------
// The marker block in /etc/hosts
// ---------------------------------------------------------------------------

/// Removes the marker block: the text before `# BEGIN unblocker` (trailing
/// whitespace dropped) joined to the text after `# END unblocker`. Without
/// both markers the text is kept.
pub open spec fn strip_marker_text(s: Seq<char>) -> Seq<char> {
    match find(s, marker_begin()) {
        Some(start) => match find(s, marker_end()) {
            Some(end) => trim_end(s.take(start)) + s.skip(end + marker_end().len()),
            None => s,
        },
        None => s,
    }
}

pub fn strip_marker(s: &str) -> (r: String)
    ensures
        r@ == strip_marker_text(s@),
{
    let v = chars_of(s);
    let b = marker_begin_chars();
    let e = marker_end_chars();
    if let Some(start) = find_chars(v.as_slice(), b.as_slice()) {
        if let Some(end) = find_chars(v.as_slice(), e.as_slice()) {
            proof {
                lemma_find_from(v@, b@, 0);
                lemma_find_from(v@, e@, 0);
                assert(find_from(v@, e@, 0) == Some(end as int));
                assert(occurs_at(v@, e@, end as int));
                assert(occurs_at(v@, b@, start as int));
                assert(end + e@.len() <= v@.len());
                assert(e@.len() == e.len());
            }
            let before = slice_of(v.as_slice(), 0, start);
            let mut out = trim_end_chars(before.as_slice());
            let k = e.len();
            assert(end + k <= v.len());
            let after = slice_of(v.as_slice(), end + k, v.len());
            extend(&mut out, after.as_slice());
            assert(before@ == v@.take(start as int));
            assert(after@ == v@.skip(end + e@.len()));
            return string_of(out.as_slice());
        }
    }
    string_of(v.as_slice())
}

/// The lines `ip domain` of one override.
pub open spec fn ip_lines(domain: Seq<char>, ips: Seq<Seq<char>>) -> Seq<char>
    decreases ips.len(),
{
    if ips.len() == 0 {
        seq![]
    } else {
        ip_lines(domain, ips.drop_last()) + ips.last() + seq![' '] + domain + seq!['\n']
    }
}

pub open spec fn override_lines(ovs: Seq<(Seq<char>, Seq<Seq<char>>)>) -> Seq<char>
    decreases ovs.len(),
{
    if ovs.len() == 0 {
        seq![]
    } else {
        override_lines(ovs.drop_last()) + ip_lines(ovs.last().0, ovs.last().1)
    }
}

/// The block written into /etc/hosts for a list of overrides.
pub open spec fn hosts_block_text(ovs: Seq<(Seq<char>, Seq<Seq<char>>)>) -> Seq<char> {
    seq!['\n'] + marker_begin() + seq!['\n'] + override_lines(ovs) + marker_end() + seq!['\n']
}

fn override_lines_exec(o: &HostOverride) -> (r: Vec<char>)
    ensures
        r@ == ip_lines(o@.0, o@.1),
{
    let d = chars_of(o.domain.as_str());
    let mut out: Vec<char> = Vec::new();
    let mut j: usize = 0;
    while j < o.ips.len()
        invariant
            j <= o.ips.len(),
            d@ == o.domain@,
            out@ == ip_lines(o@.0, views(o.ips@).take(j as int)),
        decreases o.ips.len() - j,
    {
        let ip = chars_of(o.ips[j].as_str());
        extend(&mut out, ip.as_slice());
        out.push(' ');
        extend(&mut out, d.as_slice());
        out.push('\n');
        let ghost ips = views(o.ips@);
        assert(ips.take(j + 1).drop_last() == ips.take(j as int));
        assert(ips.take(j + 1).last() == o.ips@[j as int]@);
        j = j + 1;
    }
    assert(views(o.ips@).take(o.ips.len() as int) == views(o.ips@));
    out
}

/// Renders the marker block for `overrides`: one `ip domain` line per
/// address, between `# BEGIN unblocker` and `# END unblocker`.
pub fn hosts_block(overrides: &[HostOverride]) -> (r: String)
    ensures
        r@ == hosts_block_text(override_views(overrides@)),
{
    let ghost ovs = override_views(overrides@);
    let mut out: Vec<char> = vec!['\n'];
    let b = marker_begin_chars();
    extend(&mut out, b.as_slice());
    out.push('\n');
    let ghost head = out@;
    let mut i: usize = 0;
    while i < overrides.len()
        invariant
            i <= overrides.len(),
            ovs == override_views(overrides@),
            out@ == head + override_lines(ovs.take(i as int)),
        decreases overrides.len() - i,
    {
        let l = override_lines_exec(&overrides[i]);
        extend(&mut out, l.as_slice());
        assert(ovs.take(i + 1).drop_last() == ovs.take(i as int));
        assert(ovs.take(i + 1).last() == overrides@[i as int]@);
        i = i + 1;
    }
    assert(ovs.take(overrides.len() as int) == ovs);
    let e = marker_end_chars();
    extend(&mut out, e.as_slice());
    out.push('\n');
    string_of(out.as_slice())
}

/// The new /etc/hosts text once `block` is applied, or `None` when the text
/// already holds a marker and the block (trimmed), so no write is needed.
pub open spec fn hosts_with_block(content: Seq<char>, block: Seq<char>) -> Option<Seq<char>> {
    if contains(content, marker_begin()) && contains(content, trim(block)) {
        None
    } else {
        Some(strip_marker_text(content) + block)
    }
}

pub fn hosts_content_with_block(content: &str, block: &str) -> (r: Option<String>)
    ensures
        r matches Some(s) ==> hosts_with_block(content@, block@) == Some(s@),
        r is None ==> hosts_with_block(content@, block@) is None,
{
    let c = chars_of(content);
    let b = marker_begin_chars();
    let bl = chars_of(block);
    let t = trim_chars(bl.as_slice());
    if contains_chars(c.as_slice(), b.as_slice()) && contains_chars(c.as_slice(), t.as_slice()) {
        return None;
    }
    let cleaned = strip_marker(content);
    let mut out = chars_of(cleaned.as_str());
    extend(&mut out, bl.as_slice());
    Some(string_of(out.as_slice()))
}

/// The /etc/hosts text once the marker block is removed, or `None` when
/// the text holds no `# BEGIN unblocker` (nothing to do).
pub open spec fn hosts_without_block(content: Seq<char>) -> Option<Seq<char>> {
    if !contains(content, marker_begin()) {
        None
    } else {
        Some(strip_marker_text(content))
    }
}

pub fn hosts_content_without_block(content: &str) -> (r: Option<String>)
    ensures
        r matches Some(s) ==> hosts_without_block(content@) == Some(s@),
        r is None ==> hosts_without_block(content@) is None,
{
    let c = chars_of(content);
    let b = marker_begin_chars();
    if !contains_chars(c.as_slice(), b.as_slice()) {
        return None;
    }
    Some(strip_marker(content))
}


/// The hosts text with its marker block stripped (kept as it is when it
/// holds none).
pub open spec fn hosts_stripped(content: Seq<char>) -> Seq<char> {
    match hosts_without_block(content) {
        Some(s) => s,
        None => content,
    }
}

/// Applying `ovs` to the hosts text: the old block is always stripped
/// first; with no overrides nothing else is written; else the block for
/// the overrides is appended (unless the stripped text already holds it).
pub open spec fn hosts_applied(content: Seq<char>, ovs: Seq<(Seq<char>, Seq<Seq<char>>)>) -> Seq<char> {
    let s = hosts_stripped(content);
    if ovs.len() == 0 {
        s
    } else {
        match hosts_with_block(s, hosts_block_text(ovs)) {
            Some(t) => t,
            None => s,
        }
    }
}

/// The new /etc/hosts text once `overrides` are applied to `existing`, or
/// `None` when the file stays as it is.
pub fn hosts_apply_text(existing: &str, overrides: &[HostOverride]) -> (r: Option<String>)
    ensures
        r matches Some(t) ==> t@ == hosts_applied(existing@, override_views(overrides@)) && t@ != existing@,
        r is None ==> hosts_applied(existing@, override_views(overrides@)) == existing@,
{
    let stripped = match hosts_content_without_block(existing) {
        Some(s) => s,
        None => String::from_str(existing),
    };
    let applied = if overrides.len() == 0 {
        stripped
    } else {
        let block = hosts_block(overrides);
        match hosts_content_with_block(stripped.as_str(), block.as_str()) {
            Some(t) => t,
            None => stripped,
        }
    };
    if str_eq(applied.as_str(), existing) {
        None
    } else {
        Some(applied)
    }
}

/// When the file holds at most one marker block (nothing of a begin marker
/// is left once it is stripped), applying overrides leaves the rest of the
/// file as stripping does and adds nothing for no overrides, else exactly
/// the one new block at the end.
pub proof fn lemma_hosts_apply_shape(content: Seq<char>, ovs: Seq<(Seq<char>, Seq<Seq<char>>)>)
    requires
        !contains(hosts_stripped(content), marker_begin()),
    ensures
        ovs.len() == 0 ==> hosts_applied(content, ovs) == hosts_stripped(content),
        ovs.len() > 0 ==> hosts_applied(content, ovs) == hosts_stripped(content) + hosts_block_text(ovs),
{
    let s = hosts_stripped(content);
    assert(find(s, marker_begin()) is None);
    assert(strip_marker_text(s) == s);
}

/// An occurrence in `b` is an occurrence in `a + b`, shifted by `a`'s length.
pub proof fn lemma_occurs_in_suffix(a: Seq<char>, b: Seq<char>, n: Seq<char>, i: int)
    requires
        occurs_at(b, n, i),
    ensures
        occurs_at(a + b, n, a.len() + i),
{
    assert((a + b).subrange(a.len() + i, a.len() + i + n.len()) =~= b.subrange(i, i + n.len()));
}

/// An occurrence anywhere makes `contains` true.
pub proof fn lemma_occurs_contains(h: Seq<char>, n: Seq<char>, i: int)
    requires
        occurs_at(h, n, i),
    ensures
        contains(h, n),
{
    lemma_find_from(h, n, 0);
}

/// The trimmed text occurs in the text.
pub proof fn lemma_trim_occurs(s: Seq<char>)
    ensures
        occurs_at(s, trim(s), lead(s, 0)),
{
    lemma_lead_bounds(s, 0);
    let t = s.skip(lead(s, 0));
    lemma_trail_bounds(t, t.len() as int);
    assert(s.subrange(lead(s, 0), lead(s, 0) + trim(s).len()) =~= trim(s));
}

/// Every block that `hosts_block` renders holds the begin marker.
pub proof fn lemma_block_has_begin(ovs: Seq<(Seq<char>, Seq<Seq<char>>)>)
    ensures
        contains(hosts_block_text(ovs), marker_begin()),
{
    let b = hosts_block_text(ovs);
    assert(b.subrange(1, 1 + marker_begin().len() as int) =~= marker_begin());
    lemma_occurs_contains(b, marker_begin(), 1);
}

/// Applying the same overrides a second time finds the hosts file up to
/// date: the write happens once.
pub proof fn lemma_hosts_apply_idempotent(content: Seq<char>, ovs: Seq<(Seq<char>, Seq<Seq<char>>)>)
    ensures
        hosts_with_block(content, hosts_block_text(ovs)) matches Some(c2) ==> hosts_with_block(
            c2,
            hosts_block_text(ovs),
        ) is None,
{
    let block = hosts_block_text(ovs);
    if let Some(c2) = hosts_with_block(content, block) {
        let a = strip_marker_text(content);
        assert(c2 == a + block);
        lemma_block_has_begin(ovs);
        lemma_find_from(block, marker_begin(), 0);
        let k = find(block, marker_begin())->0;
        lemma_occurs_in_suffix(a, block, marker_begin(), k);
        lemma_occurs_contains(c2, marker_begin(), a.len() + k);
        lemma_trim_occurs(block);
        lemma_occurs_in_suffix(a, block, trim(block), lead(block, 0));
        lemma_occurs_contains(c2, trim(block), a.len() + lead(block, 0));
    }
}


pub proof fn lemma_occurs_char(h: Seq<char>, n: Seq<char>, j: int, k: int)
    requires
        occurs_at(h, n, j),
        0 <= k < n.len(),
    ensures
        h[j + k] == n[k],
{
    assert(h.subrange(j, j + n.len())[k] == h[j + k]);
}

/// Without an occurrence, `contains` is false; so no index holds one.
pub proof fn lemma_not_contains(h: Seq<char>, n: Seq<char>, j: int)
    requires
        !contains(h, n),
        0 <= j,
    ensures
        !occurs_at(h, n, j),
{
    lemma_find_from(h, n, 0);
}

pub open spec fn no_hash(s: Seq<char>) -> bool {
    forall|i: int| 0 <= i < s.len() ==> s[i] != '#'
}

/// No `#` in any domain or address of the overrides.
pub open spec fn overrides_without_hash(ovs: Seq<(Seq<char>, Seq<Seq<char>>)>) -> bool {
    forall|i: int|
        0 <= i < ovs.len() ==> no_hash((#[trigger] ovs[i]).0) && forall|j: int|
            0 <= j < ovs[i].1.len() ==> no_hash(#[trigger] ovs[i].1[j])
}

proof fn lemma_no_hash_concat(a: Seq<char>, b: Seq<char>)
    requires
        no_hash(a),
        no_hash(b),
    ensures
        no_hash(a + b),
{
    assert forall|i: int| 0 <= i < (a + b).len() implies (a + b)[i] != '#' by {
        if i < a.len() {
            assert((a + b)[i] == a[i]);
        } else {
            assert((a + b)[i] == b[i - a.len()]);
        }
    }
}

proof fn lemma_ip_lines_no_hash(d: Seq<char>, ips: Seq<Seq<char>>)
    requires
        no_hash(d),
        forall|j: int| 0 <= j < ips.len() ==> no_hash(#[trigger] ips[j]),
    ensures
        no_hash(ip_lines(d, ips)),
    decreases ips.len(),
{
    if ips.len() > 0 {
        lemma_ip_lines_no_hash(d, ips.drop_last());
        let p = ip_lines(d, ips.drop_last());
        assert(no_hash(ips.last()));
        assert(no_hash(seq![' ']));
        assert(no_hash(seq!['\n']));
        lemma_no_hash_concat(p, ips.last());
        lemma_no_hash_concat(p + ips.last(), seq![' ']);
        lemma_no_hash_concat(p + ips.last() + seq![' '], d);
        lemma_no_hash_concat(p + ips.last() + seq![' '] + d, seq!['\n']);
    }
}

proof fn lemma_override_lines_no_hash(ovs: Seq<(Seq<char>, Seq<Seq<char>>)>)
    requires
        overrides_without_hash(ovs),
    ensures
        no_hash(override_lines(ovs)),
    decreases ovs.len(),
{
    if ovs.len() > 0 {
        let init = ovs.drop_last();
        assert(overrides_without_hash(init)) by {
            assert forall|i: int| 0 <= i < init.len() implies no_hash((#[trigger] init[i]).0)
                && forall|j: int| 0 <= j < init[i].1.len() ==> no_hash(#[trigger] init[i].1[j]) by {
                assert(init[i] == ovs[i]);
            }
        }
        lemma_override_lines_no_hash(init);
        let last = ovs.last();
        assert(last == ovs[ovs.len() - 1]);
        lemma_ip_lines_no_hash(last.0, last.1);
        lemma_no_hash_concat(override_lines(init), ip_lines(last.0, last.1));
    }
}

proof fn lemma_trail_prefix(s1: Seq<char>, s2: Seq<char>, j: int)
    requires
        0 <= j <= s1.len(),
        j <= s2.len(),
        s1.take(j) == s2.take(j),
    ensures
        trail(s1, j) == trail(s2, j),
    decreases j,
{
    if j > 0 {
        assert(s1[j - 1] == s1.take(j)[j - 1]);
        assert(s2[j - 1] == s2.take(j)[j - 1]);
        assert(s1.take(j - 1) =~= s1.take(j).take(j - 1));
        assert(s2.take(j - 1) =~= s2.take(j).take(j - 1));
        lemma_trail_prefix(s1, s2, j - 1);
    }
}

proof fn lemma_first_after_newline(a: Seq<char>, bm: Seq<char>, rest: Seq<char>)
    requires
        !contains(a, bm),
        bm.len() > 0,
        forall|k: int| 0 <= k < bm.len() ==> bm[k] != '\n',
    ensures
        find(a + (seq!['\n'] + bm + rest), bm) == Some(a.len() + 1int),
{
    let x = a + (seq!['\n'] + bm + rest);
    let n = a.len() as int;
    assert forall|k: int| 0 <= k < n implies x[k] == a[k] by {}
    assert(x[n] == '\n');
    assert(occurs_at(x, bm, n + 1)) by {
        assert(x.subrange(n + 1, n + 1 + bm.len()) =~= bm);
    }
    assert forall|j: int| 0 <= j < n + 1 implies !occurs_at(x, bm, j) by {
        if occurs_at(x, bm, j) {
            if j + bm.len() <= n {
                assert(x.subrange(j, j + bm.len()) =~= a.subrange(j, j + bm.len()));
                lemma_not_contains(a, bm, j);
            } else {
                lemma_occurs_char(x, bm, j, n - j);
            }
        }
    }
    lemma_find_from(x, bm, 0);
}

#[verifier::rlimit(40)]
proof fn lemma_first_end_marker(a: Seq<char>, bm: Seq<char>, l: Seq<char>, em: Seq<char>)
    requires
        !contains(a, em),
        em.len() >= 3,
        bm.len() >= 3,
        em[0] == '#',
        bm[0] == '#',
        bm[2] != em[2],
        forall|k: int| 0 <= k < em.len() ==> em[k] != '\n',
        forall|k: int| 1 <= k < bm.len() ==> bm[k] != '#',
        no_hash(l),
    ensures
        find(a + (seq!['\n'] + bm + seq!['\n'] + l + em + seq!['\n']), em) == Some(
            (a.len() + 2 + bm.len() + l.len()) as int,
        ),
{
    let x = a + (seq!['\n'] + bm + seq!['\n'] + l + em + seq!['\n']);
    let n = a.len() as int;
    let bn = bm.len() as int;
    let e = n + 2 + bn + l.len();
    lemma_end_at(a, bm, l, em);
    assert forall|j: int| 0 <= j < e implies !occurs_at(x, em, j) by {
        lemma_no_end_before(a, bm, l, em, j);
    }
    lemma_find_from(x, em, 0);
    let f = find_from(x, em, 0);
    if f is None {
        assert(!occurs_at(x, em, e));
    } else {
        let k = f->0;
        if k < e {
            assert(!occurs_at(x, em, k));
        } else if k > e {
            assert(!occurs_at(x, em, e));
        }
    }
}

proof fn lemma_end_at(a: Seq<char>, bm: Seq<char>, l: Seq<char>, em: Seq<char>)
    ensures
        occurs_at(
            a + (seq!['\n'] + bm + seq!['\n'] + l + em + seq!['\n']),
            em,
            (a.len() + 2 + bm.len() + l.len()) as int,
        ),
{
    let x = a + (seq!['\n'] + bm + seq!['\n'] + l + em + seq!['\n']);
    let e = (a.len() + 2 + bm.len() + l.len()) as int;
    assert(x.subrange(e, e + em.len()) =~= em);
}

#[verifier::rlimit(40)]
proof fn lemma_no_end_before(a: Seq<char>, bm: Seq<char>, l: Seq<char>, em: Seq<char>, j: int)
    requires
        !contains(a, em),
        em.len() >= 3,
        bm.len() >= 3,
        em[0] == '#',
        bm[0] == '#',
        bm[2] != em[2],
        forall|k: int| 0 <= k < em.len() ==> em[k] != '\n',
        forall|k: int| 1 <= k < bm.len() ==> bm[k] != '#',
        no_hash(l),
        0 <= j < a.len() + 2 + bm.len() + l.len(),
    ensures
        !occurs_at(a + (seq!['\n'] + bm + seq!['\n'] + l + em + seq!['\n']), em, j),
{
    let x = a + (seq!['\n'] + bm + seq!['\n'] + l + em + seq!['\n']);
    let n = a.len() as int;
    let bn = bm.len() as int;
    if occurs_at(x, em, j) {
        lemma_block_chars_generic(a, bm, l, em);
        if j + em.len() <= n {
            assert(x.subrange(j, j + em.len()) =~= a.subrange(j, j + em.len()));
            lemma_not_contains(a, em, j);
        } else if j <= n {
            lemma_occurs_char(x, em, j, n - j);
        } else if j == n + 1 {
            lemma_occurs_char(x, em, j, 2);
        } else if j < n + 1 + bn {
            lemma_occurs_char(x, em, j, 0);
            assert(x[j] == bm[j - n - 1]);
        } else if j == n + 1 + bn {
            lemma_occurs_char(x, em, j, 0);
        } else {
            lemma_occurs_char(x, em, j, 0);
            assert(x[j] == l[j - n - 2 - bn]);
        }
    }
}

proof fn lemma_block_chars_generic(a: Seq<char>, bm: Seq<char>, l: Seq<char>, em: Seq<char>)
    ensures
        ({
            let x = a + (seq!['\n'] + bm + seq!['\n'] + l + em + seq!['\n']);
            let n = a.len() as int;
            let bn = bm.len() as int;
            let e = n + 2 + bn + l.len();
            &&& x.len() == e + em.len() + 1
            &&& forall|k: int| 0 <= k < n ==> x[k] == a[k]
            &&& x[n] == '\n'
            &&& forall|k: int| 0 <= k < bn ==> x[n + 1 + k] == bm[k]
            &&& x[n + 1 + bn] == '\n'
            &&& forall|k: int| 0 <= k < l.len() ==> x[n + 2 + bn + k] == l[k]
            &&& forall|k: int| 0 <= k < em.len() ==> x[e + k] == em[k]
            &&& x[e + em.len()] == '\n'
        }),
{
}

pub(crate) proof fn lemma_marker_chars()
    ensures
        marker_begin().len() == 17,
        marker_end().len() == 15,
        marker_begin()[0] == '#',
        marker_end()[0] == '#',
        marker_begin()[2] != marker_end()[2],
        forall|k: int| 0 <= k < marker_end().len() ==> marker_end()[k] != '\n',
        forall|k: int| 0 <= k < marker_begin().len() ==> marker_begin()[k] != '\n',
        forall|k: int| 1 <= k < marker_begin().len() ==> marker_begin()[k] != '#',
{
    let b = marker_begin();
    let e = marker_end();
    assert(b[1] != '#' && b[2] != '#' && b[3] != '#' && b[4] != '#' && b[5] != '#' && b[6] != '#'
        && b[7] != '#' && b[8] != '#' && b[9] != '#' && b[10] != '#' && b[11] != '#' && b[12] != '#'
        && b[13] != '#' && b[14] != '#' && b[15] != '#' && b[16] != '#');
    assert(b[0] != '\n');
    assert(e[0] != '\n' && e[1] != '\n' && e[2] != '\n' && e[3] != '\n' && e[4] != '\n' && e[5]
        != '\n' && e[6] != '\n' && e[7] != '\n' && e[8] != '\n' && e[9] != '\n' && e[10] != '\n'
        && e[11] != '\n' && e[12] != '\n' && e[13] != '\n' && e[14] != '\n');
}

/// Removing the block right after applying it gives back the rest of the
/// file untouched (up to trailing whitespace, which becomes one newline):
/// the marker block is the only part of /etc/hosts that this program owns.
/// It holds when the file outside the block carries no marker text, and no
/// override domain or address holds a `#`.
pub proof fn lemma_hosts_remove_after_apply(content: Seq<char>, ovs: Seq<(Seq<char>, Seq<Seq<char>>)>)
    requires
        !contains(strip_marker_text(content), marker_begin()),
        !contains(strip_marker_text(content), marker_end()),
        overrides_without_hash(ovs),
    ensures
        hosts_with_block(content, hosts_block_text(ovs)) matches Some(c2) ==> hosts_without_block(c2)
            == Some(trim_end(strip_marker_text(content)) + seq!['\n']),
{
    let block = hosts_block_text(ovs);
    if let Some(x) = hosts_with_block(content, block) {
        let a = strip_marker_text(content);
        let l = override_lines(ovs);
        let n = a.len() as int;
        let e = n + 2 + marker_begin().len() + l.len();
        assert(block =~= seq!['\n'] + marker_begin() + seq!['\n'] + l + marker_end() + seq!['\n']);
        assert(x == a + block);
        lemma_override_lines_no_hash(ovs);
        lemma_marker_chars();
        lemma_first_after_newline(a, marker_begin(), seq!['\n'] + l + marker_end() + seq!['\n']);
        assert(a + block =~= a + (seq!['\n'] + marker_begin() + (seq!['\n'] + l + marker_end() + seq!['\n'])));
        lemma_first_end_marker(a, marker_begin(), l, marker_end());
        lemma_block_chars_generic(a, marker_begin(), l, marker_end());
        lemma_find_from(x, marker_begin(), 0);
        assert(contains(x, marker_begin()));
        let r = strip_marker_text(x);
        assert(r == trim_end(x.take(n + 1)) + x.skip(e + marker_end().len()));
        assert(x.skip(e + marker_end().len()) =~= seq!['\n']);
        let y = x.take(n + 1);
        assert(y =~= a + seq!['\n']);
        assert(trail(y, n + 1) == trail(y, n));
        assert(y.take(n) =~= a.take(n));
        lemma_trail_prefix(y, a, n);
        lemma_trail_bounds(a, n);
        assert(trim_end(y) =~= trim_end(a));
    }
}


// ---------------------------------------------------------------------------
// Static host lists and merging of overrides
// ---------------------------------------------------------------------------

pub open spec fn has_domain(ovs: Seq<(Seq<char>, Seq<Seq<char>>)>, d: Seq<char>) -> bool {
    exists|i: int| 0 <= i < ovs.len() && (#[trigger] ovs[i]).0 == d
}

/// The overrides read from the lines of a static hosts file: `ip domain`
/// per line (more words ignored); blank and `#` lines skipped; the first
/// line for a domain wins.
pub open spec fn static_scan(ls: Seq<Seq<char>>) -> Seq<(Seq<char>, Seq<Seq<char>>)>
    decreases ls.len(),
{
    if ls.len() == 0 {
        seq![]
    } else {
        let r = static_scan(ls.drop_last());
        let l = trim(ls.last());
        if l.len() == 0 || l[0] == '#' {
            r
        } else {
            let p = split_ws(l);
            if p.len() < 2 || has_domain(r, p[1]) {
                r
            } else {
                r.push((p[1], seq![p[0]]))
            }
        }
    }
}

pub open spec fn static_hosts(content: Seq<char>) -> Seq<(Seq<char>, Seq<Seq<char>>)> {
    static_scan(lines(content))
}

fn has_domain_exec(ovs: &Vec<HostOverride>, d: &[char]) -> (r: bool)
    ensures
        r == has_domain(override_views(ovs@), d@),
{
    let mut i: usize = 0;
    while i < ovs.len()
        invariant
            i <= ovs.len(),
            forall|j: int| 0 <= j < i ==> (#[trigger] override_views(ovs@)[j]).0 != d@,
        decreases ovs.len() - i,
    {
        let x = chars_of(ovs[i].domain.as_str());
        assert(override_views(ovs@)[i as int] == ovs@[i as int]@);
        if eq_chars(x.as_slice(), d) {
            return true;
        }
        i = i + 1;
    }
    false
}

/// Reads a static hosts file (`ip domain` per line) into overrides, one
/// address each; the first line for a domain wins.
pub fn static_hosts_from(content: &str) -> (r: Vec<HostOverride>)
    ensures
        override_views(r@) == static_hosts(content@),
{
    let v = chars_of(content);
    let ls = lines_chars(v.as_slice());
    let ghost lv = cviews(ls@);
    let mut out: Vec<HostOverride> = Vec::new();
    let mut i: usize = 0;
    while i < ls.len()
        invariant
            i <= ls.len(),
            lv == cviews(ls@),
            lv == lines(v@),
            override_views(out@) == static_scan(lv.take(i as int)),
        decreases ls.len() - i,
    {
        assert(lv.take(i + 1).drop_last() == lv.take(i as int));
        assert(lv.take(i + 1).last() == ls@[i as int]@);
        let l = trim_chars(ls[i].as_slice());
        if !(l.len() == 0 || l[0] == '#') {
            let p = split_ws_chars(l.as_slice());
            if p.len() >= 2 {
                let ghost pv = cviews(p@);
                assert(pv[1] == p@[1]@);
                assert(pv[0] == p@[0]@);
                if !has_domain_exec(&out, p[1].as_slice()) {
                    let ip = string_of(p[0].as_slice());
                    let ips: Vec<String> = vec![ip];
                    assert(views(ips@) =~= seq![p@[0]@]);
                    let o = HostOverride { domain: string_of(p[1].as_slice()), ips };
                    let ghost before = out@;
                    out.push(o);
                    assert(override_views(out@) == override_views(before).push((pv[1], seq![pv[0]])));
                }
            }
        }
        i = i + 1;
    }
    assert(lv.take(ls.len() as int) == lv);
    out
}

/// `base` followed by each override of `extra` whose domain is not already
/// present (in `base` or among those added before it).
pub open spec fn merged(base: Seq<(Seq<char>, Seq<Seq<char>>)>, extra: Seq<(Seq<char>, Seq<Seq<char>>)>) -> Seq<
    (Seq<char>, Seq<Seq<char>>),
>
    decreases extra.len(),
{
    if extra.len() == 0 {
        base
    } else {
        let r = merged(base, extra.drop_last());
        if has_domain(r, extra.last().0) {
            r
        } else {
            r.push(extra.last())
        }
    }
}

/// Adds the overrides of `extra` for domains not yet present; those of
/// `base` (the configuration's own) win.
pub fn merge_overrides(base: Vec<HostOverride>, extra: Vec<HostOverride>) -> (r: Vec<HostOverride>)
    ensures
        override_views(r@) == merged(override_views(base@), override_views(extra@)),
{
    let ghost b = override_views(base@);
    let ghost ex = override_views(extra@);
    let mut out = base;
    let mut i: usize = 0;
    while i < extra.len()
        invariant
            i <= extra.len(),
            ex == override_views(extra@),
            override_views(out@) == merged(b, ex.take(i as int)),
        decreases extra.len() - i,
    {
        assert(ex.take(i + 1).drop_last() == ex.take(i as int));
        assert(ex.take(i + 1).last() == extra@[i as int]@);
        let d = chars_of(extra[i].domain.as_str());
        if !has_domain_exec(&out, d.as_slice()) {
            let ghost before = out@;
            out.push(extra[i].clone_override());
            assert(override_views(out@) == override_views(before).push(ex[i as int]));
        }
        i = i + 1;
    }
    assert(ex.take(extra.len() as int) == ex);
    out
}

/// The configuration's overrides stay first and unchanged, and every domain
/// of the added list ends up present.
pub proof fn lemma_merge_keeps_base(base: Seq<(Seq<char>, Seq<Seq<char>>)>, extra: Seq<(Seq<char>, Seq<Seq<char>>)>)
    ensures
        merged(base, extra).len() >= base.len(),
        merged(base, extra).take(base.len() as int) == base,
        forall|i: int| 0 <= i < extra.len() ==> has_domain(merged(base, extra), (#[trigger] extra[i]).0),
    decreases extra.len(),
{
    if extra.len() > 0 {
        let init = extra.drop_last();
        lemma_merge_keeps_base(base, init);
        let r = merged(base, init);
        let last = extra.last();
        assert forall|i: int| 0 <= i < extra.len() implies has_domain(merged(base, extra), (#[trigger] extra[i]).0) by {
            if i < init.len() {
                assert(init[i] == extra[i]);
                let k = choose|k: int| 0 <= k < r.len() && (#[trigger] r[k]).0 == init[i].0;
                if !has_domain(r, last.0) {
                    assert(r.push(last)[k] == r[k]);
                }
            } else {
                if !has_domain(r, last.0) {
                    assert(r.push(last)[r.len() as int] == last);
                }
            }
        }
        if !has_domain(r, last.0) {
            assert(r.push(last).take(base.len() as int) =~= r.take(base.len() as int));
        }
    }
}


// ---------------------------------------------------------------------------
// nsswitch.conf: look in /etc/hosts ("files") before systemd-resolved
// ---------------------------------------------------------------------------

pub open spec fn hosts_prefix() -> Seq<char> {
    seq!['h', 'o', 's', 't', 's', ':']
}

pub open spec fn resolve_word() -> Seq<char> {
    seq!['r', 'e', 's', 'o', 'l', 'v', 'e']
}

pub open spec fn files_word() -> Seq<char> {
    seq!['f', 'i', 'l', 'e', 's']
}

pub open spec fn resolve_first_text() -> Seq<char> {
    seq!['r', 'e', 's', 'o', 'l', 'v', 'e', ' ', '[', '!', 'U', 'N', 'A', 'V', 'A', 'I', 'L', '=', 'r', 'e', 't', 'u', 'r', 'n', ']', ' ', 'f', 'i', 'l', 'e', 's']
}

pub open spec fn files_first_text() -> Seq<char> {
    seq!['f', 'i', 'l', 'e', 's', ' ', 'r', 'e', 's', 'o', 'l', 'v', 'e', ' ', '[', '!', 'U', 'N', 'A', 'V', 'A', 'I', 'L', '=', 'r', 'e', 't', 'u', 'r', 'n', ']']
}

/// The first line starting with `hosts:`.
pub open spec fn first_hosts_line(ls: Seq<Seq<char>>) -> Option<Seq<char>>
    decreases ls.len(),
{
    if ls.len() == 0 {
        None
    } else if starts_with(ls[0], hosts_prefix()) {
        Some(ls[0])
    } else {
        first_hosts_line(ls.drop_first())
    }
}

/// `resolve` is named before `files` on the line.
pub open spec fn resolve_before_files(line: Seq<char>) -> bool {
    match (find(line, resolve_word()), find(line, files_word())) {
        (Some(r), Some(f)) => r < f,
        _ => false,
    }
}

/// `str::replacen(pat, rep, 1)`: the first occurrence of `pat` replaced.
pub open spec fn replace_first(s: Seq<char>, pat: Seq<char>, rep: Seq<char>) -> Seq<char> {
    match find(s, pat) {
        Some(i) => s.take(i) + rep + s.skip(i + pat.len()),
        None => s,
    }
}

/// The `hosts:` line of the file asks systemd-resolved before /etc/hosts.
pub open spec fn nsswitch_needs_fix(content: Seq<char>) -> bool {
    match first_hosts_line(lines(content)) {
        Some(l) => resolve_before_files(l),
        None => false,
    }
}

/// The file with `files` moved before `resolve [!UNAVAIL=return]`, when a
/// fix is needed and the swap changes the text.
pub open spec fn nsswitch_fixed_text(content: Seq<char>) -> Option<Seq<char>> {
    if !nsswitch_needs_fix(content) {
        None
    } else {
        let f = replace_first(content, resolve_first_text(), files_first_text());
        if f != content {
            Some(f)
        } else {
            None
        }
    }
}

/// What to do to `/etc/nsswitch.conf`: whether the current file is to be backed
/// up (the `hosts:` line asks `resolve` before `files`), and the new text to
/// write, if any.
pub struct NsswitchFix {
    pub needs_fix: bool,
    pub fixed: Option<String>,
}

fn lit_chars(s: &str) -> (r: Vec<char>)
    ensures
        r@ == s@,
{
    chars_of(s)
}

fn first_hosts_line_index(ls: &Vec<Vec<char>>, hp: &Vec<char>) -> (r: Option<usize>)
    requires
        hp@ == hosts_prefix(),
    ensures
        r matches Some(k) ==> k < ls.len() && first_hosts_line(cviews(ls@)) == Some(ls@[k as int]@),
        r is None ==> first_hosts_line(cviews(ls@)) is None,
{
    let ghost lv = cviews(ls@);
    let mut i: usize = 0;
    assert(lv.skip(0) == lv);
    while i < ls.len()
        invariant
            i <= ls.len(),
            lv == cviews(ls@),
            hp@ == hosts_prefix(),
            first_hosts_line(lv.skip(i as int)) == first_hosts_line(lv),
        decreases ls.len() - i,
    {
        assert(lv.skip(i as int)[0] == ls@[i as int]@);
        if starts_with_chars(ls[i].as_slice(), hp.as_slice()) {
            return Some(i);
        }
        assert(lv.skip(i as int).drop_first() == lv.skip(i + 1));
        i = i + 1;
    }
    assert(lv.skip(i as int).len() == 0);
    None
}

pub fn nsswitch_fix(content: &str) -> (r: NsswitchFix)
    ensures
        r.needs_fix == nsswitch_needs_fix(content@),
        r.fixed matches Some(f) ==> nsswitch_fixed_text(content@) == Some(f@),
        r.fixed is None ==> nsswitch_fixed_text(content@) is None,
{
    let v = chars_of(content);
    let ls = lines_chars(v.as_slice());
    let hp = lit_chars("hosts:");
    let rw = lit_chars("resolve");
    let fw = lit_chars("files");
    let pat = lit_chars("resolve [!UNAVAIL=return] files");
    let rep = lit_chars("files resolve [!UNAVAIL=return]");
    proof {
        reveal_strlit("hosts:");
        reveal_strlit("resolve");
        reveal_strlit("files");
        reveal_strlit("resolve [!UNAVAIL=return] files");
        reveal_strlit("files resolve [!UNAVAIL=return]");
    }
    assert(hp@ == hosts_prefix());
    assert(rw@ == resolve_word());
    assert(fw@ == files_word());
    assert(pat@ == resolve_first_text());
    assert(rep@ == files_first_text());
    let ghost lv = cviews(ls@);
    let found = first_hosts_line_index(&ls, &hp);
    let needs = match found {
        None => false,
        Some(k) => {
            let line = &ls[k];
            match (find_chars(line.as_slice(), rw.as_slice()), find_chars(line.as_slice(), fw.as_slice())) {
                (Some(r), Some(f)) => r < f,
                _ => false,
            }
        },
    };
    if !needs {
        return NsswitchFix { needs_fix: false, fixed: None };
    }
    let fixed = match find_chars(v.as_slice(), pat.as_slice()) {
        Some(idx) => {
            proof {
                lemma_find_from(v@, pat@, 0);
                assert(occurs_at(v@, pat@, idx as int));
            }
            let k = pat.len();
            assert(idx + k <= v.len());
            let mut out = slice_of(v.as_slice(), 0, idx);
            extend(&mut out, rep.as_slice());
            let after = slice_of(v.as_slice(), idx + k, v.len());
            extend(&mut out, after.as_slice());
            assert(out@ =~= v@.take(idx as int) + rep@ + v@.skip(idx + pat@.len()));
            out
        },
        None => v.clone(),
    };
    if eq_chars(fixed.as_slice(), v.as_slice()) {
        NsswitchFix { needs_fix: true, fixed: None }
    } else {
        NsswitchFix { needs_fix: true, fixed: Some(string_of(fixed.as_slice())) }
    }
}

} // verus!
