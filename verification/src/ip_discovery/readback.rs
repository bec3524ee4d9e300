//! What is written to the marker block of /etc/hosts is what is read back
//! from it.
use vstd::prelude::*;
use crate::text::{contains, occurs_at, find, lemma_find_from, line_scan, lines, strip_cr, split_ws, ws_scan, no_ws,
    is_ws, trim_end, trail, lemma_trail_bounds, lemma_split_ws_single};
use crate::system::{marker_begin, marker_end, lemma_occurs_contains, lemma_marker_chars};
use crate::ip_discovery::{hosts_with_entries_text, entry_lines, strip_block_text, hosts_block_pairs, block_scan};

verus! {

/// An occurrence in a piece of `s` is an occurrence in `s`.
proof fn lemma_occurs_in_subrange(s: Seq<char>, a: int, b: int, n: Seq<char>, i: int)
    requires
        0 <= a <= b <= s.len(),
        occurs_at(s.subrange(a, b), n, i),
    ensures
        occurs_at(s, n, a + i),
{
    assert(s.subrange(a, b).subrange(i, i + n.len()) =~= s.subrange(a + i, a + i + n.len()));
}

/// A text without `n` has no piece holding `n`.
proof fn lemma_piece_avoids(s: Seq<char>, a: int, b: int, n: Seq<char>)
    requires
        0 <= a <= b <= s.len(),
        !contains(s, n),
    ensures
        !contains(s.subrange(a, b), n),
{
    if contains(s.subrange(a, b), n) {
        lemma_find_from(s.subrange(a, b), n, 0);
        let k = find(s.subrange(a, b), n)->0;
        lemma_occurs_in_subrange(s, a, b, n, k);
        lemma_occurs_contains(s, n, a + k);
    }
}

/// The lines of a text without `n` do not hold `n`; the unfinished line is
/// the text's tail.
proof fn lemma_lines_avoid(s: Seq<char>, n: Seq<char>)
    requires
        !contains(s, n),
    ensures
        forall|k: int| 0 <= k < line_scan(s).0.len() ==> !contains(#[trigger] line_scan(s).0[k], n),
        line_scan(s).1.len() <= s.len(),
        line_scan(s).1 == s.subrange(s.len() - line_scan(s).1.len(), s.len() as int),
    decreases s.len(),
{
    if s.len() > 0 {
        let p = s.drop_last();
        assert(p == s.subrange(0, s.len() - 1));
        lemma_piece_avoids(s, 0, s.len() - 1, n);
        lemma_lines_avoid(p, n);
        let (o, c) = line_scan(p);
        if s.last() == '\n' {
            let a = p.len() - c.len();
            let b = if c.len() > 0 && c.last() == '\r' { p.len() - 1 } else { p.len() as int };
            assert(strip_cr(c) =~= s.subrange(a, b));
            lemma_piece_avoids(s, a, b, n);
            assert forall|k: int| 0 <= k < line_scan(s).0.len() implies !contains(#[trigger] line_scan(s).0[k], n) by {
                if k < o.len() {
                    assert(line_scan(s).0[k] == o[k]);
                }
            }
            assert(line_scan(s).1 =~= s.subrange(s.len() as int, s.len() as int));
        } else {
            assert(line_scan(s).1 =~= s.subrange(s.len() - line_scan(s).1.len(), s.len() as int));
        }
    }
}

/// Reading on after a finished line: the lines of the rest follow.
proof fn lemma_line_scan_concat(s: Seq<char>, t: Seq<char>)
    requires
        line_scan(s).1.len() == 0,
    ensures
        line_scan(s + t).0 == line_scan(s).0 + line_scan(t).0,
        line_scan(s + t).1 == line_scan(t).1,
    decreases t.len(),
{
    if t.len() == 0 {
        assert(s + t =~= s);
        assert(line_scan(s).0 + line_scan(t).0 =~= line_scan(s).0);
        assert(line_scan(s).1 =~= line_scan(t).1);
    } else {
        lemma_line_scan_concat(s, t.drop_last());
        assert((s + t).drop_last() =~= s + t.drop_last());
        assert((s + t).last() == t.last());
        let o = line_scan(t.drop_last()).0;
        let c = line_scan(t.drop_last()).1;
        assert((line_scan(s).0 + o).push(strip_cr(c)) =~= line_scan(s).0 + o.push(strip_cr(c)));
    }
}

/// A text without a line break is one unfinished line.
pub(crate) proof fn lemma_line_scan_plain(x: Seq<char>)
    requires
        forall|i: int| 0 <= i < x.len() ==> x[i] != '\n',
    ensures
        line_scan(x).0.len() == 0,
        line_scan(x).1 == x,
    decreases x.len(),
{
    if x.len() > 0 {
        lemma_line_scan_plain(x.drop_last());
        assert(x.drop_last().push(x.last()) =~= x);
    }
}

/// A line and its break.
proof fn lemma_one_line(x: Seq<char>)
    requires
        forall|i: int| 0 <= i < x.len() ==> x[i] != '\n',
        x.len() == 0 || x.last() != '\r',
    ensures
        line_scan(x + seq!['\n']).0 == seq![x],
        line_scan(x + seq!['\n']).1.len() == 0,
{
    lemma_line_scan_plain(x);
    assert((x + seq!['\n']).drop_last() =~= x);
    assert(seq![].push(strip_cr(x)) =~= seq![x]);
}

/// A hosts word: not empty, no whitespace.
pub open spec fn entry_word(w: Seq<char>) -> bool {
    w.len() > 0 && no_ws(w)
}

pub open spec fn entry_line(e: (Seq<char>, Seq<char>)) -> Seq<char> {
    e.1 + seq!['\t'] + e.0
}

pub open spec fn entry_line_list(es: Seq<(Seq<char>, Seq<char>)>) -> Seq<Seq<char>> {
    es.map_values(|e: (Seq<char>, Seq<char>)| entry_line(e))
}

pub open spec fn words_ok(es: Seq<(Seq<char>, Seq<char>)>) -> bool {
    forall|k: int| 0 <= k < es.len() ==> entry_word(#[trigger] es[k].0) && entry_word(es[k].1)
}

proof fn lemma_entry_line_chars(e: (Seq<char>, Seq<char>))
    requires
        entry_word(e.0),
        entry_word(e.1),
    ensures
        forall|i: int| 0 <= i < entry_line(e).len() ==> entry_line(e)[i] != '\n' && entry_line(e)[i] != ' ',
        entry_line(e).last() != '\r',
{
    let l = entry_line(e);
    assert forall|i: int| 0 <= i < l.len() implies l[i] != '\n' && l[i] != ' ' by {
        if i < e.1.len() {
            assert(l[i] == e.1[i]);
            assert(!is_ws(e.1[i]));
        } else if i == e.1.len() {
            assert(l[i] == '\t');
        } else {
            assert(l[i] == e.0[i - e.1.len() - 1]);
            assert(!is_ws(e.0[i - e.1.len() - 1]));
        }
    }
    assert(l.last() == e.0.last());
    assert(!is_ws(e.0[e.0.len() - 1]));
}

/// The lines of the entries' text are the entry lines.
proof fn lemma_entry_lines_scan(es: Seq<(Seq<char>, Seq<char>)>)
    requires
        words_ok(es),
    ensures
        line_scan(entry_lines(es)).0 == entry_line_list(es),
        line_scan(entry_lines(es)).1.len() == 0,
    decreases es.len(),
{
    if es.len() == 0 {
        assert(entry_line_list(es) =~= seq![]);
    } else {
        let init = es.drop_last();
        assert(words_ok(init)) by {
            assert forall|k: int| 0 <= k < init.len() implies entry_word(#[trigger] init[k].0) && entry_word(init[k].1) by {
                assert(init[k] == es[k]);
            }
        }
        lemma_entry_lines_scan(init);
        let e = es.last();
        assert(es[es.len() - 1] == e);
        lemma_entry_line_chars(e);
        lemma_one_line(entry_line(e));
        assert(entry_lines(es) =~= entry_lines(init) + (entry_line(e) + seq!['\n']));
        lemma_line_scan_concat(entry_lines(init), entry_line(e) + seq!['\n']);
        assert(entry_line_list(es) =~= entry_line_list(init) + seq![entry_line(e)]);
    }
}

/// A word, a whitespace character, a word: two pieces.
pub(crate) proof fn lemma_ws_scan_extend(s: Seq<char>, t: Seq<char>)
    requires
        no_ws(t),
    ensures
        ws_scan(s + t).0 == ws_scan(s).0,
        ws_scan(s + t).1 == ws_scan(s).1 + t,
    decreases t.len(),
{
    if t.len() == 0 {
        assert(s + t =~= s);
        assert(ws_scan(s).1 + t =~= ws_scan(s).1);
    } else {
        assert(no_ws(t.drop_last()));
        lemma_ws_scan_extend(s, t.drop_last());
        assert((s + t).drop_last() =~= s + t.drop_last());
        assert((s + t).last() == t.last());
        assert(!is_ws(t[t.len() - 1]));
        assert((ws_scan(s).1 + t.drop_last()).push(t.last()) =~= ws_scan(s).1 + t);
    }
}

proof fn lemma_split_entry_line(e: (Seq<char>, Seq<char>))
    requires
        entry_word(e.0),
        entry_word(e.1),
    ensures
        split_ws(entry_line(e)) == seq![e.1, e.0],
{
    lemma_split_ws_single(e.1);
    let a = e.1 + seq!['\t'];
    assert(a.drop_last() =~= e.1);
    assert(is_ws('\t'));
    assert(ws_scan(a).0 =~= seq![e.1]);
    assert(ws_scan(a).1.len() == 0);
    lemma_ws_scan_extend(a, e.0);
    assert(entry_line(e) =~= a + e.0);
    assert(ws_scan(a).1 + e.0 =~= e.0);
    assert(seq![e.1].push(e.0) =~= seq![e.1, e.0]);
}

/// A line without a space holds neither marker (each has one at index 1).
proof fn lemma_no_marker(l: Seq<char>, m: Seq<char>)
    requires
        forall|i: int| 0 <= i < l.len() ==> l[i] != ' ',
        m.len() > 1,
        m[1] == ' ',
    ensures
        !contains(l, m),
{
    if contains(l, m) {
        lemma_find_from(l, m, 0);
        let k = find(l, m)->0;
        assert(l.subrange(k, k + m.len())[1] == l[k + 1]);
    }
}

pub open spec fn swapped(es: Seq<(Seq<char>, Seq<char>)>) -> Seq<(Seq<char>, Seq<char>)> {
    es.map_values(|e: (Seq<char>, Seq<char>)| (e.1, e.0))
}

/// Outside the block nothing is collected.
proof fn lemma_block_scan_outside(ls: Seq<Seq<char>>)
    requires
        forall|k: int| 0 <= k < ls.len() ==> !contains(#[trigger] ls[k], marker_begin()),
    ensures
        block_scan(ls).0.len() == 0,
        !block_scan(ls).1,
    decreases ls.len(),
{
    if ls.len() > 0 {
        lemma_block_scan_outside(ls.drop_last());
        assert(ls.last() == ls[ls.len() - 1]);
    }
}

/// Inside the block every entry line gives its (address, host) pair.
proof fn lemma_block_scan_entries(base: Seq<Seq<char>>, es: Seq<(Seq<char>, Seq<char>)>)
    requires
        block_scan(base).1,
        words_ok(es),
    ensures
        block_scan(base + entry_line_list(es)).0 == block_scan(base).0 + swapped(es),
        block_scan(base + entry_line_list(es)).1,
    decreases es.len(),
{
    if es.len() == 0 {
        assert(base + entry_line_list(es) =~= base);
        assert(block_scan(base).0 + swapped(es) =~= block_scan(base).0);
    } else {
        let init = es.drop_last();
        assert(words_ok(init)) by {
            assert forall|k: int| 0 <= k < init.len() implies entry_word(#[trigger] init[k].0) && entry_word(init[k].1) by {
                assert(init[k] == es[k]);
            }
        }
        lemma_block_scan_entries(base, init);
        let e = es.last();
        assert(es[es.len() - 1] == e);
        let whole = base + entry_line_list(es);
        assert(whole.drop_last() =~= base + entry_line_list(init));
        assert(whole.last() == entry_line(e));
        lemma_entry_line_chars(e);
        lemma_marker_chars();
        lemma_no_marker(entry_line(e), marker_begin());
        lemma_no_marker(entry_line(e), marker_end());
        lemma_split_entry_line(e);
        assert((block_scan(base).0 + swapped(init)).push((e.1, e.0)) =~= block_scan(base).0 + swapped(es));
    }
}

/// What `add_to_hosts` writes is what `current_hosts_entries` reads back:
/// the marker block of the new file lists exactly the entries, in order,
/// as (address, host) pairs. This holds when the file outside the old
/// block carries no begin marker, and every host and address is a
/// non-empty word without whitespace.
pub proof fn lemma_entries_read_back(existing: Seq<char>, es: Seq<(Seq<char>, Seq<char>)>)
    requires
        !contains(strip_block_text(existing), marker_begin()),
        words_ok(es),
    ensures
        hosts_block_pairs(hosts_with_entries_text(existing, es)) == swapped(es),
{
    let st = strip_block_text(existing);
    let p = trim_end(st);
    let m = marker_begin();
    let n = marker_end();
    lemma_marker_chars();
    lemma_trail_bounds(st, st.len() as int);
    assert(p == st.subrange(0, trail(st, st.len() as int)));
    lemma_piece_avoids(st, 0, trail(st, st.len() as int), m);
    let a = p + seq!['\n'];
    // The text before the block holds no begin marker.
    assert(!contains(a, m)) by {
        if contains(a, m) {
            lemma_find_from(a, m, 0);
            let k = find(a, m)->0;
            if k + m.len() <= p.len() {
                assert(a.subrange(k, k + m.len()) =~= p.subrange(k, k + m.len()));
                lemma_occurs_contains(p, m, k);
            } else {
                let j = p.len() - k;
                assert(a.subrange(k, k + m.len())[j] == a[p.len() as int]);
            }
        }
    }
    lemma_lines_avoid(a, m);
    assert(a.drop_last() =~= p);
    let lp = line_scan(a).0;
    assert(line_scan(a).1.len() == 0);
    // The begin marker's line.
    assert(forall|i: int| 0 <= i < m.len() ==> m[i] != '\n');
    lemma_one_line(m);
    lemma_line_scan_concat(a, m + seq!['\n']);
    let b = a + (m + seq!['\n']);
    // The entries.
    lemma_entry_lines_scan(es);
    lemma_line_scan_concat(b, entry_lines(es));
    let c = b + entry_lines(es);
    // The end marker's line.
    assert(forall|i: int| 0 <= i < n.len() ==> n[i] != '\n');
    lemma_one_line(n);
    lemma_line_scan_concat(c, n + seq!['\n']);
    let d = c + (n + seq!['\n']);
    assert(hosts_with_entries_text(existing, es) =~= d);
    let ls = lp + seq![m] + entry_line_list(es) + seq![n];
    assert(line_scan(d).0 =~= ls);
    assert(lines(d) == ls);
    // Scanning the lines.
    lemma_block_scan_outside(lp);
    let before = lp.push(m);
    assert(before.drop_last() =~= lp);
    assert(occurs_at(m, m, 0)) by {
        assert(m.subrange(0, m.len() as int) =~= m);
    }
    lemma_occurs_contains(m, m, 0);
    assert(block_scan(before).0.len() == 0 && block_scan(before).1);
    lemma_block_scan_entries(before, es);
    let mid = before + entry_line_list(es);
    assert(ls =~= mid.push(n));
    assert(mid.push(n).drop_last() =~= mid);
    assert(!contains(n, m)) by {
        lemma_find_from(n, m, 0);
    }
    assert(occurs_at(n, n, 0)) by {
        assert(n.subrange(0, n.len() as int) =~= n);
    }
    lemma_occurs_contains(n, n, 0);
    assert(block_scan(before).0 + swapped(es) =~= swapped(es));
}

} // verus!
