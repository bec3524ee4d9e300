//! A strategy written back to its file is read again word for word.
use vstd::prelude::*;
use crate::text::{is_ws, no_ws, ws_scan, split_ws, lines, line_scan, trim, trim_start, trim_end, lead, trail,
    find_char_from, lemma_find_char_from, lemma_split_ws_single};
use crate::shell::{no_quotes, shell_split, lemma_shell_split_plain};
use crate::system::no_hash;
use crate::ip_discovery::readback::{lemma_line_scan_plain, lemma_ws_scan_extend};
use crate::zapret::{joined, strategy_words, before_comment};

verus! {

/// An argv word that a strategy file keeps as it is: not empty, without
/// whitespace, quotes or `#`.
pub open spec fn plain_word(w: Seq<char>) -> bool {
    w.len() > 0 && no_ws(w) && no_quotes(w) && no_hash(w)
}

pub open spec fn plain_words(ws: Seq<Seq<char>>) -> bool {
    forall|k: int| 0 <= k < ws.len() ==> plain_word(#[trigger] ws[k])
}

/// The joined text has no line break, quote or `#`, and starts and ends
/// with a word character.
proof fn lemma_joined_chars(ws: Seq<Seq<char>>)
    requires
        plain_words(ws),
    ensures
        forall|i: int| 0 <= i < joined(ws).len() ==> {
            let c = #[trigger] joined(ws)[i];
            c != '\n' && c != '#' && c != '\'' && c != '"'
        },
        ws.len() > 0 ==> joined(ws).len() > 0 && !is_ws(joined(ws)[0]) && !is_ws(joined(ws).last()),
    decreases ws.len(),
{
    if ws.len() == 1 {
        assert(plain_word(ws[0]));
        assert(joined(ws) == ws[0]);
    } else if ws.len() > 1 {
        let init = ws.drop_last();
        assert(plain_words(init)) by {
            assert forall|k: int| 0 <= k < init.len() implies plain_word(#[trigger] init[k]) by {
                assert(init[k] == ws[k]);
            }
        }
        lemma_joined_chars(init);
        let a = joined(init);
        let w = ws.last();
        assert(plain_word(ws[ws.len() - 1]));
        let j = joined(ws);
        assert(j == a + seq![' '] + w);
        assert forall|i: int| 0 <= i < j.len() implies {
            let c = #[trigger] j[i];
            c != '\n' && c != '#' && c != '\'' && c != '"'
        } by {
            if i < a.len() {
                assert(j[i] == a[i]);
            } else if i == a.len() {
                assert(j[i] == ' ');
            } else {
                assert(j[i] == w[i - a.len() - 1]);
                assert(!is_ws(w[i - a.len() - 1]));
            }
        }
        assert(j[0] == a[0]);
        assert(j.last() == w[w.len() - 1]);
    }
}

/// Scanning the joined words leaves every word but the last finished.
proof fn lemma_joined_scan(ws: Seq<Seq<char>>)
    requires
        plain_words(ws),
        ws.len() > 0,
    ensures
        ws_scan(joined(ws)) == (ws.drop_last(), ws.last()),
    decreases ws.len(),
{
    assert(plain_word(ws[ws.len() - 1]));
    if ws.len() == 1 {
        assert(plain_word(ws[0]));
        lemma_split_ws_single(ws[0]);
        assert(ws.drop_last() =~= Seq::<Seq<char>>::empty());
    } else {
        let init = ws.drop_last();
        assert(plain_words(init)) by {
            assert forall|k: int| 0 <= k < init.len() implies plain_word(#[trigger] init[k]) by {
                assert(init[k] == ws[k]);
            }
        }
        lemma_joined_scan(init);
        let a = joined(init) + seq![' '];
        assert(a.drop_last() =~= joined(init));
        assert(is_ws(' '));
        assert(plain_word(init[init.len() - 1]));
        assert(init.drop_last().push(init.last()) =~= init);
        assert(ws_scan(a).0 == init);
        assert(ws_scan(a).1.len() == 0);
        lemma_ws_scan_extend(a, ws.last());
        assert(joined(ws) =~= a + ws.last());
        assert(ws_scan(a).1 + ws.last() =~= ws.last());
    }
}

/// Saving an argv with `strategy_file_text` and reading the file back with
/// `strategy_args` (or `load_strategy_file`) gives the same argv, for words
/// without whitespace, quotes or `#`.
pub proof fn lemma_strategy_saved_then_loaded(args: Seq<Seq<char>>)
    requires
        plain_words(args),
    ensures
        strategy_words(lines(joined(args))) == args,
{
    let j = joined(args);
    lemma_joined_chars(args);
    if args.len() == 0 {
        assert(j.len() == 0);
        assert(lines(j) =~= Seq::<Seq<char>>::empty());
    } else {
        lemma_line_scan_plain(j);
        assert(lines(j) == seq![j]);
        let ls = seq![j];
        assert(ls.drop_last() =~= Seq::<Seq<char>>::empty());
        lemma_find_char_from(j, '#', 0);
        assert(find_char_from(j, '#', 0) is None);
        assert(lead(j, 0) == 0);
        assert(j.skip(0) =~= j);
        assert(trim_start(j) == j);
        assert(j.last() == j[j.len() - 1]);
        assert(trail(j, j.len() as int) == j.len());
        assert(j.take(j.len() as int) =~= j);
        assert(trim(j) == j);
        assert(before_comment(j) == j);
        assert(no_quotes(j));
        lemma_shell_split_plain(j);
        lemma_joined_scan(args);
        assert(args.drop_last().push(args.last()) =~= args);
        assert(split_ws(j) == args);
        assert(strategy_words(ls) =~= strategy_words(ls.drop_last()) + shell_split(j));
    }
}

} // verus!
