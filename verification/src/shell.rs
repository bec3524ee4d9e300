//! Splitting an argument string into words, shell-style.
use vstd::prelude::*;
use crate::text::{is_ws, is_whitespace, split_ws, ws_scan, cviews, no_ws};

verus! {

/// Scanner state after reading `s`: finished words, the current word, and
/// the quote character of an open quotation.
pub open spec fn quote_scan(s: Seq<char>) -> (Seq<Seq<char>>, Seq<char>, Option<char>)
    decreases s.len(),
{
    if s.len() == 0 {
        (seq![], seq![], None)
    } else {
        let (out, cur, q) = quote_scan(s.drop_last());
        let c = s.last();
        match q {
            Some(qc) => if c == qc {
                (out, cur, None)
            } else {
                (out, cur.push(c), q)
            },
            None => if c == '\'' || c == '"' {
                (out, cur, Some(c))
            } else if is_ws(c) {
                if cur.len() > 0 {
                    (out.push(cur), seq![], None)
                } else {
                    (out, cur, None)
                }
            } else {
                (out, cur.push(c), None)
            },
        }
    }
}

/// The words of `s`: whitespace separates words outside quotes; a `'` or
/// `"` opens a quotation that the same character closes; quote characters
/// themselves are dropped; an unclosed quotation runs to the end.
pub open spec fn shell_split(s: Seq<char>) -> Seq<Seq<char>> {
    let (out, cur, _) = quote_scan(s);
    if cur.len() > 0 {
        out.push(cur)
    } else {
        out
    }
}

pub fn shell_word_chars(v: &[char]) -> (r: Vec<Vec<char>>)
    ensures
        cviews(r@) == shell_split(v@),
{
    let mut out: Vec<Vec<char>> = Vec::new();
    let mut cur: Vec<char> = Vec::new();
    let mut q: Option<char> = None;
    let mut i: usize = 0;
    while i < v.len()
        invariant
            i <= v.len(),
            (cviews(out@), cur@, q) == quote_scan(v@.take(i as int)),
        decreases v.len() - i,
    {
        let c = v[i];
        assert(v@.take(i + 1).drop_last() == v@.take(i as int));
        match q {
            Some(qc) => {
                if c == qc {
                    q = None;
                } else {
                    cur.push(c);
                }
            },
            None => {
                if c == '\'' || c == '"' {
                    q = Some(c);
                } else if is_whitespace(c) {
                    if cur.len() > 0 {
                        let ghost o = out@;
                        let ghost cv = cur@;
                        out.push(cur);
                        cur = Vec::new();
                        assert(cviews(out@) == cviews(o).push(cv));
                    }
                } else {
                    cur.push(c);
                }
            },
        }
        i = i + 1;
    }
    assert(v@.take(v.len() as int) == v@);
    if cur.len() > 0 {
        let ghost o = out@;
        let ghost cv = cur@;
        out.push(cur);
        assert(cviews(out@) == cviews(o).push(cv));
    }
    out
}

/// Splits `s` into words, shell-style (see `shell_split`).
pub fn shell_words(s: &str) -> (r: Vec<String>)
    ensures
        crate::text::views(r@) == shell_split(s@),
{
    let v = crate::text::chars_of(s);
    let w = shell_word_chars(v.as_slice());
    crate::text::strings_of(&w)
}

pub open spec fn no_quotes(s: Seq<char>) -> bool {
    forall|i: int| 0 <= i < s.len() ==> s[i] != '\'' && s[i] != '"'
}

/// Without quote characters, the shell-style split is the plain split on
/// whitespace.
pub proof fn lemma_shell_split_plain(s: Seq<char>)
    requires
        no_quotes(s),
    ensures
        shell_split(s) == split_ws(s),
{
    lemma_quote_scan_plain(s);
}

proof fn lemma_quote_scan_plain(s: Seq<char>)
    requires
        no_quotes(s),
    ensures
        quote_scan(s) == (ws_scan(s).0, ws_scan(s).1, None::<char>),
    decreases s.len(),
{
    if s.len() > 0 {
        assert(no_quotes(s.drop_last()));
        lemma_quote_scan_plain(s.drop_last());
        assert(s.last() == s[s.len() - 1]);
    }
}

} // verus!
