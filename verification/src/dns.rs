//! DNS wire format (a raw A-record query and its answer) and the DNS-over-HTTPS
//! helpers: URL encoding and reading `"data"` values out of a JSON answer.
use vstd::prelude::*;
use crate::text::{chars_of, string_of, extend, dec, dec_chars, find_from, find_chars_from, lemma_find_from, occurs_at, find_char_from, find_char_exec, lemma_find_char_from, slice_of, views};
use crate::bypass::lit;

verus! {

// ---------------------------------------------------------------------------
// A-record query
// ---------------------------------------------------------------------------

/// Scanner state splitting bytes at `sep`: finished pieces and the current one.
pub open spec fn split_scan(s: Seq<u8>, sep: u8) -> (Seq<Seq<u8>>, Seq<u8>)
    decreases s.len(),
{
    if s.len() == 0 {
        (seq![], seq![])
    } else {
        let (out, cur) = split_scan(s.drop_last(), sep);
        if s.last() == sep {
            (out.push(cur), seq![])
        } else {
            (out, cur.push(s.last()))
        }
    }
}

/// `str::split(sep)`: every piece between separators, empty ones included.
pub open spec fn split_on(s: Seq<u8>, sep: u8) -> Seq<Seq<u8>> {
    split_scan(s, sep).0.push(split_scan(s, sep).1)
}

/// The labels of a name: each one's length (as one byte) then its bytes.
pub open spec fn encode_labels(ls: Seq<Seq<u8>>) -> Seq<u8>
    decreases ls.len(),
{
    if ls.len() == 0 {
        seq![]
    } else {
        encode_labels(ls.drop_last()) + seq![(ls.last().len() % 256) as u8] + ls.last()
    }
}

pub open spec fn dns_header() -> Seq<u8> {
    seq![0xABu8, 0xCD, 0x01, 0x00, 0x00, 0x01, 0x00, 0x00, 0x00, 0x00, 0x00, 0x00]
}

/// A recursive query (id 0xABCD) for the A record of `domain` (UTF-8 bytes),
/// class IN.
pub open spec fn dns_query(domain: Seq<u8>) -> Seq<u8> {
    dns_header() + encode_labels(split_on(domain, 0x2Eu8)) + seq![0u8] + seq![0x00u8, 0x01, 0x00, 0x01]
}

fn push_bytes(a: &mut Vec<u8>, b: &[u8])
    ensures
        final(a)@ == old(a)@ + b@,
{
    let mut i: usize = 0;
    while i < b.len()
        invariant
            i <= b.len(),
            a@ == old(a)@ + b@.take(i as int),
        decreases b.len() - i,
    {
        a.push(b[i]);
        i = i + 1;
        assert(a@ == old(a)@ + b@.take(i as int));
    }
    assert(b@.take(b.len() as int) == b@);
}

pub fn build_dns_query(domain: &str) -> (r: Vec<u8>)
    ensures
        r@ == dns_query(encode_utf8_of(domain@)),
{
    let mut q: Vec<u8> = Vec::new();
    q.push(0xAB);
    q.push(0xCD);
    q.push(0x01);
    q.push(0x00);
    q.push(0x00);
    q.push(0x01);
    q.push(0x00);
    q.push(0x00);
    q.push(0x00);
    q.push(0x00);
    q.push(0x00);
    q.push(0x00);
    assert(q@ =~= dns_header());
    let bs = domain.as_bytes();
    let ghost head = q@;
    let mut cur: Vec<u8> = Vec::new();
    let ghost mut pieces: Seq<Seq<u8>> = seq![];
    let mut i: usize = 0;
    while i < bs.len()
        invariant
            i <= bs.len(),
            (pieces, cur@) == split_scan(bs@.take(i as int), 0x2Eu8),
            q@ == head + encode_labels(pieces),
        decreases bs.len() - i,
    {
        assert(bs@.take(i + 1).drop_last() == bs@.take(i as int));
        let b = bs[i];
        if b == 0x2E {
            q.push((cur.len() % 256) as u8);
            push_bytes(&mut q, cur.as_slice());
            proof {
                assert(encode_labels(pieces.push(cur@)).len() >= 0);
                assert(pieces.push(cur@).drop_last() == pieces);
                pieces = pieces.push(cur@);
            }
            cur = Vec::new();
        } else {
            cur.push(b);
        }
        i = i + 1;
    }
    assert(bs@.take(bs.len() as int) == bs@);
    q.push((cur.len() % 256) as u8);
    push_bytes(&mut q, cur.as_slice());
    assert(pieces.push(cur@).drop_last() == pieces);
    q.push(0);
    q.push(0x00);
    q.push(0x01);
    q.push(0x00);
    q.push(0x01);
    assert(q@ =~= dns_query(encode_utf8_of(domain@)));
    q
}

// ---------------------------------------------------------------------------
// Answer: the first A record
// ---------------------------------------------------------------------------

pub open spec fn be16(hi: u8, lo: u8) -> int {
    hi as int * 256 + lo as int
}

/// End of the question name starting at `off`: labels are skipped until a
/// zero length (one byte more) or a compression pointer (two bytes more).
pub open spec fn skip_question_name(r: Seq<u8>, off: int) -> int
    decreases r.len() - off,
{
    if off < 0 || off >= r.len() {
        off
    } else if r[off] == 0 {
        off + 1
    } else if r[off] >= 0xC0 {
        off + 2
    } else {
        let next = off + 1 + (r[off] as int);
        if next >= r.len() {
            next
        } else {
            skip_question_name(r, next)
        }
    }
}

/// Skips labels (each its length byte plus that many bytes) up to a zero byte.
pub open spec fn skip_labels(r: Seq<u8>, off: int) -> int
    decreases r.len() - off,
{
    if off < 0 || off >= r.len() || r[off] == 0 {
        off
    } else {
        let next = off + 1 + (r[off] as int);
        if next >= r.len() {
            next
        } else {
            skip_labels(r, next)
        }
    }
}

/// End of an answer's owner name at `off` (which lies inside the message).
pub open spec fn skip_answer_name(r: Seq<u8>, off: int) -> int {
    if r[off] >= 0xC0 {
        off + 2
    } else {
        skip_labels(r, off) + 1
    }
}

/// The four address bytes of the first A record (type 1, four data bytes)
/// among `n` answers starting at `off`.
pub open spec fn first_a_record(r: Seq<u8>, off: int, n: nat) -> Option<(u8, u8, u8, u8)>
    decreases n,
{
    if n == 0 || off < 0 || off >= r.len() {
        None
    } else {
        let o1 = skip_answer_name(r, off);
        if o1 + 10 > r.len() {
            None
        } else {
            let rtype = be16(r[o1], r[o1 + 1]);
            let rdlen = be16(r[o1 + 8], r[o1 + 9]);
            let o2 = o1 + 10;
            if rtype == 1 && rdlen == 4 && o2 + 4 <= r.len() {
                Some((r[o2], r[o2 + 1], r[o2 + 2], r[o2 + 3]))
            } else {
                first_a_record(r, o2 + rdlen, (n - 1) as nat)
            }
        }
    }
}

/// The first A record of a DNS answer: after the 12-byte header and the
/// question (name, type, class), the answers counted in the header.
pub open spec fn dns_first_a(r: Seq<u8>) -> Option<(u8, u8, u8, u8)> {
    if r.len() < 12 {
        None
    } else {
        let ancount = be16(r[6], r[7]);
        if ancount == 0 {
            None
        } else {
            first_a_record(r, skip_question_name(r, 12) + 4, ancount as nat)
        }
    }
}

/// Dotted-decimal text of four octets.
pub open spec fn dotted(a: (u8, u8, u8, u8)) -> Seq<char> {
    dec(a.0 as nat) + seq!['.'] + dec(a.1 as nat) + seq!['.'] + dec(a.2 as nat) + seq!['.'] + dec(
        a.3 as nat,
    )
}

proof fn lemma_high_bits(b: u8)
    ensures
        (b & 0xC0 == 0xC0) == (b >= 0xC0),
{
    assert((b & 0xC0 == 0xC0) == (b >= 0xC0)) by (bit_vector);
}

fn dotted_string(a: u8, b: u8, c: u8, d: u8) -> (r: String)
    ensures
        r@ == dotted((a, b, c, d)),
{
    let mut v = dec_chars(a as u64);
    v.push('.');
    let x = dec_chars(b as u64);
    extend(&mut v, x.as_slice());
    v.push('.');
    let y = dec_chars(c as u64);
    extend(&mut v, y.as_slice());
    v.push('.');
    let z = dec_chars(d as u64);
    extend(&mut v, z.as_slice());
    string_of(v.as_slice())
}

/// The first A-record address of a DNS answer, as dotted-decimal text.
pub fn parse_dns_response(resp: &[u8]) -> (r: Option<String>)
    ensures
        r matches Some(s) ==> dns_first_a(resp@) matches Some(a) && s@ == dotted(a),
        r is None ==> dns_first_a(resp@) is None,
{
    if resp.len() < 12 {
        return None;
    }
    let len = resp.len() as u128;
    let ancount: u128 = resp[6] as u128 * 256 + resp[7] as u128;
    if ancount == 0 {
        return None;
    }
    let ghost r = resp@;
    // Question name.
    let mut off: u128 = 12;
    loop
        invariant_except_break
            skip_question_name(r, off as int) == skip_question_name(r, 12),
        invariant
            len == r.len(),
            len <= usize::MAX,
            r == resp@,
            12 <= off,
            off <= len + 256,
        ensures
            off == skip_question_name(r, 12),
        decreases len + 256 - off,
    {
        if off >= len {
            break;
        }
        let l = resp[off as usize];
        proof {
            lemma_high_bits(l);
        }
        if l == 0 {
            off = off + 1;
            break;
        }
        if l & 0xC0 == 0xC0 {
            off = off + 2;
            break;
        }
        off = off + 1 + l as u128;
    }
    off = off + 4;
    assert(dns_first_a(r) == first_a_record(r, skip_question_name(r, 12) + 4, ancount as nat));
    let mut k: u128 = 0;
    while k < ancount
        invariant
            dns_first_a(r) == first_a_record(r, skip_question_name(r, 12) + 4, ancount as nat),
            len == r.len(),
            len <= usize::MAX,
            r == resp@,
            k <= ancount,
            ancount <= 65535,
            off <= len + 70000 + 256,
            first_a_record(r, skip_question_name(r, 12) + 4, ancount as nat) == first_a_record(
                r,
                off as int,
                (ancount - k) as nat,
            ),
        decreases ancount - k,
    {
        let ghost n = (ancount - k) as nat;
        if off >= len {
            assert(first_a_record(r, off as int, n) is None);
            return None;
        }
        let ghost o0 = off as int;
        let b0 = resp[off as usize];
        proof {
            lemma_high_bits(b0);
        }
        if b0 & 0xC0 == 0xC0 {
            off = off + 2;
        } else {
            loop
                invariant_except_break
                    skip_labels(r, off as int) == skip_labels(r, o0),
                invariant
                    len == r.len(),
                    len <= usize::MAX,
                    r == resp@,
                    0 <= o0 < len,
                    o0 <= off,
                    off <= len + 256,
                ensures
                    off == skip_labels(r, o0),
                    off <= len + 256,
                decreases len + 256 - off,
            {
                if off >= len {
                    break;
                }
                if resp[off as usize] == 0 {
                    break;
                }
                off = off + 1 + resp[off as usize] as u128;
            }
            off = off + 1;
        }
        assert(off == skip_answer_name(r, o0));
        if off + 10 > len {
            assert(first_a_record(r, o0, n) is None);
            return None;
        }
        let o = off as usize;
        let rtype: u128 = resp[o] as u128 * 256 + resp[o + 1] as u128;
        let rdlen: u128 = resp[o + 8] as u128 * 256 + resp[o + 9] as u128;
        off = off + 10;
        if rtype == 1 && rdlen == 4 && off + 4 <= len {
            let p = off as usize;
            assert(first_a_record(r, o0, n) == Some((r[p as int], r[p + 1], r[p + 2], r[p + 3])));
            return Some(dotted_string(resp[p], resp[p + 1], resp[p + 2], resp[p + 3]));
        }
        off = off + rdlen;
        assert(first_a_record(r, o0, n) == first_a_record(r, off as int, (n - 1) as nat));
        k = k + 1;
    }
    assert(first_a_record(r, off as int, 0) is None);
    None
}

// ---------------------------------------------------------------------------
// DNS-over-HTTPS
// ---------------------------------------------------------------------------

// ---------------------------------------------------------------------------
// What the answer parser gives for well-formed responses
// ---------------------------------------------------------------------------

/// The two big-endian bytes of a 16-bit value.
pub open spec fn u16_bytes(v: int) -> Seq<u8> {
    seq![(v / 256) as u8, (v % 256) as u8]
}

/// An answer record whose owner name points back at the question
/// (`C0 0C`), of class IN and TTL 60, with type `rtype` and data `rdata`.
pub open spec fn answer_record(rtype: u16, rdata: Seq<u8>) -> Seq<u8> {
    seq![0xC0u8, 0x0C] + u16_bytes(rtype as int) + seq![0u8, 1, 0, 0, 0, 0x3C] + u16_bytes(rdata.len() as int)
        + rdata
}

/// A response: the header (id, flags, one question, the number of
/// answers, no other records), the question for the one-label name
/// `label` (type A, class IN), then the answers.
pub open spec fn dns_response(id: u16, flags: u16, label: Seq<u8>, answers: Seq<Seq<u8>>) -> Seq<u8> {
    u16_bytes(id as int) + u16_bytes(flags as int) + seq![0u8, 1] + u16_bytes(answers.len() as int) + seq![
        0u8,
        0,
        0,
        0,
    ] + seq![label.len() as u8] + label + seq![0u8, 0, 1, 0, 1] + answers.flatten()
}

proof fn lemma_u16_bytes(v: int)
    requires
        0 <= v < 65536,
    ensures
        be16(u16_bytes(v)[0], u16_bytes(v)[1]) == v,
{
    assert(0 <= v / 256 < 256 && 0 <= v % 256 < 256 && (v / 256) * 256 + v % 256 == v) by (nonlinear_arith)
        requires
            0 <= v < 65536,
    ;
}

/// Skipping labels reads only what follows: on the text after `off` it
/// ends at the same place, counted from `off`.
proof fn lemma_skip_labels_shift(r: Seq<u8>, off: int, j: int)
    requires
        0 <= off <= r.len(),
        0 <= j,
    ensures
        skip_labels(r, off + j) == off + skip_labels(r.skip(off), j),
    decreases r.len() - (off + j),
{
    let t = r.skip(off);
    if off + j < r.len() && r[off + j] != 0 {
        assert(t[j] == r[off + j]);
        let next = j + 1 + (t[j] as int);
        if off + next < r.len() {
            lemma_skip_labels_shift(r, off, next);
        }
    } else if off + j < r.len() {
        assert(t[j] == r[off + j]);
    }
}

proof fn lemma_skip_labels_ge(r: Seq<u8>, off: int)
    ensures
        skip_labels(r, off) >= off,
    decreases r.len() - off,
{
    if !(off < 0 || off >= r.len() || r[off] == 0) {
        let next = off + 1 + (r[off] as int);
        if next < r.len() {
            lemma_skip_labels_ge(r, next);
        }
    }
}

/// The answer scan reads only what follows its offset.
proof fn lemma_first_a_shift(r: Seq<u8>, off: int, j: int, n: nat)
    requires
        0 <= off <= r.len(),
        0 <= j,
    ensures
        first_a_record(r, off + j, n) == first_a_record(r.skip(off), j, n),
    decreases n,
{
    let t = r.skip(off);
    if n > 0 && off + j < r.len() {
        assert(t[j] == r[off + j]);
        if r[off + j] < 0xC0 {
            lemma_skip_labels_shift(r, off, j);
            lemma_skip_labels_ge(t, j);
        }
        let o1 = skip_answer_name(r, off + j);
        let p1 = skip_answer_name(t, j);
        assert(o1 == off + p1);
        if o1 + 10 <= r.len() {
            assert(t[p1] == r[o1] && t[p1 + 1] == r[o1 + 1] && t[p1 + 8] == r[o1 + 8] && t[p1 + 9] == r[o1 + 9]);
            let rdlen = be16(r[o1 + 8], r[o1 + 9]);
            let o2 = o1 + 10;
            if o2 + 4 <= r.len() {
                assert(t[p1 + 10] == r[o2] && t[p1 + 11] == r[o2 + 1] && t[p1 + 12] == r[o2 + 2] && t[p1 + 13]
                    == r[o2 + 3]);
            }
            lemma_first_a_shift(r, off, p1 + 10 + rdlen, (n - 1) as nat);
        }
    }
}

/// The offset of the first answer and the number of answers, as the
/// parser reads them from such a response.
proof fn lemma_response_layout(id: u16, flags: u16, label: Seq<u8>, answers: Seq<Seq<u8>>)
    requires
        0 < label.len() < 64,
        answers.len() < 65536,
    ensures
        ({
            let m = dns_response(id, flags, label, answers);
            &&& m.len() >= 12
            &&& be16(m[6], m[7]) == answers.len()
            &&& skip_question_name(m, 12) + 4 == 18 + label.len() as int
            &&& m.skip(18 + label.len() as int) == answers.flatten()
        }),
{
    let m = dns_response(id, flags, label, answers);
    let l = label.len() as int;
    let head = u16_bytes(id as int) + u16_bytes(flags as int) + seq![0u8, 1] + u16_bytes(answers.len() as int)
        + seq![0u8, 0, 0, 0];
    assert(head.len() == 12);
    let q = seq![label.len() as u8] + label + seq![0u8, 0, 1, 0, 1];
    assert(m =~= head + q + answers.flatten());
    assert(m[6] == u16_bytes(answers.len() as int)[0] && m[7] == u16_bytes(answers.len() as int)[1]);
    lemma_u16_bytes(answers.len() as int);
    assert(m[12] == l as u8);
    assert((l as u8) as int == l);
    assert(m[13 + l] == 0);
    assert(skip_question_name(m, 13 + l) == 14 + l);
    assert(skip_question_name(m, 12) == 14 + l);
    assert(m.skip(18 + l) =~= answers.flatten());
}

/// In such a response whose first answer is an A record with the four
/// bytes `a`, those bytes are the address found.
pub proof fn lemma_first_answer_a(id: u16, flags: u16, label: Seq<u8>, answers: Seq<Seq<u8>>, a: (u8, u8, u8, u8))
    requires
        0 < label.len() < 64,
        0 < answers.len() < 65536,
        answers[0] == answer_record(1, seq![a.0, a.1, a.2, a.3]),
    ensures
        dns_first_a(dns_response(id, flags, label, answers)) == Some(a),
{
    let m = dns_response(id, flags, label, answers);
    let off: int = 18 + label.len() as int;
    lemma_response_layout(id, flags, label, answers);
    let rest = answers.flatten();
    assert(rest =~= answers[0] + answers.drop_first().flatten());
    lemma_first_a_shift(m, off, 0, answers.len() as nat);
    let t = m.skip(off);
    assert(t =~= rest);
    let rec = answers[0];
    assert(t[0] == 0xC0u8);
    lemma_u16_bytes(1);
    lemma_u16_bytes(4);
    assert(t[2] == rec[2] && t[3] == rec[3] && t[10] == rec[10] && t[11] == rec[11]);
    assert(t[12] == a.0 && t[13] == a.1 && t[14] == a.2 && t[15] == a.3);
}

/// An answer that is not a four-byte A record (a CNAME, say) is passed
/// over: the address found is the one the response gives without it, so
/// the first A record among all the answers is the one returned.
#[verifier::rlimit(30)]
pub proof fn lemma_other_answers_skipped(
    id: u16,
    flags: u16,
    label: Seq<u8>,
    answers: Seq<Seq<u8>>,
    rtype: u16,
    rdata: Seq<u8>,
)
    requires
        0 < label.len() < 64,
        0 < answers.len() < 65536,
        rdata.len() < 65536,
        answers[0] == answer_record(rtype, rdata),
        !(rtype == 1 && rdata.len() == 4),
    ensures
        dns_first_a(dns_response(id, flags, label, answers)) == dns_first_a(
            dns_response(id, flags, label, answers.drop_first()),
        ),
{
    let m = dns_response(id, flags, label, answers);
    let rest = answers.drop_first();
    let m2 = dns_response(id, flags, label, rest);
    let off: int = 18 + label.len() as int;
    lemma_response_layout(id, flags, label, answers);
    lemma_response_layout(id, flags, label, rest);
    let rec = answers[0];
    assert(answers.flatten() =~= rec + rest.flatten());
    lemma_first_a_shift(m, off, 0, answers.len() as nat);
    let t = m.skip(off);
    assert(t =~= rec + rest.flatten());
    assert(t[0] == 0xC0u8);
    lemma_u16_bytes(rtype as int);
    lemma_u16_bytes(rdata.len() as int);
    assert(t[2] == rec[2] && t[3] == rec[3] && t[10] == rec[10] && t[11] == rec[11]);
    let next: int = 12 + rdata.len() as int;
    assert(rec.len() == next);
    assert(first_a_record(t, 0, answers.len() as nat) == first_a_record(t, next, (answers.len() - 1) as nat));
    lemma_first_a_shift(t, next, 0, (answers.len() - 1) as nat);
    assert(t.skip(next) =~= rest.flatten());
    if rest.len() > 0 {
        lemma_first_a_shift(m2, off, 0, rest.len() as nat);
        assert(m2.skip(off) =~= rest.flatten());
    } else {
        assert(first_a_record(t.skip(next), 0, 0) is None);
    }
}

/// A response with no answers gives no address.
pub proof fn lemma_no_answers(id: u16, flags: u16, label: Seq<u8>)
    requires
        0 < label.len() < 64,
    ensures
        dns_first_a(dns_response(id, flags, label, Seq::<Seq<u8>>::empty())) is None,
{
    lemma_response_layout(id, flags, label, Seq::<Seq<u8>>::empty());
}


pub open spec fn is_unreserved(b: u8) -> bool {
    (0x41 <= b && b <= 0x5A) || (0x61 <= b && b <= 0x7A) || (0x30 <= b && b <= 0x39) || b == 0x2D
        || b == 0x5F || b == 0x2E || b == 0x7E
}

pub open spec fn hex_upper(d: int) -> char {
    if d < 10 {
        ((d + 0x30) as u32) as char
    } else {
        ((d - 10 + 0x41) as u32) as char
    }
}

/// Percent-encoding of the bytes: unreserved bytes (`A-Z a-z 0-9 - _ . ~`)
/// stay, every other byte becomes `%XX` in upper-case hex.
pub open spec fn url_encoded(bs: Seq<u8>) -> Seq<char>
    decreases bs.len(),
{
    if bs.len() == 0 {
        seq![]
    } else {
        let b = bs.last();
        url_encoded(bs.drop_last()) + if is_unreserved(b) {
            seq![(b as u32) as char]
        } else {
            seq!['%', hex_upper((b / 16) as int), hex_upper((b % 16) as int)]
        }
    }
}

fn hex_digit(d: u8) -> (r: char)
    requires
        d < 16,
    ensures
        r == hex_upper(d as int),
{
    if d < 10 {
        (d + 0x30) as char
    } else {
        (d - 10 + 0x41) as char
    }
}

pub fn urlencode(s: &str) -> (r: String)
    ensures
        r@ == url_encoded(encode_utf8_of(s@)),
{
    let bs = s.as_bytes();
    let mut out: Vec<char> = Vec::new();
    let mut i: usize = 0;
    while i < bs.len()
        invariant
            i <= bs.len(),
            out@ == url_encoded(bs@.take(i as int)),
        decreases bs.len() - i,
    {
        let b = bs[i];
        assert(bs@.take(i + 1).drop_last() == bs@.take(i as int));
        if (0x41 <= b && b <= 0x5A) || (0x61 <= b && b <= 0x7A) || (0x30 <= b && b <= 0x39) || b
            == 0x2D || b == 0x5F || b == 0x2E || b == 0x7E {
            out.push(b as char);
        } else {
            out.push('%');
            out.push(hex_digit(b / 16));
            out.push(hex_digit(b % 16));
        }
        i = i + 1;
    }
    assert(bs@.take(bs.len() as int) == bs@);
    string_of(out.as_slice())
}

pub open spec fn google_doh_url(host: Seq<char>) -> Seq<char> {
    "https://dns.google/resolve?name="@ + url_encoded(encode_utf8_of(host)) + "&type=A"@
}

pub open spec fn cloudflare_doh_url(host: Seq<char>) -> Seq<char> {
    "https://cloudflare-dns.com/dns-query?name="@ + url_encoded(encode_utf8_of(host)) + "&type=A"@
}

pub open spec fn encode_utf8_of(s: Seq<char>) -> Seq<u8> {
    vstd::utf8::encode_utf8(s)
}

/// The Google DoH JSON query for the A records of `host`.
pub fn google_doh_query_url(host: &str) -> (r: String)
    ensures
        r@ == google_doh_url(host@),
{
    let mut v = chars_of("https://dns.google/resolve?name=");
    let e = urlencode(host);
    let ev = chars_of(e.as_str());
    extend(&mut v, ev.as_slice());
    let t = chars_of("&type=A");
    extend(&mut v, t.as_slice());
    string_of(v.as_slice())
}

/// The Cloudflare DoH JSON query for the A records of `host`.
pub fn cloudflare_doh_query_url(host: &str) -> (r: String)
    ensures
        r@ == cloudflare_doh_url(host@),
{
    let mut v = chars_of("https://cloudflare-dns.com/dns-query?name=");
    let e = urlencode(host);
    let ev = chars_of(e.as_str());
    extend(&mut v, ev.as_slice());
    let t = chars_of("&type=A");
    extend(&mut v, t.as_slice());
    string_of(v.as_slice())
}

/// `"data":"`
pub open spec fn data_key() -> Seq<char> {
    seq!['"', 'd', 'a', 't', 'a', '"', ':', '"']
}

/// Every `"data":"<value>"` value from index `i` on, in order; the scan
/// stops at a key without a closing quote.
pub open spec fn data_values_from(s: Seq<char>, i: int) -> Seq<Seq<char>>
    decreases s.len() - i,
{
    if i < 0 || i >= s.len() {
        seq![]
    } else {
        match find_from(s, data_key(), i) {
            None => seq![],
            Some(p) => match find_char_from(s, '"', p + 8) {
                None => seq![],
                Some(e) => {
                    proof {
                        lemma_find_from(s, data_key(), i);
                        lemma_find_char_from(s, '"', p + 8);
                    }
                    seq![s.subrange(p + 8, e)] + data_values_from(s, e + 1)
                },
            },
        }
    }
}

/// The `"data"` values of a DoH JSON answer, as texts; the caller keeps
/// those that read as addresses.
pub fn doh_data_values(body: &str) -> (r: Vec<String>)
    ensures
        views(r@) == data_values_from(body@, 0),
{
    let s = chars_of(body);
    let key: Vec<char> = vec!['"', 'd', 'a', 't', 'a', '"', ':', '"'];
    assert(key@ == data_key());
    let mut out: Vec<String> = Vec::new();
    let mut i: usize = 0;
    while i < s.len()
        invariant
            key@ == data_key(),
            s@ == body@,
            views(out@) + data_values_from(s@, i as int) == data_values_from(s@, 0),
        decreases s.len() - i,
    {
        match find_chars_from(s.as_slice(), key.as_slice(), i) {
            None => {
                assert(views(out@) =~= data_values_from(s@, 0));
                return out;
            },
            Some(p) => {
                proof {
                    lemma_find_from(s@, key@, i as int);
                    assert(occurs_at(s@, key@, p as int));
                }
                let start = p + 8;
                match find_char_exec(s.as_slice(), '"', start) {
                    None => {
                        assert(views(out@) =~= data_values_from(s@, 0));
                        return out;
                    },
                    Some(e) => {
                        proof {
                            lemma_find_char_from(s@, '"', start as int);
                        }
                        let v = slice_of(s.as_slice(), start, e);
                        let ghost before = out@;
                        out.push(string_of(v.as_slice()));
                        assert(views(out@) == views(before).push(v@));
                        assert(views(out@) + data_values_from(s@, e + 1) =~= views(before) + data_values_from(s@, i as int));
                        i = e + 1;
                    },
                }
            },
        }
    }
    assert(data_values_from(s@, i as int) =~= seq![]);
    assert(views(out@) =~= data_values_from(s@, 0));
    out
}

} // verus!
