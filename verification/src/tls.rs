//! Hand-built TLS 1.3 ClientHello records used to probe whether an address
//! answers TLS for a given server name. The layout is that of RFC 8446
//! §4.1.2: one handshake record holding a ClientHello.
use vstd::prelude::*;
use crate::dns::encode_utf8_of;

verus! {

/// Two bytes, big-endian, of `n` truncated to 16 bits.
pub open spec fn be16(n: int) -> Seq<u8> {
    seq![((n % 65536) / 256) as u8, (n % 256) as u8]
}

/// Three bytes, big-endian, of `n` truncated to 24 bits.
pub open spec fn be24(n: int) -> Seq<u8> {
    seq![((n % 16777216) / 65536) as u8, ((n % 65536) / 256) as u8, (n % 256) as u8]
}

/// A vector with a one-byte length prefix (`opaque x<0..2^8-1>`).
pub open spec fn vec8(data: Seq<u8>) -> Seq<u8> {
    seq![(data.len() % 256) as u8] + data
}

/// A vector with a two-byte length prefix (`opaque x<0..2^16-1>`).
pub open spec fn vec16(data: Seq<u8>) -> Seq<u8> {
    be16(data.len() as int) + data
}

/// An extension: its type, then its data as a 16-bit vector.
pub open spec fn extension(ty: int, data: Seq<u8>) -> Seq<u8> {
    be16(ty) + vec16(data)
}

/// server_name (0): a list holding one host_name (type 0) entry.
pub open spec fn server_name_ext(host: Seq<u8>) -> Seq<u8> {
    extension(0x0000, vec16(seq![0u8] + vec16(host)))
}

/// supported_versions (43): TLS 1.3 only.
pub open spec fn supported_versions_ext() -> Seq<u8> {
    extension(0x002b, vec8(seq![0x03u8, 0x04]))
}

/// supported_groups (10): x25519, secp256r1.
pub open spec fn supported_groups_ext() -> Seq<u8> {
    extension(0x000a, vec16(seq![0x00u8, 0x1d, 0x00, 0x17]))
}

/// signature_algorithms (13): ecdsa_secp256r1_sha256, rsa_pss_rsae_sha256,
/// rsa_pkcs1_sha256.
pub open spec fn signature_algorithms_ext() -> Seq<u8> {
    extension(0x000d, vec16(seq![0x04u8, 0x03, 0x08, 0x04, 0x04, 0x01]))
}

/// key_share (51) with no shares: the server answers with a
/// HelloRetryRequest, itself a handshake record.
pub open spec fn key_share_ext() -> Seq<u8> {
    extension(0x0033, vec16(Seq::<u8>::empty()))
}

/// The extensions sent: the server name first, then what a TLS 1.3 server
/// requires to answer with a handshake message (RFC 8446 §9.2).
pub open spec fn hello_extensions(host: Seq<u8>) -> Seq<u8> {
    server_name_ext(host) + supported_versions_ext() + supported_groups_ext() + signature_algorithms_ext()
        + key_share_ext()
}

/// The ClientHello body: legacy_version 0x0303, the 32-byte random (every
/// byte `random`), an empty legacy_session_id, the cipher suites
/// (TLS_AES_128_GCM_SHA256 only), the compression methods (null only) and
/// the extensions, each vector with its length prefix.
pub open spec fn client_hello_body(random: u8, host: Seq<u8>) -> Seq<u8> {
    seq![0x03u8, 0x03] + Seq::new(32, |i: int| random) + vec8(Seq::<u8>::empty()) + vec16(seq![0x13u8, 0x01])
        + vec8(seq![0x00u8]) + vec16(hello_extensions(host))
}

/// The handshake message (type client_hello = 1, 24-bit length) inside a
/// handshake record (type 22, record version 0x0301, 16-bit length).
pub open spec fn client_hello_record(random: u8, host: Seq<u8>) -> Seq<u8> {
    let body = client_hello_body(random, host);
    let msg = seq![0x01u8] + be24(body.len() as int) + body;
    seq![0x16u8, 0x03, 0x01] + vec16(msg)
}

/// The discovery probe's ClientHello: zero random.
pub open spec fn discovery_hello(host: Seq<u8>) -> Seq<u8> {
    client_hello_record(0, host)
}

/// The strategy scanner's ClientHello: random bytes all 0xAB.
pub open spec fn scanner_hello(host: Seq<u8>) -> Seq<u8> {
    client_hello_record(0xAB, host)
}

/// The hello for a server name of `n` bytes fits one record: a record
/// carries at most 2^14 bytes (RFC 8446 §5.1), and the hello takes 91 more
/// than the name.
pub open spec fn hello_fits(n: nat) -> bool {
    n + 91 <= 16384
}

/// Whether a ClientHello for `host` fits one record.
pub fn client_hello_fits(host: &str) -> (r: bool)
    ensures
        r == hello_fits(encode_utf8_of(host@).len()),
{
    host.as_bytes().len() <= 16293
}

fn push_be16(v: &mut Vec<u8>, n: usize)
    ensures
        final(v)@ == old(v)@ + be16(n as int),
{
    let t = n % 65536;
    v.push((t / 256) as u8);
    v.push((n % 256) as u8);
    assert(final(v)@ =~= old(v)@ + be16(n as int)) by {
        assert(t % 65536 == n % 65536);
    }
}

fn push_be24(v: &mut Vec<u8>, n: usize)
    ensures
        final(v)@ == old(v)@ + be24(n as int),
{
    let t = n % 16777216;
    let u = n % 65536;
    v.push((t / 65536) as u8);
    v.push((u / 256) as u8);
    v.push((n % 256) as u8);
    assert(final(v)@ =~= old(v)@ + be24(n as int));
}

fn push_all(a: &mut Vec<u8>, b: &[u8])
    ensures
        final(a)@ == old(a)@ + b@,
{
    let mut i: usize = 0;
    while i < b.len()
        invariant
            i <= b.len(),
            a@ == old(a)@ + b@.take(i as int),
        decreases b.len() - i,
    {
        a.push(b[i]);
        i = i + 1;
        assert(a@ == old(a)@ + b@.take(i as int));
    }
    assert(b@.take(b.len() as int) == b@);
}

/// Appends `data` as a 16-bit vector.
fn push_vec16(v: &mut Vec<u8>, data: &[u8])
    ensures
        final(v)@ == old(v)@ + vec16(data@),
{
    push_be16(v, data.len());
    push_all(v, data);
    assert(final(v)@ =~= old(v)@ + vec16(data@));
}

fn extensions_exec(host: &[u8]) -> (r: Vec<u8>)
    requires
        host@.len() <= 16293,
    ensures
        r@ == hello_extensions(host@),
{
    let mut name: Vec<u8> = Vec::new();
    name.push(0);
    push_vec16(&mut name, host);
    let mut list: Vec<u8> = Vec::new();
    push_vec16(&mut list, name.as_slice());
    let mut exts: Vec<u8> = Vec::new();
    push_be16(&mut exts, 0x0000);
    push_vec16(&mut exts, list.as_slice());
    assert(exts@ =~= server_name_ext(host@));
    let ghost e1 = exts@;
    push_be16(&mut exts, 0x002b);
    let sv: Vec<u8> = vec![0x02, 0x03, 0x04];
    push_vec16(&mut exts, sv.as_slice());
    assert(sv@ =~= vec8(seq![0x03u8, 0x04]));
    assert(exts@ =~= e1 + supported_versions_ext());
    let ghost e2 = exts@;
    push_be16(&mut exts, 0x000a);
    let groups: Vec<u8> = vec![0x00, 0x04, 0x00, 0x1d, 0x00, 0x17];
    push_vec16(&mut exts, groups.as_slice());
    assert(groups@ =~= vec16(seq![0x00u8, 0x1d, 0x00, 0x17]));
    assert(exts@ =~= e2 + supported_groups_ext());
    let ghost e3 = exts@;
    push_be16(&mut exts, 0x000d);
    let algs: Vec<u8> = vec![0x00, 0x06, 0x04, 0x03, 0x08, 0x04, 0x04, 0x01];
    push_vec16(&mut exts, algs.as_slice());
    assert(algs@ =~= vec16(seq![0x04u8, 0x03, 0x08, 0x04, 0x04, 0x01]));
    assert(exts@ =~= e3 + signature_algorithms_ext());
    let ghost e4 = exts@;
    push_be16(&mut exts, 0x0033);
    let shares: Vec<u8> = vec![0x00, 0x00];
    push_vec16(&mut exts, shares.as_slice());
    assert(shares@ =~= vec16(Seq::<u8>::empty()));
    assert(exts@ =~= e4 + key_share_ext());
    exts
}

fn client_hello_exec(random: u8, host: &[u8]) -> (r: Vec<u8>)
    requires
        hello_fits(host@.len()),
    ensures
        r@ == client_hello_record(random, host@),
{
    let exts = extensions_exec(host);
    let mut body: Vec<u8> = Vec::new();
    body.push(0x03);
    body.push(0x03);
    let mut i: usize = 0;
    while i < 32
        invariant
            i <= 32,
            body@ == seq![0x03u8, 0x03] + Seq::new(i as nat, |k: int| random),
        decreases 32 - i,
    {
        body.push(random);
        i = i + 1;
        assert(body@ =~= seq![0x03u8, 0x03] + Seq::new(i as nat, |k: int| random));
    }
    body.push(0x00);
    body.push(0x00);
    body.push(0x02);
    body.push(0x13);
    body.push(0x01);
    body.push(0x01);
    body.push(0x00);
    push_vec16(&mut body, exts.as_slice());
    assert(body@ =~= client_hello_body(random, host@));
    let mut msg: Vec<u8> = Vec::new();
    msg.push(0x01);
    push_be24(&mut msg, body.len());
    push_all(&mut msg, body.as_slice());
    let mut record: Vec<u8> = Vec::new();
    record.push(0x16);
    record.push(0x03);
    record.push(0x01);
    push_vec16(&mut record, msg.as_slice());
    assert(record@ =~= client_hello_record(random, host@));
    record
}

/// The ClientHello record that address discovery sends with SNI = `host`.
pub fn discovery_client_hello(host: &str) -> (r: Vec<u8>)
    requires
        hello_fits(encode_utf8_of(host@).len()),
    ensures
        r@ == discovery_hello(encode_utf8_of(host@)),
{
    client_hello_exec(0, host.as_bytes())
}

/// The ClientHello record that the strategy scanner sends with SNI = `host`.
pub fn scanner_client_hello(host: &str) -> (r: Vec<u8>)
    requires
        hello_fits(encode_utf8_of(host@).len()),
    ensures
        r@ == scanner_hello(encode_utf8_of(host@)),
{
    client_hello_exec(0xAB, host.as_bytes())
}

proof fn lemma_be16_value(m: int)
    requires
        0 <= m < 65536,
    ensures
        (be16(m)[0] as int) * 256 + (be16(m)[1] as int) == m,
{
    assert(((m % 65536) / 256) * 256 + m % 256 == m) by (nonlinear_arith)
        requires
            0 <= m < 65536,
    ;
}

proof fn lemma_be24_value(m: int)
    requires
        0 <= m < 65536,
    ensures
        (be24(m)[0] as int) * 65536 + (be24(m)[1] as int) * 256 + (be24(m)[2] as int) == m,
{
    assert(((m % 16777216) / 65536) == 0 && ((m % 65536) / 256) * 256 + m % 256 == m) by (nonlinear_arith)
        requires
            0 <= m < 65536,
    ;
}

/// The extensions: the server name's headers, then the name.
proof fn lemma_extensions_layout(host: Seq<u8>)
    requires
        host.len() + 5 < 65536,
    ensures
        ({
            let e = hello_extensions(host);
            let n = host.len() as int;
            &&& e.len() == n + 44
            &&& e.subrange(0, 2) == seq![0x00u8, 0x00]
            &&& (e[7] as int) * 256 + (e[8] as int) == n
            &&& e.subrange(9, 9 + n) == host
        }),
{
    let n = host.len() as int;
    let e = hello_extensions(host);
    let sn = server_name_ext(host);
    assert(vec16(host).len() == n + 2);
    assert(vec16(seq![0u8] + vec16(host)).len() == n + 5);
    assert(sn.len() == n + 9);
    assert(e.subrange(0, n + 9) =~= sn);
    assert(sn =~= be16(0) + be16(n + 5) + be16(n + 3) + seq![0u8] + be16(n) + host);
    assert(e.subrange(0, 2) =~= seq![0x00u8, 0x00]);
    assert(e[7] == sn[7] && e[8] == sn[8]);
    assert(sn[7] == be16(n)[0] && sn[8] == be16(n)[1]);
    lemma_be16_value(n);
    assert(e.subrange(9, 9 + n) =~= sn.subrange(9, 9 + n));
    assert(sn.subrange(9, 9 + n) =~= host);
}

/// The body: legacy_version, random, session id, cipher suites,
/// compression methods, then the extensions with their length.
proof fn lemma_body_layout(random: u8, host: Seq<u8>)
    requires
        hello_fits(host.len()),
    ensures
        ({
            let b = client_hello_body(random, host);
            let e = hello_extensions(host);
            &&& b.len() == e.len() + 43
            &&& b.subrange(0, 2) == seq![0x03u8, 0x03]
            &&& b.subrange(2, 34) == Seq::new(32, |i: int| random)
            &&& b.subrange(34, 39) == seq![0x00u8, 0x00, 0x02, 0x13, 0x01]
            &&& b.subrange(39, 41) == seq![0x01u8, 0x00]
            &&& b.subrange(41, 43) == be16(e.len() as int)
            &&& b.subrange(43, b.len() as int) == e
        }),
{
    let e = hello_extensions(host);
    let b = client_hello_body(random, host);
    let rnd = Seq::new(32, |i: int| random);
    assert(b =~= seq![0x03u8, 0x03] + rnd + seq![0x00u8, 0x00, 0x02, 0x13, 0x01] + seq![0x01u8, 0x00]
        + be16(e.len() as int) + e);
    assert(b.subrange(0, 2) =~= seq![0x03u8, 0x03]);
    assert(b.subrange(2, 34) =~= rnd);
    assert(b.subrange(34, 39) =~= seq![0x00u8, 0x00, 0x02, 0x13, 0x01]);
    assert(b.subrange(39, 41) =~= seq![0x01u8, 0x00]);
    assert(b.subrange(41, 43) =~= be16(e.len() as int));
    assert(b.subrange(43, b.len() as int) =~= e);
}

/// The record: its header, the message header, then the body.
proof fn lemma_record_layout(random: u8, host: Seq<u8>)
    requires
        hello_fits(host.len()),
    ensures
        ({
            let r = client_hello_record(random, host);
            let b = client_hello_body(random, host);
            &&& r.len() == b.len() + 9
            &&& r.subrange(0, 3) == seq![0x16u8, 0x03, 0x01]
            &&& r.subrange(3, 5) == be16(b.len() + 4int)
            &&& r[5] == 0x01u8
            &&& r.subrange(6, 9) == be24(b.len() as int)
            &&& r.subrange(9, r.len() as int) == b
        }),
{
    let b = client_hello_body(random, host);
    let r = client_hello_record(random, host);
    let msg = seq![0x01u8] + be24(b.len() as int) + b;
    assert(r =~= seq![0x16u8, 0x03, 0x01] + be16(b.len() + 4int) + seq![0x01u8] + be24(b.len() as int) + b);
    assert(r.subrange(0, 3) =~= seq![0x16u8, 0x03, 0x01]);
    assert(r.subrange(3, 5) =~= be16(b.len() + 4int));
    assert(r.subrange(6, 9) =~= be24(b.len() as int));
    assert(r.subrange(9, r.len() as int) =~= b);
}

/// The fields of a record laid out as the three layout lemmas state.
proof fn lemma_fields(r: Seq<u8>, b: Seq<u8>, e: Seq<u8>, random: u8, host: Seq<u8>)
    requires
        host.len() + 91 <= 16384,
        e.len() == host.len() + 44,
        e.subrange(0, 2) == seq![0x00u8, 0x00],
        (e[7] as int) * 256 + (e[8] as int) == host.len(),
        e.subrange(9, 9 + host.len() as int) == host,
        b.len() == e.len() + 43,
        b.subrange(0, 2) == seq![0x03u8, 0x03],
        b.subrange(2, 34) == Seq::new(32, |i: int| random),
        b.subrange(34, 39) == seq![0x00u8, 0x00, 0x02, 0x13, 0x01],
        b.subrange(39, 41) == seq![0x01u8, 0x00],
        b.subrange(41, 43) == be16(e.len() as int),
        b.subrange(43, b.len() as int) == e,
        r.len() == b.len() + 9,
        r.subrange(0, 3) == seq![0x16u8, 0x03, 0x01],
        r.subrange(3, 5) == be16(b.len() + 4int),
        r[5] == 0x01u8,
        r.subrange(6, 9) == be24(b.len() as int),
        r.subrange(9, r.len() as int) == b,
    ensures
        ({
            let n = host.len() as int;
            &&& r.len() == n + 96
            &&& r[0] == 0x16u8 && r[5] == 0x01u8
            &&& (r[3] as int) * 256 + (r[4] as int) == r.len() - 5
            &&& (r[6] as int) * 65536 + (r[7] as int) * 256 + (r[8] as int) == r.len() - 9
            &&& r[9] == 0x03u8 && r[10] == 0x03u8
            &&& r.subrange(11, 43) == Seq::new(32, |i: int| random)
            &&& r[43] == 0u8
            &&& r.subrange(44, 48) == seq![0x00u8, 0x02, 0x13, 0x01]
            &&& r.subrange(48, 50) == seq![0x01u8, 0x00]
            &&& (r[50] as int) * 256 + (r[51] as int) == r.len() - 52
            &&& r.subrange(52, 54) == seq![0x00u8, 0x00]
            &&& (r[59] as int) * 256 + (r[60] as int) == n
            &&& r.subrange(61, 61 + n) == host
        }),
{
    let n = host.len() as int;
    assert(r[0] == r.subrange(0, 3)[0]);
    assert(r[3] == r.subrange(3, 5)[0] && r[4] == r.subrange(3, 5)[1]);
    lemma_be16_value(b.len() + 4int);
    assert(r[6] == r.subrange(6, 9)[0] && r[7] == r.subrange(6, 9)[1] && r[8] == r.subrange(6, 9)[2]);
    lemma_be24_value(b.len() as int);
    assert(r[9] == r.subrange(9, r.len() as int)[0] && r[10] == r.subrange(9, r.len() as int)[1]);
    assert(b[0] == b.subrange(0, 2)[0] && b[1] == b.subrange(0, 2)[1]);
    assert forall|k: int| 0 <= k < 32 implies r.subrange(11, 43)[k] == b.subrange(2, 34)[k] by {
        assert(r.subrange(11, 43)[k] == r[11 + k]);
        assert(r[11 + k] == r.subrange(9, r.len() as int)[2 + k]);
    }
    assert(r.subrange(11, 43) =~= b.subrange(2, 34));
    assert(r[43] == r.subrange(9, r.len() as int)[34]);
    assert(b[34] == b.subrange(34, 39)[0]);
    assert forall|k: int| 0 <= k < 4 implies r.subrange(44, 48)[k] == b.subrange(34, 39)[k + 1] by {
        assert(r[44 + k] == r.subrange(9, r.len() as int)[35 + k]);
    }
    assert(r.subrange(44, 48) =~= seq![0x00u8, 0x02, 0x13, 0x01]);
    assert forall|k: int| 0 <= k < 2 implies r.subrange(48, 50)[k] == b.subrange(39, 41)[k] by {
        assert(r[48 + k] == r.subrange(9, r.len() as int)[39 + k]);
    }
    assert(r.subrange(48, 50) =~= seq![0x01u8, 0x00]);
    assert(r[50] == r.subrange(9, r.len() as int)[41] && r[51] == r.subrange(9, r.len() as int)[42]);
    assert(b[41] == b.subrange(41, 43)[0] && b[42] == b.subrange(41, 43)[1]);
    lemma_be16_value(e.len() as int);
    assert forall|k: int| 0 <= k < n + 44 implies r[52 + k] == e[k] by {
        assert(r[52 + k] == r.subrange(9, r.len() as int)[43 + k]);
        assert(b[43 + k] == b.subrange(43, b.len() as int)[k]);
    }
    assert(r.subrange(52, 54) =~= e.subrange(0, 2));
    assert(r[59] == e[7] && r[60] == e[8]);
    assert(r.subrange(61, 61 + n) =~= e.subrange(9, 9 + n));
}

/// When the hello fits a record, no length is truncated and the fields
/// stand where RFC 8446 puts them: the record length counts the bytes
/// after the 5-byte record header, the 24-bit handshake length those after
/// the 4-byte message header; legacy_version 0x0303 follows; after the
/// random come an empty session id, the one cipher suite 0x1301 with its
/// length 2, the one null compression method with its length 1, and the
/// extensions' length, which counts the rest; the server name stands
/// whole at byte 61, after its 16-bit length.
pub proof fn lemma_client_hello_layout(random: u8, host: Seq<u8>)
    requires
        hello_fits(host.len()),
    ensures
        ({
            let r = client_hello_record(random, host);
            let n = host.len() as int;
            &&& r.len() == n + 96
            &&& r[0] == 0x16u8 && r[5] == 0x01u8
            &&& (r[3] as int) * 256 + (r[4] as int) == r.len() - 5
            &&& (r[6] as int) * 65536 + (r[7] as int) * 256 + (r[8] as int) == r.len() - 9
            &&& r[9] == 0x03u8 && r[10] == 0x03u8
            &&& r.subrange(11, 43) == Seq::new(32, |i: int| random)
            &&& r[43] == 0u8
            &&& r.subrange(44, 48) == seq![0x00u8, 0x02, 0x13, 0x01]
            &&& r.subrange(48, 50) == seq![0x01u8, 0x00]
            &&& (r[50] as int) * 256 + (r[51] as int) == r.len() - 52
            &&& r.subrange(52, 54) == seq![0x00u8, 0x00]
            &&& (r[59] as int) * 256 + (r[60] as int) == n
            &&& r.subrange(61, 61 + n) == host
        }),
{
    lemma_extensions_layout(host);
    lemma_body_layout(random, host);
    lemma_record_layout(random, host);
    lemma_fields(client_hello_record(random, host), client_hello_body(random, host), hello_extensions(host), random, host);
}

} // verus!
