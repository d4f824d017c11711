//! Canonical message codec: the deterministic, field-order-fixed byte
//! encoding of a cross-chain message, and the lowercase hexadecimal rendering
//! used for storage keys.

use vstd::prelude::*;
use vstd::string::StringExecFns;

verus! {

/// Chain identifier of the local chain this gateway serves.
pub const CASPER_CHAIN_ID: u32 = 3;

/// The four big-endian bytes of a 32-bit value.
pub open spec fn u32_be_bytes(x: u32) -> Seq<u8> {
    seq![(x >> 24) as u8, (x >> 16) as u8, (x >> 8) as u8, x as u8]
}

/// The eight big-endian bytes of a 64-bit value.
pub open spec fn u64_be_bytes(x: u64) -> Seq<u8> {
    seq![
        (x >> 56) as u8,
        (x >> 48) as u8,
        (x >> 40) as u8,
        (x >> 32) as u8,
        (x >> 24) as u8,
        (x >> 16) as u8,
        (x >> 8) as u8,
        x as u8,
    ]
}

/// The canonical byte encoding of a message: `src_chain_id` (4 bytes
/// big-endian), `dst_chain_id` (4 bytes big-endian), the raw sender identity,
/// the raw receiver identity, `nonce` (8 bytes big-endian), then the raw
/// payload. No length delimiters stand between the variable-length fields;
/// wire and storage compatibility depends on preserving this exactly.
pub open spec fn canonical_bytes(
    src_chain_id: u32,
    dst_chain_id: u32,
    src_gateway: Seq<u8>,
    receiver: Seq<u8>,
    nonce: u64,
    payload: Seq<u8>,
) -> Seq<u8> {
    u32_be_bytes(src_chain_id) + u32_be_bytes(dst_chain_id) + src_gateway + receiver
        + u64_be_bytes(nonce) + payload
}

/// Appends the big-endian bytes of `x` to `out`.
fn push_u32_be(out: &mut Vec<u8>, x: u32)
    ensures
        final(out)@ == old(out)@ + u32_be_bytes(x),
{
    out.push((x >> 24) as u8);
    out.push((x >> 16) as u8);
    out.push((x >> 8) as u8);
    out.push(x as u8);
    assert(out@ =~= old(out)@ + u32_be_bytes(x));
}

/// Appends the big-endian bytes of `x` to `out`.
fn push_u64_be(out: &mut Vec<u8>, x: u64)
    ensures
        final(out)@ == old(out)@ + u64_be_bytes(x),
{
    out.push((x >> 56) as u8);
    out.push((x >> 48) as u8);
    out.push((x >> 40) as u8);
    out.push((x >> 32) as u8);
    out.push((x >> 24) as u8);
    out.push((x >> 16) as u8);
    out.push((x >> 8) as u8);
    out.push(x as u8);
    assert(out@ =~= old(out)@ + u64_be_bytes(x));
}

/// Appends every byte of `s` to `out`, in order.
fn push_bytes(out: &mut Vec<u8>, s: &[u8])
    ensures
        final(out)@ == old(out)@ + s@,
{
    let n: usize = s.len();
    for i in 0..n
        invariant
            n == s@.len(),
            out@ == old(out)@ + s@.take(i as int),
    {
        out.push(s[i]);
        assert(s@.take(i + 1) =~= s@.take(i as int).push(s@[i as int]));
    }
    assert(out@ =~= old(out)@ + s@);
}

/// Builds the canonical byte encoding of a message from its logical fields.
///
/// Both the outbound path and the inbound signature check rebuild a message's
/// bytes through this one function, so the two always agree byte for byte.
pub fn build_message_bytes(
    src_chain_id: u32,
    dst_chain_id: u32,
    src_gateway: &[u8],
    receiver: &[u8],
    nonce: u64,
    payload: &[u8],
) -> (out: Vec<u8>)
    ensures
        out@ == canonical_bytes(src_chain_id, dst_chain_id, src_gateway@, receiver@, nonce, payload@),
{
    let mut out: Vec<u8> = Vec::new();
    push_u32_be(&mut out, src_chain_id);
    push_u32_be(&mut out, dst_chain_id);
    push_bytes(&mut out, src_gateway);
    push_bytes(&mut out, receiver);
    push_u64_be(&mut out, nonce);
    push_bytes(&mut out, payload);
    assert(out@ =~= canonical_bytes(
        src_chain_id,
        dst_chain_id,
        src_gateway@,
        receiver@,
        nonce,
        payload@,
    ));
    out
}

/// The lowercase hexadecimal digit for a value below 16.
pub open spec fn hex_char(v: u8) -> char {
    if v == 0 {
        '0'
    } else if v == 1 {
        '1'
    } else if v == 2 {
        '2'
    } else if v == 3 {
        '3'
    } else if v == 4 {
        '4'
    } else if v == 5 {
        '5'
    } else if v == 6 {
        '6'
    } else if v == 7 {
        '7'
    } else if v == 8 {
        '8'
    } else if v == 9 {
        '9'
    } else if v == 10 {
        'a'
    } else if v == 11 {
        'b'
    } else if v == 12 {
        'c'
    } else if v == 13 {
        'd'
    } else if v == 14 {
        'e'
    } else {
        'f'
    }
}

/// The lowercase hexadecimal rendering of a byte string: two digits per byte,
/// high nibble first, no separators, no prefix.
pub open spec fn hex_str_of(bytes: Seq<u8>) -> Seq<char>
    decreases bytes.len(),
{
    if bytes.len() == 0 {
        Seq::<char>::empty()
    } else {
        hex_str_of(bytes.drop_last()) + seq![
            hex_char(bytes.last() / 16),
            hex_char(bytes.last() % 16),
        ]
    }
}

/// The one-character string holding the lowercase hexadecimal digit for `v`.
fn hex_digit_str(v: u8) -> (r: &'static str)
    requires
        v < 16,
    ensures
        r@ == seq![hex_char(v)],
{
    proof {
        reveal_strlit("0");
        reveal_strlit("1");
        reveal_strlit("2");
        reveal_strlit("3");
        reveal_strlit("4");
        reveal_strlit("5");
        reveal_strlit("6");
        reveal_strlit("7");
        reveal_strlit("8");
        reveal_strlit("9");
        reveal_strlit("a");
        reveal_strlit("b");
        reveal_strlit("c");
        reveal_strlit("d");
        reveal_strlit("e");
        reveal_strlit("f");
    }
    let r: &'static str = match v {
        0 => "0",
        1 => "1",
        2 => "2",
        3 => "3",
        4 => "4",
        5 => "5",
        6 => "6",
        7 => "7",
        8 => "8",
        9 => "9",
        10 => "a",
        11 => "b",
        12 => "c",
        13 => "d",
        14 => "e",
        _ => "f",
    };
    assert(r@ =~= seq![hex_char(v)]);
    r
}

/// Renders a byte string in lowercase hexadecimal, two digits per byte.
pub fn to_hex(bytes: &[u8]) -> (s: String)
    ensures
        s@ == hex_str_of(bytes@),
{
    let mut s = String::new();
    let n: usize = bytes.len();
    for i in 0..n
        invariant
            n == bytes@.len(),
            s@ == hex_str_of(bytes@.take(i as int)),
    {
        let b: u8 = bytes[i];
        let hi: u8 = b / 16;
        let lo: u8 = b % 16;
        s.append(hex_digit_str(hi));
        s.append(hex_digit_str(lo));
        proof {
            let t = bytes@.take(i + 1);
            assert(t.drop_last() =~= bytes@.take(i as int));
            assert(t.last() == bytes@[i as int]);
        }
    }
    assert(bytes@.take(n as int) =~= bytes@);
    s
}

proof fn lemma_u32_be_bytes_injective(x: u32, y: u32)
    requires
        u32_be_bytes(x) == u32_be_bytes(y),
    ensures
        x == y,
{
    assert(u32_be_bytes(x)[0] == u32_be_bytes(y)[0]);
    assert(u32_be_bytes(x)[1] == u32_be_bytes(y)[1]);
    assert(u32_be_bytes(x)[2] == u32_be_bytes(y)[2]);
    assert(u32_be_bytes(x)[3] == u32_be_bytes(y)[3]);
    assert(x == y) by (bit_vector)
        requires
            (x >> 24) as u8 == (y >> 24) as u8,
            (x >> 16) as u8 == (y >> 16) as u8,
            (x >> 8) as u8 == (y >> 8) as u8,
            x as u8 == y as u8,
    ;
}

proof fn lemma_u64_be_bytes_injective(x: u64, y: u64)
    requires
        u64_be_bytes(x) == u64_be_bytes(y),
    ensures
        x == y,
{
    assert(u64_be_bytes(x)[0] == u64_be_bytes(y)[0]);
    assert(u64_be_bytes(x)[1] == u64_be_bytes(y)[1]);
    assert(u64_be_bytes(x)[2] == u64_be_bytes(y)[2]);
    assert(u64_be_bytes(x)[3] == u64_be_bytes(y)[3]);
    assert(u64_be_bytes(x)[4] == u64_be_bytes(y)[4]);
    assert(u64_be_bytes(x)[5] == u64_be_bytes(y)[5]);
    assert(u64_be_bytes(x)[6] == u64_be_bytes(y)[6]);
    assert(u64_be_bytes(x)[7] == u64_be_bytes(y)[7]);
    assert(x == y) by (bit_vector)
        requires
            (x >> 56) as u8 == (y >> 56) as u8,
            (x >> 48) as u8 == (y >> 48) as u8,
            (x >> 40) as u8 == (y >> 40) as u8,
            (x >> 32) as u8 == (y >> 32) as u8,
            (x >> 24) as u8 == (y >> 24) as u8,
            (x >> 16) as u8 == (y >> 16) as u8,
            (x >> 8) as u8 == (y >> 8) as u8,
            x as u8 == y as u8,
    ;
}

/// Re-encoding the same logical fields always reproduces byte-identical
/// output — the encoding is a pure function of them — and, for fixed sender-
/// and receiver-identity lengths, it is also injective: byte-identical
/// encodings can only come from identical fields. (With no length delimiters
/// between the variable-length fields, injectivity across differing identity
/// lengths is deliberately not claimed.)
pub proof fn lemma_canonical_bytes_injective(
    src_a: u32,
    dst_a: u32,
    sg_a: Seq<u8>,
    rc_a: Seq<u8>,
    nonce_a: u64,
    pl_a: Seq<u8>,
    src_b: u32,
    dst_b: u32,
    sg_b: Seq<u8>,
    rc_b: Seq<u8>,
    nonce_b: u64,
    pl_b: Seq<u8>,
)
    requires
        sg_a.len() == sg_b.len(),
        rc_a.len() == rc_b.len(),
        canonical_bytes(src_a, dst_a, sg_a, rc_a, nonce_a, pl_a) == canonical_bytes(
            src_b,
            dst_b,
            sg_b,
            rc_b,
            nonce_b,
            pl_b,
        ),
    ensures
        src_a == src_b,
        dst_a == dst_b,
        sg_a == sg_b,
        rc_a == rc_b,
        nonce_a == nonce_b,
        pl_a == pl_b,
{
    let ea = canonical_bytes(src_a, dst_a, sg_a, rc_a, nonce_a, pl_a);
    let eb = canonical_bytes(src_b, dst_b, sg_b, rc_b, nonce_b, pl_b);
    let sgl = sg_a.len() as int;
    let rl = rc_a.len() as int;
    assert(ea.len() == 16 + sgl + rl + pl_a.len());
    assert(eb.len() == 16 + sgl + rl + pl_b.len());
    assert(u32_be_bytes(src_a) =~= u32_be_bytes(src_b)) by {
        assert forall|i: int| 0 <= i < 4 implies u32_be_bytes(src_a)[i] == u32_be_bytes(
            src_b,
        )[i] by {
            assert(ea[i] == u32_be_bytes(src_a)[i]);
            assert(eb[i] == u32_be_bytes(src_b)[i]);
        }
    }
    lemma_u32_be_bytes_injective(src_a, src_b);
    assert(u32_be_bytes(dst_a) =~= u32_be_bytes(dst_b)) by {
        assert forall|i: int| 0 <= i < 4 implies u32_be_bytes(dst_a)[i] == u32_be_bytes(
            dst_b,
        )[i] by {
            assert(ea[4 + i] == u32_be_bytes(dst_a)[i]);
            assert(eb[4 + i] == u32_be_bytes(dst_b)[i]);
        }
    }
    lemma_u32_be_bytes_injective(dst_a, dst_b);
    assert(sg_a =~= sg_b) by {
        assert forall|i: int| 0 <= i < sgl implies sg_a[i] == sg_b[i] by {
            assert(ea[8 + i] == sg_a[i]);
            assert(eb[8 + i] == sg_b[i]);
        }
    }
    assert(rc_a =~= rc_b) by {
        assert forall|i: int| 0 <= i < rl implies rc_a[i] == rc_b[i] by {
            assert(ea[8 + sgl + i] == rc_a[i]);
            assert(eb[8 + sgl + i] == rc_b[i]);
        }
    }
    assert(u64_be_bytes(nonce_a) =~= u64_be_bytes(nonce_b)) by {
        assert forall|i: int| 0 <= i < 8 implies u64_be_bytes(nonce_a)[i] == u64_be_bytes(
            nonce_b,
        )[i] by {
            assert(ea[8 + sgl + rl + i] == u64_be_bytes(nonce_a)[i]);
            assert(eb[8 + sgl + rl + i] == u64_be_bytes(nonce_b)[i]);
        }
    }
    lemma_u64_be_bytes_injective(nonce_a, nonce_b);
    assert(pl_a =~= pl_b) by {
        assert forall|i: int| 0 <= i < pl_a.len() implies pl_a[i] == pl_b[i] by {
            assert(ea[16 + sgl + rl + i] == pl_a[i]);
            assert(eb[16 + sgl + rl + i] == pl_b[i]);
        }
    }
}

} // verus!
