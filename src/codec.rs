use vstd::prelude::*;
use crate::meter::WeightInfo;

verus! {

/// The eight little-endian bytes of `x`.
pub open spec fn u64_le_bytes(x: u64) -> Seq<u8> {
    seq![
        (x & 0xff) as u8,
        ((x >> 8u64) & 0xff) as u8,
        ((x >> 16u64) & 0xff) as u8,
        ((x >> 24u64) & 0xff) as u8,
        ((x >> 32u64) & 0xff) as u8,
        ((x >> 40u64) & 0xff) as u8,
        ((x >> 48u64) & 0xff) as u8,
        ((x >> 56u64) & 0xff) as u8,
    ]
}

/// The integer whose little-endian bytes are the first eight of `s`.
pub open spec fn u64_from_le_bytes(s: Seq<u8>) -> u64
    recommends
        s.len() >= 8,
{
    (s[0] as u64) | ((s[1] as u64) << 8u64) | ((s[2] as u64) << 16u64) | ((s[3] as u64)
        << 24u64) | ((s[4] as u64) << 32u64) | ((s[5] as u64) << 40u64) | ((s[6] as u64)
        << 48u64) | ((s[7] as u64) << 56u64)
}

/// An optional integer as a tag byte, 0 for absent and 1 for present,
/// followed by the integer's bytes when present.
pub open spec fn option_u64_encoding(o: Option<u64>) -> Seq<u8> {
    match o {
        None => seq![0u8],
        Some(v) => seq![1u8] + u64_le_bytes(v),
    }
}

/// The binary form of a meter: its four fields in declaration order.
pub open spec fn weight_info_encoding(w: WeightInfo) -> Seq<u8> {
    option_u64_encoding(w.ref_time_limit) + option_u64_encoding(w.proof_size_limit)
        + option_u64_encoding(w.ref_time_usage) + option_u64_encoding(w.proof_size_usage)
}

/// `t` stands in `s` from position `pos` on.
pub open spec fn encoded_at(s: Seq<u8>, pos: int, t: Seq<u8>) -> bool {
    0 <= pos && pos + t.len() <= s.len() && s.subrange(pos, pos + t.len()) == t
}

/// Relies on parity_scale_codec's `Encode` for `u64`: its little-endian bytes.
#[verifier::external_body]
fn encode_u64(x: u64) -> (r: Vec<u8>)
    ensures
        r@ == u64_le_bytes(x),
{
    parity_scale_codec::Encode::encode(&x)
}

/// Relies on parity_scale_codec's `Decode` for `u64` on a byte slice: the
/// little-endian value of the next eight bytes, and an error when fewer remain.
#[verifier::external_body]
fn decode_u64_at(bytes: &[u8], pos: usize) -> (r: Option<u64>)
    requires
        pos <= bytes@.len(),
    ensures
        pos + 8 <= bytes@.len() ==> r == Some(
            u64_from_le_bytes(bytes@.subrange(pos as int, pos + 8)),
        ),
        pos + 8 > bytes@.len() ==> r is None,
{
    <u64 as parity_scale_codec::Decode>::decode(&mut &bytes[pos..]).ok()
}

proof fn lemma_u64_le_bytes_inverse(x: u64)
    ensures
        u64_le_bytes(x).len() == 8,
        u64_from_le_bytes(u64_le_bytes(x)) == x,
{
    assert(((((x & 0xff) as u8) as u64) | (((((x >> 8u64) & 0xff) as u8) as u64) << 8u64) | (
    ((((x >> 16u64) & 0xff) as u8) as u64) << 16u64) | (((((x >> 24u64) & 0xff) as u8) as u64)
        << 24u64) | (((((x >> 32u64) & 0xff) as u8) as u64) << 32u64) | (((((x >> 40u64)
        & 0xff) as u8) as u64) << 40u64) | (((((x >> 48u64) & 0xff) as u8) as u64) << 48u64) | (
    ((((x >> 56u64) & 0xff) as u8) as u64) << 56u64)) == x) by (bit_vector);
}

proof fn lemma_u64_from_le_bytes_inverse(s: Seq<u8>)
    requires
        s.len() == 8,
    ensures
        u64_le_bytes(u64_from_le_bytes(s)) == s,
{
    let (b0, b1, b2, b3, b4, b5, b6, b7) = (s[0], s[1], s[2], s[3], s[4], s[5], s[6], s[7]);
    let v = u64_from_le_bytes(s);
    assert(v == (b0 as u64) | ((b1 as u64) << 8u64) | ((b2 as u64) << 16u64) | ((b3 as u64)
        << 24u64) | ((b4 as u64) << 32u64) | ((b5 as u64) << 40u64) | ((b6 as u64) << 48u64)
        | ((b7 as u64) << 56u64));
    assert({
        &&& (v & 0xff) as u8 == b0
        &&& ((v >> 8u64) & 0xff) as u8 == b1
        &&& ((v >> 16u64) & 0xff) as u8 == b2
        &&& ((v >> 24u64) & 0xff) as u8 == b3
        &&& ((v >> 32u64) & 0xff) as u8 == b4
        &&& ((v >> 40u64) & 0xff) as u8 == b5
        &&& ((v >> 48u64) & 0xff) as u8 == b6
        &&& ((v >> 56u64) & 0xff) as u8 == b7
    }) by (bit_vector)
        requires
            v == (b0 as u64) | ((b1 as u64) << 8u64) | ((b2 as u64) << 16u64) | ((b3 as u64)
                << 24u64) | ((b4 as u64) << 32u64) | ((b5 as u64) << 40u64) | ((b6 as u64)
                << 48u64) | ((b7 as u64) << 56u64),
    ;
    assert(u64_le_bytes(v) =~= s);
}

/// At most one optional integer is encoded at a given position.
proof fn lemma_option_encoding_unique(s: Seq<u8>, pos: int, a: Option<u64>, b: Option<u64>)
    requires
        encoded_at(s, pos, option_u64_encoding(a)),
        encoded_at(s, pos, option_u64_encoding(b)),
    ensures
        a == b,
{
    let ea = option_u64_encoding(a);
    let eb = option_u64_encoding(b);
    assert(ea[0] == s[pos]);
    assert(eb[0] == s[pos]);
    if let (Some(x), Some(y)) = (a, b) {
        lemma_u64_le_bytes_inverse(x);
        lemma_u64_le_bytes_inverse(y);
        assert(ea.subrange(1, 9) =~= u64_le_bytes(x));
        assert(eb.subrange(1, 9) =~= u64_le_bytes(y));
        assert(ea =~= eb);
    }
}

/// Appends the encoding of `o` to `out`.
fn encode_option_u64(o: Option<u64>, out: &mut Vec<u8>)
    ensures
        final(out)@ == old(out)@ + option_u64_encoding(o),
{
    match o {
        None => out.push(0u8),
        Some(v) => {
            out.push(1u8);
            let bytes = encode_u64(v);
            let mut i: usize = 0;
            while i < bytes.len()
                invariant
                    bytes@ == u64_le_bytes(v),
                    i <= bytes@.len(),
                    out@ == old(out)@ + seq![1u8] + bytes@.subrange(0, i as int),
                decreases bytes@.len() - i,
            {
                out.push(bytes[i]);
                i = i + 1;
                assert(out@ =~= old(out)@ + seq![1u8] + bytes@.subrange(0, i as int));
            }
            assert(bytes@.subrange(0, i as int) =~= bytes@);
            assert(out@ =~= old(out)@ + option_u64_encoding(o));
        },
    }
}

/// Reads an optional integer at `pos`, returning it with the position after it.
fn decode_option_u64(bytes: &[u8], pos: usize) -> (r: Option<(Option<u64>, usize)>)
    requires
        pos <= bytes@.len(),
    ensures
        r matches Some((o, n)) ==> n == pos + option_u64_encoding(o).len() && encoded_at(
            bytes@,
            pos as int,
            option_u64_encoding(o),
        ),
        forall|o: Option<u64>| #[trigger]
            encoded_at(bytes@, pos as int, option_u64_encoding(o)) ==> r == Some(
                (o, (pos + option_u64_encoding(o).len()) as usize),
            ),
{
    if pos >= bytes.len() {
        return None;
    }
    let tag = bytes[pos];
    let r = if tag == 0 {
        proof {
            assert(bytes@.subrange(pos as int, pos + 1) =~= option_u64_encoding(None));
        }
        Some((None, pos + 1))
    } else if tag == 1 && bytes.len() - pos >= 9 {
        match decode_u64_at(bytes, pos + 1) {
            Some(v) => {
                proof {
                    let t = bytes@.subrange(pos + 1, pos + 9);
                    lemma_u64_from_le_bytes_inverse(t);
                    assert(bytes@.subrange(pos as int, pos + 9) =~= option_u64_encoding(
                        Some(v),
                    ));
                }
                Some((Some(v), pos + 9))
            },
            None => None,
        }
    } else {
        None
    };
    proof {
        assert forall|o: Option<u64>| #[trigger]
            encoded_at(bytes@, pos as int, option_u64_encoding(o)) implies r == Some(
                (o, (pos + option_u64_encoding(o).len()) as usize),
            ) by {
            let e = option_u64_encoding(o);
            assert(e[0] == bytes@.subrange(pos as int, pos + e.len())[0]);
            if let Some((o2, n)) = r {
                lemma_option_encoding_unique(bytes@, pos as int, o, o2);
            }
        }
    }
    r
}

/// Where the four fields of a meter stand in its encoding.
proof fn lemma_encoding_parts(w: WeightInfo)
    ensures
        ({
            let s = weight_info_encoding(w);
            let n1 = option_u64_encoding(w.ref_time_limit).len();
            let n2 = n1 + option_u64_encoding(w.proof_size_limit).len();
            let n3 = n2 + option_u64_encoding(w.ref_time_usage).len();
            &&& encoded_at(s, 0, option_u64_encoding(w.ref_time_limit))
            &&& encoded_at(s, n1 as int, option_u64_encoding(w.proof_size_limit))
            &&& encoded_at(s, n2 as int, option_u64_encoding(w.ref_time_usage))
            &&& encoded_at(s, n3 as int, option_u64_encoding(w.proof_size_usage))
            &&& s.len() == n3 + option_u64_encoding(w.proof_size_usage).len()
        }),
{
    let a = option_u64_encoding(w.ref_time_limit);
    let b = option_u64_encoding(w.proof_size_limit);
    let c = option_u64_encoding(w.ref_time_usage);
    let d = option_u64_encoding(w.proof_size_usage);
    let s = weight_info_encoding(w);
    let (la, lb, lc) = (a.len() as int, b.len() as int, c.len() as int);
    assert(s.subrange(0, la) =~= a);
    assert(s.subrange(la, la + lb) =~= b);
    assert(s.subrange(la + lb, la + lb + lc) =~= c);
    assert(s.subrange(la + lb + lc, s.len() as int) =~= d);
}

/// Distinct meters have distinct encodings; in particular an untracked
/// dimension encodes differently from a tracked one at zero usage.
pub proof fn lemma_weight_info_encoding_injective(a: WeightInfo, b: WeightInfo)
    requires
        weight_info_encoding(a) == weight_info_encoding(b),
    ensures
        a == b,
{
    lemma_encoding_parts(a);
    lemma_encoding_parts(b);
    let s = weight_info_encoding(a);
    lemma_option_encoding_unique(s, 0, a.ref_time_limit, b.ref_time_limit);
    let n1 = option_u64_encoding(a.ref_time_limit).len() as int;
    lemma_option_encoding_unique(s, n1, a.proof_size_limit, b.proof_size_limit);
    let n2 = n1 + option_u64_encoding(a.proof_size_limit).len();
    lemma_option_encoding_unique(s, n2, a.ref_time_usage, b.ref_time_usage);
    let n3 = n2 + option_u64_encoding(a.ref_time_usage).len();
    lemma_option_encoding_unique(s, n3, a.proof_size_usage, b.proof_size_usage);
}

/// The meter whose binary form is exactly `bytes`, if there is one.
pub open spec fn weight_info_decoding(bytes: Seq<u8>) -> Option<WeightInfo> {
    if exists|w: WeightInfo| weight_info_encoding(w) == bytes {
        Some(choose|w: WeightInfo| weight_info_encoding(w) == bytes)
    } else {
        None
    }
}

/// Encoding a meter and decoding the bytes gives back the same meter, absent
/// dimensions and zero usages included.
pub proof fn lemma_weight_info_round_trip(w: WeightInfo)
    ensures
        weight_info_decoding(weight_info_encoding(w)) == Some(w),
{
    let bytes = weight_info_encoding(w);
    let x = choose|x: WeightInfo| weight_info_encoding(x) == bytes;
    lemma_weight_info_encoding_injective(x, w);
}

impl WeightInfo {
    /// The binary form of this meter.
    pub fn encode(&self) -> (r: Vec<u8>)
        ensures
            r@ == weight_info_encoding(*self),
    {
        let mut out: Vec<u8> = Vec::new();
        encode_option_u64(self.ref_time_limit, &mut out);
        encode_option_u64(self.proof_size_limit, &mut out);
        encode_option_u64(self.ref_time_usage, &mut out);
        encode_option_u64(self.proof_size_usage, &mut out);
        assert(out@ =~= weight_info_encoding(*self));
        out
    }

    /// The meter whose binary form is exactly `bytes`, if any.
    pub fn decode_all(bytes: &[u8]) -> (r: Option<WeightInfo>)
        ensures
            r == weight_info_decoding(bytes@),
    {
        let r = match decode_option_u64(bytes, 0) {
            None => None,
            Some((a, p1)) => match decode_option_u64(bytes, p1) {
                None => None,
                Some((b, p2)) => match decode_option_u64(bytes, p2) {
                    None => None,
                    Some((c, p3)) => match decode_option_u64(bytes, p3) {
                        None => None,
                        Some((d, p4)) => if p4 == bytes.len() {
                            let w = WeightInfo {
                                ref_time_limit: a,
                                proof_size_limit: b,
                                ref_time_usage: c,
                                proof_size_usage: d,
                            };
                            proof {
                                assert(bytes@ =~= bytes@.subrange(0, p1 as int) + bytes@.subrange(
                                    p1 as int,
                                    p2 as int,
                                ) + bytes@.subrange(p2 as int, p3 as int) + bytes@.subrange(
                                    p3 as int,
                                    p4 as int,
                                ));
                            }
                            Some(w)
                        } else {
                            None
                        },
                    },
                },
            },
        };
        proof {
            assert forall|w: WeightInfo| weight_info_encoding(w) == bytes@ implies r == Some(w) by {
                lemma_encoding_parts(w);
            }
            if let Some(w) = r {
                let x = choose|x: WeightInfo| weight_info_encoding(x) == bytes@;
                lemma_weight_info_encoding_injective(x, w);
            }
        }
        r
    }
}

} // verus!
