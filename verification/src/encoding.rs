//! Hexadecimal text, through the `hex` crate.

use vstd::prelude::*;

verus! {

/// The lower-case hex digit for a nibble.
pub open spec fn hex_lower_digit(n: nat) -> char {
    if n < 10 {
        ((n + 48) as u8) as char
    } else {
        ((n + 87) as u8) as char
    }
}

/// Lower-case hex text of `b`: two digits per byte, high nibble first.
pub open spec fn hex_lower_seq(b: Seq<u8>) -> Seq<char>
    decreases b.len(),
{
    if b.len() == 0 {
        Seq::empty()
    } else {
        seq![hex_lower_digit((b[0] / 16) as nat), hex_lower_digit((b[0] % 16) as nat)]
            + hex_lower_seq(b.drop_first())
    }
}

/// The value of a hex digit byte (either case), if it is one.
pub open spec fn hex_byte_value(c: u8) -> Option<u8> {
    if 48 <= c && c <= 57 {
        Some((c - 48) as u8)
    } else if 65 <= c && c <= 70 {
        Some((c - 55) as u8)
    } else if 97 <= c && c <= 102 {
        Some((c - 87) as u8)
    } else {
        None
    }
}

/// Decoding of hex text given as bytes: an even number of hex digits (either
/// case), two per byte, high nibble first; anything else is refused.
pub open spec fn hex_decode_seq(t: Seq<u8>) -> Option<Seq<u8>> {
    if t.len() % 2 == 0 && (forall|i: int| 0 <= i < t.len() ==> (#[trigger] hex_byte_value(t[i])) is Some) {
        Some(
            Seq::new(
                (t.len() / 2) as nat,
                |k: int|
                    (hex_byte_value(t[2 * k])->Some_0 * 16 + hex_byte_value(t[2 * k + 1])->Some_0) as u8,
            ),
        )
    } else {
        None
    }
}

/// `hex::encode`: lower-case hex text of the bytes.
#[verifier::external_body]
pub(crate) fn hex_encode(data: &[u8]) -> (r: String)
    ensures
        r@ == hex_lower_seq(data@),
{
    hex::encode(data)
}

/// `hex::decode` applied to the bytes of `s`; `None` for its errors (odd
/// length, a byte that is no hex digit).
#[verifier::external_body]
pub(crate) fn hex_decode(s: &str) -> (r: Option<Vec<u8>>)
    ensures
        match r {
            Some(v) => hex_decode_seq(vstd::utf8::encode_utf8(s@)) == Some(v@),
            None => hex_decode_seq(vstd::utf8::encode_utf8(s@)) is None,
        },
{
    hex::decode(s).ok()
}

/// The bytes `a` followed by the bytes `b`.
pub fn concat_bytes(a: &[u8], b: &[u8]) -> (r: Vec<u8>)
    ensures
        r@ == a@ + b@,
{
    let mut r: Vec<u8> = Vec::new();
    let mut i: usize = 0;
    while i < a.len()
        invariant
            i <= a.len(),
            r@ == a@.take(i as int),
        decreases a.len() - i,
    {
        r.push(a[i]);
        i += 1;
    }
    let mut j: usize = 0;
    while j < b.len()
        invariant
            j <= b.len(),
            r@ == a@ + b@.take(j as int),
        decreases b.len() - j,
    {
        r.push(b[j]);
        j += 1;
    }
    assert(a@.take(a.len() as int) =~= a@);
    assert(b@.take(b.len() as int) =~= b@);
    r
}

/// The UTF-8 byte of a lower-case hex digit is a hex digit byte of the
/// same value.
proof fn lemma_hex_digit_byte(n: nat)
    requires
        n < 16,
    ensures
        vstd::utf8::encode_utf8(seq![hex_lower_digit(n)]) matches s && s.len() == 1
            && hex_byte_value(s[0]) == Some(n as u8),
{
    let c = hex_lower_digit(n);
    let u = c as u32;
    assert(u <= 0x7F);
    assert(u & 0x7F == u) by (bit_vector)
        requires
            u <= 0x7F,
    ;
    let e = vstd::utf8::encode_utf8(seq![c]);
    assert(seq![c].drop_first() =~= Seq::<char>::empty());
    assert(vstd::utf8::encode_utf8(Seq::<char>::empty()) =~= Seq::<u8>::empty());
    assert(seq![c][0] as u32 == u);
    assert(vstd::utf8::encode_scalar(u) == seq![vstd::utf8::leading_byte_width_1(u)]);
    assert(e =~= vstd::utf8::encode_scalar(u) + Seq::<u8>::empty());
    assert(e =~= seq![vstd::utf8::leading_byte_width_1(u)]);
}

/// The UTF-8 bytes of the lower-case hex text of `k`: two hex digit bytes
/// per byte of `k`, whose values give back that byte.
proof fn lemma_hex_lower_bytes(k: Seq<u8>)
    ensures
        ({
            let e = vstd::utf8::encode_utf8(hex_lower_seq(k));
            &&& e.len() == 2 * k.len()
            &&& forall|i: int|
                0 <= i < k.len() ==> hex_byte_value(#[trigger] e[2 * i]) == Some((k[i] / 16) as u8)
                    && hex_byte_value(e[2 * i + 1]) == Some((k[i] % 16) as u8)
        }),
    decreases k.len(),
{
    if k.len() > 0 {
        let hi = (k[0] / 16) as nat;
        let lo = (k[0] % 16) as nat;
        let pair = seq![hex_lower_digit(hi), hex_lower_digit(lo)];
        let rest = k.drop_first();
        lemma_hex_lower_bytes(rest);
        lemma_hex_digit_byte(hi);
        lemma_hex_digit_byte(lo);
        crate::text::lemma_encode_utf8_concat(pair, hex_lower_seq(rest));
        crate::text::lemma_encode_utf8_concat(seq![hex_lower_digit(hi)], seq![hex_lower_digit(lo)]);
        assert(seq![hex_lower_digit(hi)] + seq![hex_lower_digit(lo)] =~= pair);
        let e = vstd::utf8::encode_utf8(hex_lower_seq(k));
        let er = vstd::utf8::encode_utf8(hex_lower_seq(rest));
        assert(e.len() == 2 + er.len());
        assert forall|i: int| 0 <= i < k.len() implies hex_byte_value(#[trigger] e[2 * i]) == Some(
            (k[i] / 16) as u8,
        ) && hex_byte_value(e[2 * i + 1]) == Some((k[i] % 16) as u8) by {
            if i > 0 {
                assert(e[2 * i] == er[2 * (i - 1)]);
                assert(e[2 * i + 1] == er[2 * (i - 1) + 1]);
                assert(rest[i - 1] == k[i]);
            }
        }
    }
}

/// Lower-case hex text reads back as the bytes it was written from.
pub proof fn lemma_hex_lower_reads_back(k: Seq<u8>)
    ensures
        vstd::utf8::encode_utf8(hex_lower_seq(k)).len() == 2 * k.len(),
        hex_decode_seq(vstd::utf8::encode_utf8(hex_lower_seq(k))) == Some(k),
{
    lemma_hex_lower_bytes(k);
    let e = vstd::utf8::encode_utf8(hex_lower_seq(k));
    assert forall|j: int| 0 <= j < e.len() implies (#[trigger] hex_byte_value(e[j])) is Some by {
        let i = j / 2;
        assert(0 <= i < k.len());
        assert(hex_byte_value(e[2 * i]) == Some((k[i] / 16) as u8));
        if j % 2 == 0 {
            assert(j == 2 * i);
        } else {
            assert(j == 2 * i + 1);
        }
    }
    let d = hex_decode_seq(e)->Some_0;
    assert forall|i: int| 0 <= i < k.len() implies d[i] == k[i] by {
        assert(hex_byte_value(e[2 * i]) == Some((k[i] / 16) as u8));
    }
    assert(d =~= k);
}

} // verus!
