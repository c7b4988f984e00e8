//! Hexadecimal digits and the decoding of hex text into bytes.
use vstd::prelude::*;
use vstd::string::StringSliceAdditionalSpecFns;

verus! {

/// `c` is an ASCII hexadecimal digit.
pub open spec fn is_hex_digit(c: u8) -> bool {
    (0x30 <= c <= 0x39) || (0x61 <= c <= 0x66) || (0x41 <= c <= 0x46)
}

/// The value of the hexadecimal digit `c`.
pub open spec fn hex_value(c: u8) -> u8 {
    if 0x30 <= c <= 0x39 {
        (c - 0x30) as u8
    } else if 0x61 <= c <= 0x66 {
        (c - 0x61 + 10) as u8
    } else {
        (c - 0x41 + 10) as u8
    }
}

/// The value of the hexadecimal digit `ch`.
pub fn nibble(ch: u8) -> (v: u8)
    requires
        is_hex_digit(ch),
    ensures
        v == hex_value(ch),
        v < 16,
{
    if 0x30 <= ch && ch <= 0x39 {
        ch - 0x30
    } else if 0x61 <= ch && ch <= 0x66 {
        ch - 0x61 + 10
    } else {
        ch - 0x41 + 10
    }
}

/// `c` is ASCII whitespace: space, tab, line feed, form feed or carriage return.
pub open spec fn is_ascii_whitespace(c: u8) -> bool {
    c == 0x20 || c == 0x09 || c == 0x0a || c == 0x0c || c == 0x0d
}

/// The bytes of `text` that are not whitespace, in order.
pub open spec fn hex_digits_of(text: Seq<u8>) -> Seq<u8>
    decreases text.len(),
{
    if text.len() == 0 {
        Seq::<u8>::empty()
    } else if is_ascii_whitespace(text.last()) {
        hex_digits_of(text.drop_last())
    } else {
        hex_digits_of(text.drop_last()).push(text.last())
    }
}

/// `text` is hex text: apart from whitespace, an even number of
/// hexadecimal digits.
pub open spec fn hex_text_ok(text: Seq<u8>) -> bool {
    let d = hex_digits_of(text);
    &&& d.len() % 2 == 0
    &&& forall|i: int| 0 <= i < d.len() ==> is_hex_digit(#[trigger] d[i])
}

/// The bytes that pairs of hexadecimal digits stand for, high digit first.
pub open spec fn hex_pairs(d: Seq<u8>) -> Seq<u8> {
    Seq::new(
        d.len() / 2,
        |i: int| (hex_value(d[2 * i]) * 16 + hex_value(d[2 * i + 1])) as u8,
    )
}

/// The bytes that hex text stands for.
pub open spec fn spec_decode_hex(text: Seq<u8>) -> Seq<u8> {
    hex_pairs(hex_digits_of(text))
}

proof fn lemma_hex_digits_concat(a: Seq<u8>, b: Seq<u8>)
    ensures
        hex_digits_of(a + b) == hex_digits_of(a) + hex_digits_of(b),
    decreases b.len(),
{
    if b.len() == 0 {
        assert(a + b =~= a);
        assert(hex_digits_of(a) + hex_digits_of(b) =~= hex_digits_of(a));
    } else {
        lemma_hex_digits_concat(a, b.drop_last());
        assert((a + b).drop_last() =~= a + b.drop_last());
        assert((a + b).last() == b.last());
        if !is_ascii_whitespace(b.last()) {
            assert(hex_digits_of(a) + hex_digits_of(b.drop_last()).push(b.last()) =~= (
            hex_digits_of(a) + hex_digits_of(b.drop_last())).push(b.last()));
        }
    }
}

/// Whitespace anywhere in hex text changes neither whether it is hex text
/// nor the bytes it stands for.
pub proof fn lemma_whitespace_is_ignored(a: Seq<u8>, c: u8, b: Seq<u8>)
    requires
        is_ascii_whitespace(c),
    ensures
        hex_digits_of(a + seq![c] + b) == hex_digits_of(a + b),
        hex_text_ok(a + seq![c] + b) == hex_text_ok(a + b),
        spec_decode_hex(a + seq![c] + b) == spec_decode_hex(a + b),
{
    lemma_hex_digits_concat(a + seq![c], b);
    lemma_hex_digits_concat(a, seq![c]);
    lemma_hex_digits_concat(a, b);
    assert(seq![c].drop_last() =~= Seq::<u8>::empty());
    assert(seq![c].last() == c);
    assert(hex_digits_of(Seq::<u8>::empty()) =~= Seq::<u8>::empty());
    assert(hex_digits_of(seq![c]) == hex_digits_of(seq![c].drop_last()));
    assert(hex_digits_of(seq![c]) =~= Seq::<u8>::empty());
    assert(hex_digits_of(a) + Seq::<u8>::empty() =~= hex_digits_of(a));
}

/// `text` spells the bytes `v` in hex: apart from whitespace anywhere, each
/// byte as two hexadecimal digits of either case, high digit first.
pub open spec fn spells_in_hex(text: Seq<u8>, v: Seq<u8>) -> bool {
    let d = hex_digits_of(text);
    &&& d.len() == 2 * v.len()
    &&& forall|i: int|
        0 <= i < v.len() ==> {
            &&& is_hex_digit(#[trigger] d[2 * i])
            &&& is_hex_digit(d[2 * i + 1])
            &&& hex_value(d[2 * i]) == v[i] / 16
            &&& hex_value(d[2 * i + 1]) == v[i] % 16
        }
}

/// Writing bytes as hex text, with any whitespace, and decoding it gives
/// the bytes back.
pub proof fn lemma_hex_roundtrip(text: Seq<u8>, v: Seq<u8>)
    requires
        spells_in_hex(text, v),
    ensures
        hex_text_ok(text),
        spec_decode_hex(text) == v,
{
    let d = hex_digits_of(text);
    assert forall|j: int| 0 <= j < d.len() implies is_hex_digit(#[trigger] d[j]) by {
        let i = j / 2;
        assert(0 <= i < v.len());
        assert(j == 2 * i || j == 2 * i + 1);
        assert(is_hex_digit(d[2 * i]));
    }
    assert forall|i: int| 0 <= i < v.len() implies #[trigger] hex_pairs(d)[i] == v[i] by {
        assert(is_hex_digit(d[2 * i]));
        let x = v[i] as int;
        assert(x == (x / 16) * 16 + x % 16);
    }
    assert(hex_pairs(d) =~= v);
}

/// The bytes of `text` that are not whitespace.
fn strip_whitespace(text: &[u8]) -> (digits: Vec<u8>)
    ensures
        digits@ == hex_digits_of(text@),
{
    let mut digits: Vec<u8> = Vec::new();
    let mut i: usize = 0;
    while i < text.len()
        invariant
            i <= text@.len(),
            digits@ == hex_digits_of(text@.subrange(0, i as int)),
        decreases text@.len() - i,
    {
        let c = text[i];
        assert(text@.subrange(0, i + 1).drop_last() =~= text@.subrange(0, i as int));
        if !(c == 0x20 || c == 0x09 || c == 0x0a || c == 0x0c || c == 0x0d) {
            digits.push(c);
        }
        i = i + 1;
    }
    assert(text@.subrange(0, text@.len() as int) =~= text@);
    digits
}

/// Whether `hex` is hex text that `decode_hex` takes.
pub fn is_hex_text(hex: &str) -> (ok: bool)
    ensures
        ok == hex_text_ok(hex.spec_bytes()),
{
    let digits = strip_whitespace(hex.as_bytes());
    if digits.len() % 2 != 0 {
        return false;
    }
    let mut i: usize = 0;
    while i < digits.len()
        invariant
            i <= digits@.len(),
            digits@ == hex_digits_of(hex.spec_bytes()),
            forall|j: int| 0 <= j < i ==> is_hex_digit(#[trigger] digits@[j]),
        decreases digits@.len() - i,
    {
        let c = digits[i];
        if !((0x30 <= c && c <= 0x39) || (0x61 <= c && c <= 0x66) || (0x41 <= c && c <= 0x46)) {
            assert(!is_hex_digit(digits@[i as int]));
            return false;
        }
        i = i + 1;
    }
    true
}

/// Decodes hex text into the bytes it stands for, ignoring whitespace.
pub fn decode_hex(hex: &str) -> (bytes: Vec<u8>)
    requires
        hex_text_ok(hex.spec_bytes()),
    ensures
        bytes@ == spec_decode_hex(hex.spec_bytes()),
{
    let filtered = strip_whitespace(hex.as_bytes());
    let ghost d = filtered@;
    let mut bytes: Vec<u8> = Vec::with_capacity(filtered.len() / 2);
    let mut i: usize = 0;
    while i < filtered.len() / 2
        invariant
            d == filtered@,
            d.len() % 2 == 0,
            forall|j: int| 0 <= j < d.len() ==> is_hex_digit(#[trigger] d[j]),
            i <= d.len() / 2,
            bytes@ == hex_pairs(d).subrange(0, i as int),
        decreases d.len() / 2 - i,
    {
        let hi = nibble(filtered[2 * i]);
        let lo = nibble(filtered[2 * i + 1]);
        assert((hi << 4u8) | lo == hi * 16 + lo) by (bit_vector)
            requires
                hi < 16,
                lo < 16,
        ;
        bytes.push((hi << 4u8) | lo);
        i = i + 1;
        assert(bytes@ =~= hex_pairs(d).subrange(0, i as int));
    }
    assert(hex_pairs(d).subrange(0, (d.len() / 2) as int) =~= hex_pairs(d));
    bytes
}

} // verus!
