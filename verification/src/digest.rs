//! MD5 checksums of downloaded files, written as lowercase hex.

use vstd::prelude::*;
use vstd::string::*;
use crate::text::str_equal;

verus! {

/// The MD5 digest (16 bytes) of `data`, as `md5::compute` returns it.
pub uninterp spec fn md5_digest(data: Seq<u8>) -> Seq<u8>;

/// Calls `md5::compute`: the contract claims that the 16 bytes it returns
/// are the digest named `md5_digest` of exactly the bytes handed in.
#[verifier::external_body]
fn md5_compute(data: &[u8]) -> (d: [u8; 16])
    ensures
        d@ == md5_digest(data@),
{
    md5::compute(data).0
}

/// The lowercase hex digit for `n` (below 16).
pub open spec fn hex_digit(n: int) -> char {
    seq!['0', '1', '2', '3', '4', '5', '6', '7', '8', '9', 'a', 'b', 'c', 'd', 'e', 'f'][n]
}

/// Two lowercase hex digits per byte, high half first, as `{:02x}` writes
/// each byte.
pub open spec fn lower_hex(bytes: Seq<u8>) -> Seq<char>
    decreases bytes.len(),
{
    if bytes.len() == 0 {
        seq![]
    } else {
        lower_hex(bytes.drop_last()) + seq![
            hex_digit(bytes.last() as int / 16),
            hex_digit(bytes.last() as int % 16),
        ]
    }
}

pub proof fn lemma_lower_hex_len(bytes: Seq<u8>)
    ensures
        lower_hex(bytes).len() == 2 * bytes.len(),
    decreases bytes.len(),
{
    if bytes.len() > 0 {
        lemma_lower_hex_len(bytes.drop_last());
    }
}

/// `bytes` written as lowercase hex, two digits per byte.
pub fn to_lower_hex(bytes: &[u8]) -> (r: String)
    ensures
        r@ == lower_hex(bytes@),
{
    let digits = "0123456789abcdef";
    proof {
        reveal_strlit("0123456789abcdef");
    }
    assert(digits@ =~= seq![
        '0', '1', '2', '3', '4', '5', '6', '7', '8', '9', 'a', 'b', 'c', 'd', 'e', 'f',
    ]);
    let mut out = String::new();
    let mut i: usize = 0;
    assert(bytes@.subrange(0, 0) =~= Seq::<u8>::empty());
    while i < bytes.len()
        invariant
            digits@.len() == 16,
            forall|k: int| 0 <= k < 16 ==> digits@[k] == hex_digit(k),
            i <= bytes.len(),
            out@ == lower_hex(bytes@.subrange(0, i as int)),
        decreases bytes.len() - i,
    {
        let b = bytes[i];
        let high = (b / 16) as usize;
        let low = (b % 16) as usize;
        let ghost prev = out@;
        out.append(digits.substring_char(high, high + 1));
        out.append(digits.substring_char(low, low + 1));
        assert(bytes@.subrange(0, i + 1).drop_last() =~= bytes@.subrange(0, i as int));
        assert(bytes@.subrange(0, i + 1).last() == b);
        assert(out@ =~= prev + seq![hex_digit(b as int / 16), hex_digit(b as int % 16)]);
        i = i + 1;
    }
    assert(bytes@.subrange(0, bytes.len() as int) =~= bytes@);
    out
}

/// The MD5 digest of `data` as 32 lowercase hex digits, as `{:x}` writes an
/// `md5::Digest`.
pub fn md5_hex(data: &[u8]) -> (r: String)
    ensures
        r@ == lower_hex(md5_digest(data@)),
        r@.len() == 32,
{
    let d = md5_compute(data);
    proof {
        lemma_lower_hex_len(d@);
    }
    to_lower_hex(&d)
}

/// Whether the MD5 digest of `data`, in lowercase hex, is `expected`; only a
/// 32-digit lowercase hex text can match.
pub fn digest_matches(expected: &str, data: &[u8]) -> (b: bool)
    ensures
        b == (lower_hex(md5_digest(data@)) == expected@),
        b ==> expected@.len() == 32,
{
    let h = md5_hex(data);
    str_equal(h.as_str(), expected)
}

/// Whether `c` is a lowercase hex digit: `0`-`9` or `a`-`f`.
pub open spec fn is_lower_hex_digit(c: char) -> bool {
    (48 <= c as int <= 57) || (97 <= c as int <= 102)
}

/// The number a lowercase hex digit stands for.
pub open spec fn hex_digit_value(c: char) -> int {
    if c as int <= 57 {
        c as int - 48
    } else {
        c as int - 87
    }
}

proof fn lemma_hex_digit_code(n: int)
    requires
        0 <= n < 16,
    ensures
        hex_digit(n) as int == if n < 10 {
            48 + n
        } else {
            87 + n
        },
{
    assert(hex_digit(0) as int == 48);
    assert(hex_digit(1) as int == 49);
    assert(hex_digit(2) as int == 50);
    assert(hex_digit(3) as int == 51);
    assert(hex_digit(4) as int == 52);
    assert(hex_digit(5) as int == 53);
    assert(hex_digit(6) as int == 54);
    assert(hex_digit(7) as int == 55);
    assert(hex_digit(8) as int == 56);
    assert(hex_digit(9) as int == 57);
    assert(hex_digit(10) as int == 97);
    assert(hex_digit(11) as int == 98);
    assert(hex_digit(12) as int == 99);
    assert(hex_digit(13) as int == 100);
    assert(hex_digit(14) as int == 101);
    assert(hex_digit(15) as int == 102);
}

/// Lowercase hex writes each byte as two lowercase hex digits, high half
/// first: the digits at `2 i` and `2 i + 1` spell byte `i` and nothing else.
pub proof fn law_lower_hex_spells_each_byte(bytes: Seq<u8>)
    ensures
        lower_hex(bytes).len() == 2 * bytes.len(),
        forall|k: int| 0 <= k < lower_hex(bytes).len() ==> is_lower_hex_digit(#[trigger] lower_hex(bytes)[k]),
        forall|i: int|
            0 <= i < bytes.len() ==> hex_digit_value(lower_hex(bytes)[2 * i]) * 16 + hex_digit_value(
                lower_hex(bytes)[2 * i + 1],
            ) == #[trigger] bytes[i],
    decreases bytes.len(),
{
    lemma_lower_hex_len(bytes);
    if bytes.len() > 0 {
        let prev = bytes.drop_last();
        law_lower_hex_spells_each_byte(prev);
        let h = lower_hex(bytes);
        let hp = lower_hex(prev);
        let b = bytes.last();
        lemma_hex_digit_code(b as int / 16);
        lemma_hex_digit_code(b as int % 16);
        let n = bytes.len() - 1;
        assert(h[2 * n] == hex_digit(b as int / 16));
        assert(h[2 * n + 1] == hex_digit(b as int % 16));
        assert forall|k: int| 0 <= k < h.len() implies is_lower_hex_digit(#[trigger] h[k]) by {
            if k < hp.len() {
                assert(h[k] == hp[k]);
            }
        }
        assert forall|i: int| 0 <= i < bytes.len() implies hex_digit_value(h[2 * i]) * 16
            + hex_digit_value(h[2 * i + 1]) == #[trigger] bytes[i] by {
            if i < n {
                assert(h[2 * i] == hp[2 * i]);
                assert(h[2 * i + 1] == hp[2 * i + 1]);
                assert(bytes[i] == prev[i]);
            }
        }
    }
}

} // verus!
