//! Hexadecimal text as the control protocol writes it: upper-case on the
//! wire, either case accepted when read.
use vstd::prelude::*;

verus! {

pub open spec fn upper_digits() -> Seq<char> {
    seq!['0', '1', '2', '3', '4', '5', '6', '7', '8', '9', 'A', 'B', 'C', 'D', 'E', 'F']
}

/// Upper-case hex text of `b`: two digits per byte, high nibble first.
pub open spec fn upper_hex(b: Seq<u8>) -> Seq<char> {
    Seq::new(
        2 * b.len(),
        |i: int|
            if i % 2 == 0 {
                upper_digits()[(b[i / 2] / 16) as int]
            } else {
                upper_digits()[(b[i / 2] % 16) as int]
            },
    )
}

pub open spec fn is_hex_char(c: char) -> bool {
    ('0' <= c && c <= '9') || ('a' <= c && c <= 'f') || ('A' <= c && c <= 'F')
}

/// The value of a hex digit of either case.
pub open spec fn hex_value(c: char) -> int {
    if '0' <= c && c <= '9' {
        c as int - '0' as int
    } else if 'a' <= c && c <= 'f' {
        c as int - 'a' as int + 10
    } else {
        c as int - 'A' as int + 10
    }
}

/// Text that decodes: an even number of hex digits.
pub open spec fn is_hex_text(s: Seq<char>) -> bool {
    s.len() % 2 == 0 && forall|i: int| 0 <= i < s.len() ==> is_hex_char(#[trigger] s[i])
}

/// The bytes that hex text `s` stands for, two digits per byte.
pub open spec fn hex_bytes(s: Seq<char>) -> Seq<u8> {
    Seq::new(s.len() / 2, |i: int| (hex_value(s[2 * i]) * 16 + hex_value(s[2 * i + 1])) as u8)
}

/// Relies on hex::encode_upper: two upper-case digits per byte, high nibble first.
#[verifier::external_body]
fn encode_upper(b: &[u8]) -> (r: String)
    ensures
        r@ == upper_hex(b@),
{
    hex::encode_upper(b)
}

/// Relies on hex::decode: it fails on an odd length or a byte that is no hex
/// digit of either case, and otherwise reads two digits per byte.
#[verifier::external_body]
fn decode(s: &str) -> (r: Option<Vec<u8>>)
    ensures
        r is Some <==> is_hex_text(s@),
        r matches Some(v) ==> v@ == hex_bytes(s@),
{
    hex::decode(s).ok()
}

/// Upper-case hex text of `b`.
pub fn to_hex_upper(b: &[u8]) -> (r: String)
    ensures
        r@ == upper_hex(b@),
{
    encode_upper(b)
}

/// The bytes that `s` stands for, or `None` where `s` is no hex text.
pub fn from_hex(s: &str) -> (r: Option<Vec<u8>>)
    ensures
        r is Some <==> is_hex_text(s@),
        r matches Some(v) ==> v@ == hex_bytes(s@),
{
    decode(s)
}

proof fn lemma_digit_round_trip(d: int)
    requires
        0 <= d < 16,
    ensures
        is_hex_char(upper_digits()[d]),
        hex_value(upper_digits()[d]) == d,
{
    assert(upper_digits()[0] == '0');
    assert(upper_digits()[1] == '1');
    assert(upper_digits()[2] == '2');
    assert(upper_digits()[3] == '3');
    assert(upper_digits()[4] == '4');
    assert(upper_digits()[5] == '5');
    assert(upper_digits()[6] == '6');
    assert(upper_digits()[7] == '7');
    assert(upper_digits()[8] == '8');
    assert(upper_digits()[9] == '9');
    assert(upper_digits()[10] == 'A');
    assert(upper_digits()[11] == 'B');
    assert(upper_digits()[12] == 'C');
    assert(upper_digits()[13] == 'D');
    assert(upper_digits()[14] == 'E');
    assert(upper_digits()[15] == 'F');
}

/// Encoding bytes as upper-case hex and decoding the text gives the bytes back.
pub proof fn lemma_hex_round_trip(b: Seq<u8>)
    ensures
        is_hex_text(upper_hex(b)),
        hex_bytes(upper_hex(b)) == b,
{
    let h = upper_hex(b);
    assert forall|i: int| 0 <= i < h.len() implies is_hex_char(#[trigger] h[i]) by {
        let x = b[i / 2];
        lemma_digit_round_trip((x / 16) as int);
        lemma_digit_round_trip((x % 16) as int);
    }
    assert(h.len() % 2 == 0);
    assert(h.len() / 2 == b.len());
    assert forall|i: int| 0 <= i < b.len() implies #[trigger] hex_bytes(h)[i] == b[i] by {
        assert((2 * i) / 2 == i && (2 * i) % 2 == 0);
        assert((2 * i + 1) / 2 == i && (2 * i + 1) % 2 == 1);
        let x = b[i];
        lemma_digit_round_trip((x / 16) as int);
        lemma_digit_round_trip((x % 16) as int);
        assert((x / 16) * 16 + x % 16 == x);
    }
    assert(hex_bytes(h) =~= b);
}

/// `a` and `b` are the same character, or the same hex letter in its two cases.
pub open spec fn same_ignoring_case(a: char, b: char) -> bool {
    ||| a == b
    ||| ('a' <= a && a <= 'f' && b as int == a as int - 32)
    ||| ('a' <= b && b <= 'f' && a as int == b as int - 32)
}

/// Decoding does not depend on the case of the hex letters: texts that differ
/// only in it are both hex or both not, and stand for the same bytes.
pub proof fn lemma_hex_case_blind(s1: Seq<char>, s2: Seq<char>)
    requires
        s1.len() == s2.len(),
        forall|i: int| 0 <= i < s1.len() ==> same_ignoring_case(#[trigger] s1[i], s2[i]),
    ensures
        is_hex_text(s1) == is_hex_text(s2),
        is_hex_text(s1) ==> hex_bytes(s1) == hex_bytes(s2),
{
    assert forall|i: int| 0 <= i < s1.len() implies (is_hex_char(#[trigger] s1[i]) == is_hex_char(s2[i])
        && (is_hex_char(s1[i]) ==> hex_value(s1[i]) == hex_value(s2[i]))) by {
        assert(same_ignoring_case(s1[i], s2[i]));
    }
    if is_hex_text(s1) {
        assert forall|i: int| 0 <= i < s2.len() implies is_hex_char(#[trigger] s2[i]) by {
            assert(is_hex_char(s1[i]));
        }
        assert forall|i: int| 0 <= i < s1.len() / 2 implies #[trigger] hex_bytes(s1)[i] == hex_bytes(s2)[i] by {
            assert(is_hex_char(s1[2 * i]) && is_hex_char(s1[2 * i + 1]));
        }
        assert(hex_bytes(s1) =~= hex_bytes(s2));
    } else {
        if is_hex_text(s2) {
            assert forall|i: int| 0 <= i < s1.len() implies is_hex_char(#[trigger] s1[i]) by {
                assert(is_hex_char(s2[i]));
            }
        }
    }
}

} // verus!
