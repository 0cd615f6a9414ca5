//! Document identifiers and their canonical text.

use vstd::prelude::*;

verus! {

/// The identifier of a document: the 128-bit value of a UUID.
#[derive(Clone, Copy, Debug, PartialEq, Eq, Structural)]
pub struct DocumentId {
    pub value: u128,
}

/// The lowercase hexadecimal digit of `n`, for `0 <= n < 16`.
pub open spec fn hex_digit(n: int) -> char {
    if n < 10 {
        (48 + n) as char
    } else {
        (87 + n) as char
    }
}

/// The `k`-th of the 32 hexadecimal digits of `value`, most significant first.
pub open spec fn nibble(value: u128, k: int) -> int {
    ((value >> ((124 - 4 * k) as u128)) & 15u128) as int
}

/// A hexadecimal digit of a value is below 16.
pub proof fn lemma_nibble_bound(value: u128, k: int)
    ensures
        0 <= nibble(value, k) < 16,
{
    let s = (124 - 4 * k) as u128;
    assert((value >> s) & 15u128 < 16u128) by (bit_vector);
}

/// Whether position `p` of the hyphenated text holds a hyphen.
pub open spec fn is_hyphen_position(p: int) -> bool {
    p == 8 || p == 13 || p == 18 || p == 23
}

/// The digit that position `p` of the hyphenated text shows, skipping the hyphens before it.
pub open spec fn digit_index(p: int) -> int {
    if p < 8 {
        p
    } else if p < 13 {
        p - 1
    } else if p < 18 {
        p - 2
    } else if p < 23 {
        p - 3
    } else {
        p - 4
    }
}

/// The hyphenated text of a UUID: 32 lowercase hexadecimal digits, most significant first,
/// in groups of 8-4-4-4-12 joined by `-`, such as `67e55044-10b1-426f-9247-bb680e5fe0c8`.
pub open spec fn hyphenated_text(value: u128) -> Seq<char> {
    Seq::new(
        36,
        |p: int|
            if is_hyphen_position(p) {
                '-'
            } else {
                hex_digit(nibble(value, digit_index(p)))
            },
    )
}

/// No hexadecimal digit is a hyphen or a slash.
pub proof fn lemma_hex_digit_is_not_separator(n: int)
    requires
        0 <= n < 16,
    ensures
        hex_digit(n) != '-',
        hex_digit(n) != '/',
{
    assert((48 + n) as char != '-' && (48 + n) as char != '/') by {
        if n < 10 {
            assert((48 + n) as char as int == 48 + n);
        }
    }
    assert((87 + n) as char != '-' && (87 + n) as char != '/') by {
        if n >= 10 {
            assert((87 + n) as char as int == 87 + n);
        }
    }
}

/// The hyphenated text has 36 characters, hyphens exactly at positions 8, 13, 18 and 23,
/// and neither hyphen nor slash elsewhere.
pub proof fn lemma_hyphenated_text_shape(value: u128)
    ensures
        hyphenated_text(value).len() == 36,
        forall|p: int|
            0 <= p < 36 ==> (#[trigger] hyphenated_text(value)[p] == '-' <==> is_hyphen_position(p)),
        forall|p: int| 0 <= p < 36 ==> #[trigger] hyphenated_text(value)[p] != '/',
{
    assert forall|p: int| 0 <= p < 36 implies (#[trigger] hyphenated_text(value)[p] == '-'
        <==> is_hyphen_position(p)) && hyphenated_text(value)[p] != '/' by {
        if !is_hyphen_position(p) {
            lemma_nibble_bound(value, digit_index(p));
            lemma_hex_digit_is_not_separator(nibble(value, digit_index(p)));
        }
    }
}

/// A value is determined by its 32 hexadecimal digits.
pub proof fn lemma_nibbles_determine_value(a: u128, b: u128)
    requires
        forall|k: int| 0 <= k < 32 ==> #[trigger] nibble(a, k) == nibble(b, k),
    ensures
        a == b,
{
    assert(nibble(a, 0) == nibble(b, 0));
    assert(nibble(a, 1) == nibble(b, 1));
    assert(nibble(a, 2) == nibble(b, 2));
    assert(nibble(a, 3) == nibble(b, 3));
    assert(nibble(a, 4) == nibble(b, 4));
    assert(nibble(a, 5) == nibble(b, 5));
    assert(nibble(a, 6) == nibble(b, 6));
    assert(nibble(a, 7) == nibble(b, 7));
    assert(nibble(a, 8) == nibble(b, 8));
    assert(nibble(a, 9) == nibble(b, 9));
    assert(nibble(a, 10) == nibble(b, 10));
    assert(nibble(a, 11) == nibble(b, 11));
    assert(nibble(a, 12) == nibble(b, 12));
    assert(nibble(a, 13) == nibble(b, 13));
    assert(nibble(a, 14) == nibble(b, 14));
    assert(nibble(a, 15) == nibble(b, 15));
    assert(nibble(a, 16) == nibble(b, 16));
    assert(nibble(a, 17) == nibble(b, 17));
    assert(nibble(a, 18) == nibble(b, 18));
    assert(nibble(a, 19) == nibble(b, 19));
    assert(nibble(a, 20) == nibble(b, 20));
    assert(nibble(a, 21) == nibble(b, 21));
    assert(nibble(a, 22) == nibble(b, 22));
    assert(nibble(a, 23) == nibble(b, 23));
    assert(nibble(a, 24) == nibble(b, 24));
    assert(nibble(a, 25) == nibble(b, 25));
    assert(nibble(a, 26) == nibble(b, 26));
    assert(nibble(a, 27) == nibble(b, 27));
    assert(nibble(a, 28) == nibble(b, 28));
    assert(nibble(a, 29) == nibble(b, 29));
    assert(nibble(a, 30) == nibble(b, 30));
    assert(nibble(a, 31) == nibble(b, 31));
    assert(a == b) by (bit_vector)
        requires
            (a >> 124u128) & 15u128 == (b >> 124u128) & 15u128,
            (a >> 120u128) & 15u128 == (b >> 120u128) & 15u128,
            (a >> 116u128) & 15u128 == (b >> 116u128) & 15u128,
            (a >> 112u128) & 15u128 == (b >> 112u128) & 15u128,
            (a >> 108u128) & 15u128 == (b >> 108u128) & 15u128,
            (a >> 104u128) & 15u128 == (b >> 104u128) & 15u128,
            (a >> 100u128) & 15u128 == (b >> 100u128) & 15u128,
            (a >> 96u128) & 15u128 == (b >> 96u128) & 15u128,
            (a >> 92u128) & 15u128 == (b >> 92u128) & 15u128,
            (a >> 88u128) & 15u128 == (b >> 88u128) & 15u128,
            (a >> 84u128) & 15u128 == (b >> 84u128) & 15u128,
            (a >> 80u128) & 15u128 == (b >> 80u128) & 15u128,
            (a >> 76u128) & 15u128 == (b >> 76u128) & 15u128,
            (a >> 72u128) & 15u128 == (b >> 72u128) & 15u128,
            (a >> 68u128) & 15u128 == (b >> 68u128) & 15u128,
            (a >> 64u128) & 15u128 == (b >> 64u128) & 15u128,
            (a >> 60u128) & 15u128 == (b >> 60u128) & 15u128,
            (a >> 56u128) & 15u128 == (b >> 56u128) & 15u128,
            (a >> 52u128) & 15u128 == (b >> 52u128) & 15u128,
            (a >> 48u128) & 15u128 == (b >> 48u128) & 15u128,
            (a >> 44u128) & 15u128 == (b >> 44u128) & 15u128,
            (a >> 40u128) & 15u128 == (b >> 40u128) & 15u128,
            (a >> 36u128) & 15u128 == (b >> 36u128) & 15u128,
            (a >> 32u128) & 15u128 == (b >> 32u128) & 15u128,
            (a >> 28u128) & 15u128 == (b >> 28u128) & 15u128,
            (a >> 24u128) & 15u128 == (b >> 24u128) & 15u128,
            (a >> 20u128) & 15u128 == (b >> 20u128) & 15u128,
            (a >> 16u128) & 15u128 == (b >> 16u128) & 15u128,
            (a >> 12u128) & 15u128 == (b >> 12u128) & 15u128,
            (a >> 8u128) & 15u128 == (b >> 8u128) & 15u128,
            (a >> 4u128) & 15u128 == (b >> 4u128) & 15u128,
            (a >> 0u128) & 15u128 == (b >> 0u128) & 15u128,
    ;
}

/// Distinct digits below 16 have distinct hexadecimal characters.
pub proof fn lemma_hex_digit_injective(n: int, m: int)
    requires
        0 <= n < 16,
        0 <= m < 16,
        hex_digit(n) == hex_digit(m),
    ensures
        n == m,
{
    let cn = if n < 10 { 48 + n } else { 87 + n };
    let cm = if m < 10 { 48 + m } else { 87 + m };
    assert(hex_digit(n) as int == cn);
    assert(hex_digit(m) as int == cm);
}

/// Distinct values have distinct hyphenated texts.
pub proof fn lemma_hyphenated_text_injective(a: u128, b: u128)
    requires
        hyphenated_text(a) == hyphenated_text(b),
    ensures
        a == b,
{
    assert forall|k: int| 0 <= k < 32 implies #[trigger] nibble(a, k) == nibble(b, k) by {
        let p = if k < 8 {
            k
        } else if k < 12 {
            k + 1
        } else if k < 16 {
            k + 2
        } else if k < 20 {
            k + 3
        } else {
            k + 4
        };
        assert(!is_hyphen_position(p) && digit_index(p) == k);
        assert(hyphenated_text(a)[p] == hyphenated_text(b)[p]);
        assert(hyphenated_text(a)[p] == hex_digit(nibble(a, k)));
        assert(hyphenated_text(b)[p] == hex_digit(nibble(b, k)));
        lemma_nibble_bound(a, k);
        lemma_nibble_bound(b, k);
        lemma_hex_digit_injective(nibble(a, k), nibble(b, k));
    }
    lemma_nibbles_determine_value(a, b);
}

/// The hyphenated text of a UUID, from the `uuid` crate.
///
/// Calls `uuid::Uuid::from_u128` and its `Display` impl (`to_string`), which writes the
/// 16 big-endian bytes as lowercase hexadecimal digits with hyphens after the 4th, 6th,
/// 8th and 10th byte. The contract states exactly that text.
#[verifier::external_body]
pub(crate) fn hyphenated(id: DocumentId) -> (text: String)
    ensures
        text@ == hyphenated_text(id.value),
{
    uuid::Uuid::from_u128(id.value).to_string()
}

/// A fresh random version-4 identifier, from `uuid::Uuid::new_v4`.
///
/// The value is random; the contract states only what `new_v4` fixes of every outcome:
/// the version digit is 4 and the two top bits of the variant digit are `10`.
#[verifier::external_body]
pub(crate) fn new_document_id() -> (id: DocumentId)
    ensures
        is_random_version(id),
{
    DocumentId { value: uuid::Uuid::new_v4().as_u128() }
}

/// The version digit of `id` is 4 and the two top bits of its variant digit are `10`.
pub open spec fn is_random_version(id: DocumentId) -> bool {
    id.value & 0x0000_0000_0000_f000_c000_0000_0000_0000u128
            == 0x0000_0000_0000_4000_8000_0000_0000_0000u128
}

} // verus!
