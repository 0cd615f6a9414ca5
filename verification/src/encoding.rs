//! Base64 text of document contents kept in the database.

use base64::Engine;
use vstd::prelude::*;

use crate::error::DocumentError;

verus! {

/// The character of the standard Base64 alphabet at index `n`, for `0 <= n < 64`.
pub open spec fn base64_char(n: int) -> char {
    if n < 26 {
        (65 + n) as char
    } else if n < 52 {
        (71 + n) as char
    } else if n < 62 {
        (n - 4) as char
    } else if n == 62 {
        '+'
    } else {
        '/'
    }
}

/// Standard Base64 (RFC 4648, alphabet `A-Z a-z 0-9 + /`) with `=` padding: each group of
/// three bytes becomes four characters, and a final group of one or two bytes is padded.
pub open spec fn base64_encode(b: Seq<u8>) -> Seq<char>
    decreases b.len(),
{
    let b0 = if b.len() > 0 { b[0] as int } else { 0 };
    let b1 = if b.len() > 1 { b[1] as int } else { 0 };
    let b2 = if b.len() > 2 { b[2] as int } else { 0 };
    if b.len() == 0 {
        seq![]
    } else if b.len() == 1 {
        seq![base64_char(b0 / 4), base64_char((b0 % 4) * 16), '=', '=']
    } else if b.len() == 2 {
        seq![
            base64_char(b0 / 4),
            base64_char((b0 % 4) * 16 + b1 / 16),
            base64_char((b1 % 16) * 4),
            '=',
        ]
    } else {
        seq![
            base64_char(b0 / 4),
            base64_char((b0 % 4) * 16 + b1 / 16),
            base64_char((b1 % 16) * 4 + b2 / 64),
            base64_char(b2 % 64),
        ] + base64_encode(b.subrange(3, b.len() as int))
    }
}

/// The length of the padded Base64 text of `n` bytes.
pub open spec fn base64_len(n: nat) -> nat {
    4 * ((n + 2) / 3)
}

/// Padded Base64 text of `n` bytes has four characters for every started group of three.
pub proof fn lemma_base64_len(b: Seq<u8>)
    ensures
        base64_encode(b).len() == base64_len(b.len()),
    decreases b.len(),
{
    if b.len() > 2 {
        lemma_base64_len(b.subrange(3, b.len() as int));
    }
}

/// The alphabet character of an index below 64 is never the padding `=`, and distinct
/// indices give distinct characters.
proof fn lemma_base64_char(n: int, m: int)
    requires
        0 <= n < 64,
        0 <= m < 64,
    ensures
        base64_char(n) != '=',
        base64_char(n) == base64_char(m) ==> n == m,
{
    let cn = if n < 26 {
        65 + n
    } else if n < 52 {
        71 + n
    } else if n < 62 {
        n - 4
    } else if n == 62 {
        43
    } else {
        47
    };
    let cm = if m < 26 {
        65 + m
    } else if m < 52 {
        71 + m
    } else if m < 62 {
        m - 4
    } else if m == 62 {
        43
    } else {
        47
    };
    assert(base64_char(n) as int == cn);
    assert(base64_char(m) as int == cm);
}

/// Distinct byte sequences have distinct Base64 texts: the text determines the bytes.
pub proof fn lemma_base64_injective(a: Seq<u8>, b: Seq<u8>)
    requires
        base64_encode(a) == base64_encode(b),
    ensures
        a == b,
    decreases a.len(),
{
    lemma_base64_len(a);
    lemma_base64_len(b);
    if a.len() == 0 || b.len() == 0 {
        assert(a.len() == 0 && b.len() == 0);
        assert(a =~= b);
    } else {
        let ea = base64_encode(a);
        let a0 = a[0] as int;
        let b0 = b[0] as int;
        let a1 = if a.len() > 1 { a[1] as int } else { 0 };
        let b1 = if b.len() > 1 { b[1] as int } else { 0 };
        let a2 = if a.len() > 2 { a[2] as int } else { 0 };
        let b2 = if b.len() > 2 { b[2] as int } else { 0 };
        lemma_base64_char(a0 / 4, b0 / 4);
        lemma_base64_char((a0 % 4) * 16 + a1 / 16, (b0 % 4) * 16 + b1 / 16);
        lemma_base64_char((a1 % 16) * 4 + a2 / 64, (b1 % 16) * 4 + b2 / 64);
        lemma_base64_char(a2 % 64, b2 % 64);
        lemma_base64_char((a0 % 4) * 16, (b0 % 4) * 16);
        lemma_base64_char((a1 % 16) * 4, (b1 % 16) * 4);
        lemma_base64_char((a0 % 4) * 16, (b0 % 4) * 16 + b1 / 16);
        lemma_base64_char((a0 % 4) * 16 + a1 / 16, (b0 % 4) * 16);
        lemma_base64_char((a1 % 16) * 4, (b1 % 16) * 4 + b2 / 64);
        lemma_base64_char((a1 % 16) * 4 + a2 / 64, (b1 % 16) * 4);
        // The padding tells the length class of the first group apart.
        assert((a.len() == 1) == (b.len() == 1)) by {
            assert(ea[2] == base64_encode(b)[2]);
        }
        assert((a.len() <= 2) == (b.len() <= 2)) by {
            assert(ea[3] == base64_encode(b)[3]);
        }
        if a.len() == 1 {
            assert(ea[0] == base64_encode(b)[0] && ea[1] == base64_encode(b)[1]);
            assert(a0 == b0);
            assert(a =~= b);
        } else if a.len() == 2 {
            assert(ea[0] == base64_encode(b)[0] && ea[1] == base64_encode(b)[1]);
            assert(ea[2] == base64_encode(b)[2]);
            assert(a0 == b0 && a1 == b1);
            assert(a =~= b);
        } else {
            assert(ea[0] == base64_encode(b)[0] && ea[1] == base64_encode(b)[1]);
            assert(ea[2] == base64_encode(b)[2] && ea[3] == base64_encode(b)[3]);
            assert(a0 == b0 && a1 == b1 && a2 == b2);
            let ra = a.subrange(3, a.len() as int);
            let rb = b.subrange(3, b.len() as int);
            assert(base64_encode(ra) =~= ea.subrange(4, ea.len() as int));
            assert(base64_encode(rb) =~= base64_encode(b).subrange(4, ea.len() as int));
            lemma_base64_injective(ra, rb);
            assert(a =~= b) by {
                assert forall|i: int| 0 <= i < a.len() implies a[i] == b[i] by {
                    if i >= 3 {
                        assert(a[i] == ra[i - 3] && b[i] == rb[i - 3]);
                    }
                }
            }
        }
    }
}

/// Whether `c` is a character of the standard Base64 alphabet `A-Z a-z 0-9 + /`.
pub open spec fn is_base64_char(c: char) -> bool {
    let x = c as int;
    (65 <= x <= 90) || (97 <= x <= 122) || (48 <= x <= 57) || x == 43 || x == 47
}

/// The index of a character of the standard Base64 alphabet.
pub open spec fn base64_index(c: char) -> int {
    let x = c as int;
    if 65 <= x <= 90 {
        x - 65
    } else if 97 <= x <= 122 {
        x - 71
    } else if 48 <= x <= 57 {
        x + 4
    } else if x == 43 {
        62
    } else {
        63
    }
}

/// Standard Base64 decoding of padded text: each group of four characters gives three bytes,
/// or one byte when it ends with `==`, or two when it ends with `=`.
pub open spec fn base64_decode(t: Seq<char>) -> Seq<u8>
    decreases t.len(),
{
    if t.len() < 4 {
        seq![]
    } else {
        let i0 = base64_index(t[0]);
        let i1 = base64_index(t[1]);
        let i2 = base64_index(t[2]);
        let i3 = base64_index(t[3]);
        let b0 = (i0 * 4 + i1 / 16) as u8;
        let b1 = ((i1 % 16) * 16 + i2 / 4) as u8;
        let b2 = ((i2 % 4) * 64 + i3) as u8;
        if t[2] == '=' {
            seq![b0]
        } else if t[3] == '=' {
            seq![b0, b1]
        } else {
            seq![b0, b1, b2] + base64_decode(t.subrange(4, t.len() as int))
        }
    }
}

/// An alphabet character below 64 is in the alphabet and its index gives `n` back.
proof fn lemma_base64_char_index(n: int)
    requires
        0 <= n < 64,
    ensures
        is_base64_char(base64_char(n)),
        base64_index(base64_char(n)) == n,
{
    let c = if n < 26 {
        65 + n
    } else if n < 52 {
        71 + n
    } else if n < 62 {
        n - 4
    } else if n == 62 {
        43
    } else {
        47
    };
    assert(base64_char(n) as int == c);
}

/// Padded Base64 text is made of alphabet characters, with `=` only among its last two, and
/// decoding it gives the bytes back.
pub proof fn lemma_base64_round_trip(b: Seq<u8>)
    ensures
        base64_decode(base64_encode(b)) == b,
        forall|i: int|
            0 <= i < base64_encode(b).len() ==> is_base64_char(#[trigger] base64_encode(b)[i]) || (
            base64_encode(b)[i] == '=' && i >= base64_encode(b).len() - 2),
    decreases b.len(),
{
    lemma_base64_len(b);
    if b.len() > 0 {
        let e = base64_encode(b);
        let b0 = b[0] as int;
        let b1 = if b.len() > 1 { b[1] as int } else { 0 };
        let b2 = if b.len() > 2 { b[2] as int } else { 0 };
        let n0 = b0 / 4;
        let n1 = (b0 % 4) * 16 + b1 / 16;
        let n2 = (b1 % 16) * 4 + b2 / 64;
        let n3 = b2 % 64;
        lemma_base64_char_index(n0);
        lemma_base64_char_index(n1);
        lemma_base64_char_index(n2);
        lemma_base64_char_index(n3);
        lemma_base64_char_index((b0 % 4) * 16);
        lemma_base64_char_index((b1 % 16) * 4);
        lemma_base64_char((b1 % 16) * 4, 0);
        lemma_base64_char(n2, 0);
        lemma_base64_char(n3, 0);
        assert(n0 * 4 + n1 / 16 == b0);
        assert((n1 % 16) * 16 + n2 / 4 == b1);
        assert((n2 % 4) * 64 + n3 == b2);
        if b.len() == 1 {
            assert(base64_decode(e) =~= b);
        } else if b.len() == 2 {
            assert(base64_index(e[2]) == (b1 % 16) * 4);
            assert(base64_decode(e) =~= b);
        } else {
            let rest = b.subrange(3, b.len() as int);
            lemma_base64_round_trip(rest);
            assert(e.subrange(4, e.len() as int) =~= base64_encode(rest));
            assert(base64_decode(e) == seq![b[0], b[1], b[2]] + base64_decode(base64_encode(rest)));
            assert(base64_decode(e) =~= b);
            lemma_base64_len(rest);
            assert forall|i: int| 0 <= i < e.len() implies is_base64_char(#[trigger] e[i]) || (e[i]
                == '=' && i >= e.len() - 2) by {
                if i >= 4 {
                    assert(e[i] == base64_encode(rest)[i - 4]);
                }
            }
        }
    }
}

/// Base64 encoding with the standard alphabet and padding, from the `base64` crate.
///
/// Calls `GeneralPurpose::new(&alphabet::STANDARD, GeneralPurposeConfig::default()).encode`.
/// The default configuration pads; the contract states the encoded text exactly. `encode`
/// panics when the encoded length overflows `usize`, which `requires` rules out.
#[verifier::external_body]
fn standard_base64(b: &[u8]) -> (text: String)
    requires
        base64_len(b@.len()) <= usize::MAX,
    ensures
        text@ == base64_encode(b@),
{
    let engine = base64::engine::GeneralPurpose::new(
        &base64::alphabet::STANDARD,
        base64::engine::GeneralPurposeConfig::default(),
    );
    engine.encode(b)
}

/// The Base64 text under which the bytes of a private document are stored.
pub fn read_content_bytes_to_base64(b: &[u8]) -> (r: Result<String, DocumentError>)
    requires
        base64_len(b@.len()) <= usize::MAX,
    ensures
        r is Ok,
        r.unwrap()@ == base64_encode(b@),
{
    Ok(standard_base64(b))
}

} // verus!
