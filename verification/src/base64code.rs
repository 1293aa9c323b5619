//! Standard base64 with padding, stated in full; the encoder itself is
//! `base64ct`'s.

use vstd::prelude::*;

verus! {

/// The standard base64 alphabet, by value (below 64).
pub open spec fn b64_char(n: u8) -> char {
    if n < 26 {
        ((n + 65) as u8) as char  // 'A'..='Z'
    } else if n < 52 {
        ((n + 71) as u8) as char  // 'a'..='z'
    } else if n < 62 {
        ((n - 4) as u8) as char  // '0'..='9'
    } else if n == 62 {
        '+'
    } else {
        '/'
    }
}

/// Standard padded base64 of a byte string: four characters for each
/// group of three bytes, `=`-padded at the tail.
pub open spec fn spec_base64(b: Seq<u8>) -> Seq<char>
    decreases b.len(),
{
    if b.len() == 0 {
        Seq::empty()
    } else if b.len() == 1 {
        seq![
            b64_char(b[0] / 4),
            b64_char(((b[0] % 4) * 16) as u8),
            '=',
            '=',
        ]
    } else if b.len() == 2 {
        seq![
            b64_char(b[0] / 4),
            b64_char(((b[0] % 4) * 16 + b[1] / 16) as u8),
            b64_char(((b[1] % 16) * 4) as u8),
            '=',
        ]
    } else {
        seq![
            b64_char(b[0] / 4),
            b64_char(((b[0] % 4) * 16 + b[1] / 16) as u8),
            b64_char(((b[1] % 16) * 4 + b[2] / 64) as u8),
            b64_char(b[2] % 64),
        ] + spec_base64(b.skip(3))
    }
}

/// Relies on `base64ct::Base64::encode_string`: standard base64 with
/// padding. The length bound keeps clear of the encoder's size limit.
#[verifier::external_body]
pub fn base64_encode(b: &Vec<u8>) -> (r: String)
    requires
        b@.len() <= usize::MAX as nat / 4,
    ensures
        r@ == spec_base64(b@),
{
    <base64ct::Base64 as base64ct::Encoding>::encode_string(b.as_slice())
}

/// A character of the base64 alphabet.
pub open spec fn is_b64_char(c: char) -> bool {
    (65 <= c as u32 && c as u32 <= 90) || (97 <= c as u32 && c as u32 <= 122) || (48 <= c as u32
        && c as u32 <= 57) || c == '+' || c == '/'
}

/// The value of one base64 character.
pub open spec fn b64_char_val(c: char) -> u8 {
    if 65 <= c as u32 && c as u32 <= 90 {
        (c as u32 - 65) as u8
    } else if 97 <= c as u32 && c as u32 <= 122 {
        (c as u32 - 71) as u8
    } else if 48 <= c as u32 && c as u32 <= 57 {
        (c as u32 + 4) as u8
    } else if c == '+' {
        62
    } else {
        63
    }
}

/// A base64 decoder at spec level, the inverse of `spec_base64`; leftover
/// bits in a padded tail are ignored.
pub open spec fn spec_b64_decode(s: Seq<char>) -> Option<Seq<u8>>
    decreases s.len(),
{
    if s.len() == 0 {
        Some(Seq::empty())
    } else if s.len() < 4 {
        None
    } else if !(is_b64_char(s[0]) && is_b64_char(s[1])) {
        None
    } else if s.len() == 4 && s[2] == '=' && s[3] == '=' {
        Some(seq![(b64_char_val(s[0]) * 4 + b64_char_val(s[1]) / 16) as u8])
    } else if s.len() == 4 && is_b64_char(s[2]) && s[3] == '=' {
        Some(
            seq![
                (b64_char_val(s[0]) * 4 + b64_char_val(s[1]) / 16) as u8,
                ((b64_char_val(s[1]) % 16) * 16 + b64_char_val(s[2]) / 4) as u8,
            ],
        )
    } else if !(is_b64_char(s[2]) && is_b64_char(s[3])) {
        None
    } else {
        match spec_b64_decode(s.skip(4)) {
            Some(rest) => Some(
                seq![
                    (b64_char_val(s[0]) * 4 + b64_char_val(s[1]) / 16) as u8,
                    ((b64_char_val(s[1]) % 16) * 16 + b64_char_val(s[2]) / 4) as u8,
                    ((b64_char_val(s[2]) % 4) * 64 + b64_char_val(s[3])) as u8,
                ] + rest,
            ),
            None => None,
        }
    }
}

/// Every alphabet character decodes back to its value.
proof fn lemma_b64_char_val(n: u8)
    requires
        n < 64,
    ensures
        is_b64_char(b64_char(n)),
        b64_char_val(b64_char(n)) == n,
        b64_char(n) != '=',
{
}

/// Base64 is invertible: decoding what `spec_base64` renders gives the
/// bytes back.
pub proof fn lemma_b64_round_trip(b: Seq<u8>)
    ensures
        spec_b64_decode(spec_base64(b)) == Some(b),
    decreases b.len(),
{
    if b.len() == 0 {
        assert(spec_base64(b) =~= Seq::<char>::empty());
        assert(spec_b64_decode(spec_base64(b)) matches Some(r) && r =~= b);
    } else if b.len() == 1 {
        let s = spec_base64(b);
        lemma_b64_char_val(b[0] / 4);
        lemma_b64_char_val(((b[0] % 4) * 16) as u8);
        assert(spec_b64_decode(s) matches Some(r) && r =~= b);
    } else if b.len() == 2 {
        let s = spec_base64(b);
        lemma_b64_char_val(b[0] / 4);
        lemma_b64_char_val(((b[0] % 4) * 16 + b[1] / 16) as u8);
        lemma_b64_char_val(((b[1] % 16) * 4) as u8);
        assert(spec_b64_decode(s) matches Some(r) && r =~= b);
    } else {
        let s = spec_base64(b);
        lemma_b64_char_val(b[0] / 4);
        lemma_b64_char_val(((b[0] % 4) * 16 + b[1] / 16) as u8);
        lemma_b64_char_val(((b[1] % 16) * 4 + b[2] / 64) as u8);
        lemma_b64_char_val(b[2] % 64);
        lemma_b64_round_trip(b.skip(3));
        assert(s.skip(4) =~= spec_base64(b.skip(3)));
        assert(s.len() >= 4);
        if s.len() == 4 {
            assert(b.len() == 3);
            assert(s[3] != '=');
        }
        assert(spec_b64_decode(s) matches Some(r) && r =~= b);
    }
}

} // verus!
