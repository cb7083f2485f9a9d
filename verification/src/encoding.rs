use vstd::prelude::*;
use base64::engine::general_purpose;
use base64::{DecodeError, Engine};

use crate::error::HttpError;
use crate::text::{decimal, push_char, push_decimal_u64, push_str};

verus! {

// ---------------------------------------------------------------------
// Base64, with the standard alphabet and padding.

/// The base64 symbol of a 6-bit value.
pub open spec fn b64_char(v: int) -> char {
    if v < 26 {
        ((65 + v) as u8) as char
    } else if v < 52 {
        ((71 + v) as u8) as char
    } else if v < 62 {
        ((v - 4) as u8) as char
    } else if v == 62 {
        '+'
    } else {
        '/'
    }
}

/// The standard base64 encoding of `b`, with `=` padding: each group of three
/// bytes gives four symbols, and a last group of one or two bytes is padded.
pub open spec fn b64_encode(b: Seq<u8>) -> Seq<char>
    decreases b.len(),
{
    if b.len() == 0 {
        Seq::empty()
    } else {
        let x0 = b[0] as int;
        let x1 = if b.len() > 1 { b[1] as int } else { 0 };
        let x2 = if b.len() > 2 { b[2] as int } else { 0 };
        if b.len() == 1 {
            seq![b64_char(x0 / 4), b64_char((x0 % 4) * 16), '=', '=']
        } else if b.len() == 2 {
            seq![b64_char(x0 / 4), b64_char((x0 % 4) * 16 + x1 / 16), b64_char((x1 % 16) * 4), '=']
        } else {
            seq![
                b64_char(x0 / 4),
                b64_char((x0 % 4) * 16 + x1 / 16),
                b64_char((x1 % 16) * 4 + x2 / 64),
                b64_char(x2 % 64),
            ] + b64_encode(b.skip(3))
        }
    }
}


/// The code of the base64 symbol of a 6-bit value.
pub open spec fn b64_code(v: int) -> int {
    if v < 26 {
        65 + v
    } else if v < 52 {
        71 + v
    } else if v < 62 {
        v - 4
    } else if v == 62 {
        43
    } else {
        47
    }
}

proof fn lemma_b64_char(v: int)
    requires
        0 <= v < 64,
    ensures
        b64_char(v) as u32 == b64_code(v),
        b64_char(v) != '=',
{
    if v < 26 {
        let x = (65 + v) as u8;
        assert(x as char as u32 == x as u32);
    } else if v < 52 {
        let x = (71 + v) as u8;
        assert(x as char as u32 == x as u32);
    } else if v < 62 {
        let x = (v - 4) as u8;
        assert(x as char as u32 == x as u32);
    }
}

proof fn lemma_b64_char_injective(v: int, w: int)
    requires
        0 <= v < 64,
        0 <= w < 64,
        b64_char(v) == b64_char(w),
    ensures
        v == w,
{
    lemma_b64_char(v);
    lemma_b64_char(w);
}

/// The encoding is at least as long as the bytes.
pub proof fn lemma_b64_len(b: Seq<u8>)
    ensures
        b.len() <= b64_encode(b).len(),
        b.len() > 0 ==> b64_encode(b).len() >= 4,
    decreases b.len(),
{
    if b.len() >= 3 {
        lemma_b64_len(b.skip(3));
    }
}


proof fn lemma_byte_parts(x: int, y: int)
    requires
        0 <= x < 256,
        0 <= y < 256,
        x / 4 == y / 4,
        x % 4 == y % 4,
    ensures
        x == y,
{
}

/// Different bytes have different encodings.
pub proof fn lemma_b64_injective(a: Seq<u8>, b: Seq<u8>)
    requires
        b64_encode(a) == b64_encode(b),
    ensures
        a == b,
    decreases a.len(),
{
    let ea = b64_encode(a);
    lemma_b64_len(a);
    lemma_b64_len(b);
    if a.len() == 0 || b.len() == 0 {
        return;
    }
    let a0 = a[0] as int;
    let b0 = b[0] as int;
    let a1 = if a.len() > 1 { a[1] as int } else { 0 };
    let b1 = if b.len() > 1 { b[1] as int } else { 0 };
    let a2 = if a.len() > 2 { a[2] as int } else { 0 };
    let b2 = if b.len() > 2 { b[2] as int } else { 0 };
    assert(0 <= a0 / 4 < 64 && 0 <= b0 / 4 < 64);
    assert(0 <= (a0 % 4) * 16 + a1 / 16 < 64 && 0 <= (b0 % 4) * 16 + b1 / 16 < 64);
    assert(0 <= (a1 % 16) * 4 + a2 / 64 < 64 && 0 <= (b1 % 16) * 4 + b2 / 64 < 64);
    assert(0 <= a2 % 64 < 64 && 0 <= b2 % 64 < 64);
    lemma_b64_char((a0 % 4) * 16 + a1 / 16);
    lemma_b64_char((b0 % 4) * 16 + b1 / 16);
    lemma_b64_char((a1 % 16) * 4 + a2 / 64);
    lemma_b64_char((b1 % 16) * 4 + b2 / 64);
    lemma_b64_char((a0 % 4) * 16);
    lemma_b64_char((b0 % 4) * 16);
    lemma_b64_char((a1 % 16) * 4);
    lemma_b64_char((b1 % 16) * 4);
    lemma_b64_char(a2 % 64);
    lemma_b64_char(b2 % 64);
    let eb = b64_encode(b);
    assert(ea[0] == b64_char(a0 / 4) && ea[1] == b64_char((a0 % 4) * 16 + a1 / 16));
    assert(eb[0] == b64_char(b0 / 4) && eb[1] == b64_char((b0 % 4) * 16 + b1 / 16));
    assert(a.len() >= 2 ==> ea[2] == b64_char((a1 % 16) * 4 + a2 / 64));
    assert(b.len() >= 2 ==> eb[2] == b64_char((b1 % 16) * 4 + b2 / 64));
    assert(a.len() >= 3 ==> ea[3] == b64_char(a2 % 64));
    assert(b.len() >= 3 ==> eb[3] == b64_char(b2 % 64));
    // the padding tells the length of the last group
    assert(a.len() == 1 <==> b.len() == 1);
    assert(a.len() == 2 <==> b.len() == 2);
    lemma_b64_char_injective(a0 / 4, b0 / 4);
    if a.len() == 1 {
        lemma_b64_char_injective((a0 % 4) * 16, (b0 % 4) * 16);
        lemma_byte_parts(a0, b0);
        assert(a =~= b);
    } else if a.len() == 2 {
        lemma_b64_char_injective((a0 % 4) * 16 + a1 / 16, (b0 % 4) * 16 + b1 / 16);
        lemma_b64_char_injective((a1 % 16) * 4, (b1 % 16) * 4);
        lemma_byte_parts(a0, b0);
        assert(a1 / 16 == b1 / 16);
        assert(a1 % 16 == b1 % 16);
        assert(a1 == b1);
        assert(a =~= b);
    } else {
        lemma_b64_char_injective((a0 % 4) * 16 + a1 / 16, (b0 % 4) * 16 + b1 / 16);
        lemma_b64_char_injective((a1 % 16) * 4 + a2 / 64, (b1 % 16) * 4 + b2 / 64);
        lemma_b64_char_injective(a2 % 64, b2 % 64);
        lemma_byte_parts(a0, b0);
        assert(a1 / 16 == b1 / 16);
        assert(a1 % 16 == b1 % 16);
        assert(a1 == b1);
        assert(a2 / 64 == b2 / 64);
        assert(a2 == b2);
        assert(b64_encode(a.skip(3)) =~= ea.skip(4));
        assert(b64_encode(b.skip(3)) =~= ea.skip(4));
        lemma_b64_injective(a.skip(3), b.skip(3));
        assert(a =~= seq![a[0], a[1], a[2]] + a.skip(3));
        assert(b =~= seq![b[0], b[1], b[2]] + b.skip(3));
    }
}

/// The bytes that `text` encodes in base64, if it is an encoding.
pub open spec fn decoded(text: Seq<char>) -> Option<Seq<u8>> {
    if exists|b: Seq<u8>| #[trigger] b64_encode(b) == text {
        Some(choose|b: Seq<u8>| #[trigger] b64_encode(b) == text)
    } else {
        None
    }
}

/// The text that encodes `b` decodes to `b`.
pub proof fn lemma_decoded(b: Seq<u8>, text: Seq<char>)
    requires
        b64_encode(b) == text,
    ensures
        decoded(text) == Some(b),
{
    let c = choose|c: Seq<u8>| #[trigger] b64_encode(c) == text;
    lemma_b64_injective(c, b);
}

/// Calls `base64::Engine::encode` of the `STANDARD` engine, which encodes
/// with the standard alphabet and `=` padding.
#[verifier::external_body]
fn base64_encode(b: &[u8]) -> (r: String)
    ensures
        r@ == b64_encode(b@),
{
    general_purpose::STANDARD.encode(b)
}

/// Why a base64 decoding failed, as `base64::DecodeError` tells it.
#[derive(Debug)]
pub enum DecodeFailure {
    /// A symbol outside the alphabet: its offset and byte.
    InvalidByte(usize, u8),
    /// The text cannot have this length.
    InvalidLength,
    /// The last symbol has bits set that would be discarded: its offset and byte.
    InvalidLastSymbol(usize, u8),
    /// The padding is not canonical.
    InvalidPadding,
}

/// Calls `base64::Engine::decode` of the `STANDARD` engine, which requires
/// canonical padding and no discarded bits: it succeeds exactly on the
/// encodings of byte strings, and gives back the bytes encoded. Which error
/// comes on other texts is left open.
#[verifier::external_body]
fn base64_decode(s: &str) -> (r: Result<Vec<u8>, DecodeFailure>)
    ensures
        r matches Ok(b) ==> b64_encode(b@) == s@,
        r is Err ==> forall|b: Seq<u8>| #[trigger] b64_encode(b) != s@,
{
    match general_purpose::STANDARD.decode(s) {
        Ok(b) => Ok(b),
        Err(DecodeError::InvalidByte(i, b)) => Err(DecodeFailure::InvalidByte(i, b)),
        Err(DecodeError::InvalidLength) => Err(DecodeFailure::InvalidLength),
        Err(DecodeError::InvalidLastSymbol(i, b)) => Err(DecodeFailure::InvalidLastSymbol(i, b)),
        Err(DecodeError::InvalidPadding) => Err(DecodeFailure::InvalidPadding),
    }
}

/// The text of a decoding failure, as `base64::DecodeError` displays it.
pub open spec fn decode_failure_text(f: DecodeFailure) -> Seq<char> {
    match f {
        DecodeFailure::InvalidByte(i, b) => "Invalid byte "@ + decimal(b as nat) + ", offset "@ + decimal(i as nat)
            + "."@,
        DecodeFailure::InvalidLength => "Encoded text cannot have a 6-bit remainder."@,
        DecodeFailure::InvalidLastSymbol(i, b) => "Invalid last symbol "@ + decimal(b as nat) + ", offset "@
            + decimal(i as nat) + "."@,
        DecodeFailure::InvalidPadding => "Invalid padding"@,
    }
}

fn push_failure_text(s: &mut String, f: &DecodeFailure)
    ensures
        final(s)@ == old(s)@ + decode_failure_text(*f),
{
    match f {
        DecodeFailure::InvalidByte(i, b) => {
            push_str(s, "Invalid byte ");
            push_decimal_u64(s, *b as u64);
            push_str(s, ", offset ");
            push_decimal_u64(s, *i as u64);
            push_str(s, ".");
        },
        DecodeFailure::InvalidLength => {
            push_str(s, "Encoded text cannot have a 6-bit remainder.");
        },
        DecodeFailure::InvalidLastSymbol(i, b) => {
            push_str(s, "Invalid last symbol ");
            push_decimal_u64(s, *b as u64);
            push_str(s, ", offset ");
            push_decimal_u64(s, *i as u64);
            push_str(s, ".");
        },
        DecodeFailure::InvalidPadding => {
            push_str(s, "Invalid padding");
        },
    }
}

/// Encodes bytes in base64.
pub trait Base64Vec {
    fn to_base64(&self) -> String;
}

impl Base64Vec for [u8] {
    fn to_base64(&self) -> (r: String)
        ensures
            r@ == b64_encode(self@),
    {
        base64_encode(self)
    }
}

impl Base64Vec for Vec<u8> {
    fn to_base64(&self) -> (r: String)
        ensures
            r@ == b64_encode(self@),
    {
        base64_encode(self.as_slice())
    }
}

/// What decoding base64 text gives: the bytes it encodes, or a 500 error.
pub open spec fn from_base64_spec(s: Seq<char>, r: Result<Vec<u8>, HttpError>) -> bool {
    match r {
        Ok(b) => b64_encode(b@) == s,
        Err(e) => {
            &&& forall|b: Seq<u8>| #[trigger] b64_encode(b) != s
            &&& exists|f: DecodeFailure| e.is(500, "Error CLV27: "@ + #[trigger] decode_failure_text(f))
        },
    }
}

/// Decodes base64 text.
pub trait Base64String {
    fn from_base64(&self) -> Result<Vec<u8>, HttpError>;
}

fn decode_text(s: &str) -> (r: Result<Vec<u8>, HttpError>)
    ensures
        from_base64_spec(s@, r),
{
    match base64_decode(s) {
        Ok(b) => Ok(b),
        Err(f) => {
            let mut m = String::from_str("Error CLV27: ");
            push_failure_text(&mut m, &f);
            let e = HttpError::with_message(500, m);
            assert(e.is(500, "Error CLV27: "@ + decode_failure_text(f)));
            Err(e)
        },
    }
}

impl Base64String for String {
    fn from_base64(&self) -> (r: Result<Vec<u8>, HttpError>)
        ensures
            from_base64_spec(self@, r),
    {
        decode_text(self.as_str())
    }
}

impl<'a> Base64String for &'a str {
    fn from_base64(&self) -> (r: Result<Vec<u8>, HttpError>)
        ensures
            from_base64_spec(self@, r),
    {
        decode_text(*self)
    }
}

// ---------------------------------------------------------------------
// Hexadecimal

/// The lowercase hexadecimal digit of a value below 16.
pub open spec fn hex_digit(v: int) -> char {
    if v < 10 {
        ((48 + v) as u8) as char
    } else {
        ((87 + v) as u8) as char
    }
}

/// Each byte of `b` as two lowercase hexadecimal digits, as `{:x}` formats a
/// digest.
pub open spec fn lower_hex(b: Seq<u8>) -> Seq<char>
    decreases b.len(),
{
    if b.len() == 0 {
        Seq::empty()
    } else {
        lower_hex(b.drop_last()) + seq![hex_digit(b.last() as int / 16), hex_digit(b.last() as int % 16)]
    }
}

fn hex_char(v: u8) -> (c: char)
    requires
        v < 16,
    ensures
        c == hex_digit(v as int),
{
    if v < 10 {
        (v + 48) as char
    } else {
        (v + 87) as char
    }
}

/// The bytes of `b` in lowercase hexadecimal.
pub fn to_lower_hex(b: &[u8]) -> (r: String)
    ensures
        r@ == lower_hex(b@),
{
    let mut r = String::new();
    let mut i: usize = 0;
    while i < b.len()
        invariant
            i <= b@.len(),
            r@ == lower_hex(b@.take(i as int)),
        decreases b.len() - i,
    {
        let x = b[i];
        push_char(&mut r, hex_char(x / 16));
        push_char(&mut r, hex_char(x % 16));
        proof {
            assert(b@.take(i + 1).drop_last() =~= b@.take(i as int));
            assert(lower_hex(b@.take(i + 1)) =~= lower_hex(b@.take(i as int)) + seq![
                hex_digit(x as int / 16),
                hex_digit(x as int % 16),
            ]);
        }
        i = i + 1;
    }
    assert(b@.take(b@.len() as int) =~= b@);
    r
}

} // verus!
