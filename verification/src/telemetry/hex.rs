//! Opaque byte properties as text: two lowercase hexadecimal digits per byte,
//! most significant first, read back in either case.

use vstd::prelude::*;

use crate::text::{append, append_char};

verus! {

/// The ASCII code of the lowercase hexadecimal digit for `d`, below sixteen.
pub open spec fn digit_code(d: u8) -> u8 {
    if d < 10 {
        (d + 48) as u8
    } else {
        (d + 87) as u8
    }
}

/// The ASCII codes of `bytes` in hexadecimal, two digits per byte.
pub open spec fn hex_codes(bytes: Seq<u8>) -> Seq<u8> {
    Seq::new(
        2 * bytes.len(),
        |i: int|
            if i % 2 == 0 {
                digit_code(bytes[i / 2] / 16)
            } else {
                digit_code(bytes[i / 2] % 16)
            },
    )
}

/// The value of the hexadecimal digit with ASCII code `code`, in either case.
pub open spec fn digit_value(code: u8) -> Option<u8> {
    if 48 <= code <= 57 {
        Some((code - 48) as u8)
    } else if 97 <= code <= 102 {
        Some((code - 87) as u8)
    } else if 65 <= code <= 70 {
        Some((code - 55) as u8)
    } else {
        None
    }
}

/// Why text is not hexadecimal bytes.
#[derive(Clone, Copy, Debug, PartialEq, Eq, Structural)]
pub enum HexError {
    /// An odd number of digits cannot pair into bytes.
    OddLength,
    /// A code that is no hexadecimal digit, the first in the text.
    InvalidDigit(u8),
}

/// What reading `codes` as hexadecimal gives: the bytes, or why there are
/// none.
pub open spec fn hex_decoded(codes: Seq<u8>) -> Result<Seq<u8>, HexError> {
    if codes.len() % 2 != 0 {
        Err(HexError::OddLength)
    } else if exists|j: int| 0 <= j < codes.len() && digit_value(#[trigger] codes[j]) is None {
        let j = choose|j: int|
            0 <= j < codes.len() && digit_value(#[trigger] codes[j]) is None && forall|i: int|
                0 <= i < j ==> digit_value(#[trigger] codes[i]) is Some;
        Err(HexError::InvalidDigit(codes[j]))
    } else {
        Ok(
            Seq::new(
                codes.len() / 2,
                |k: int| (digit_value(codes[2 * k])->0 * 16 + digit_value(codes[2 * k + 1])->0) as u8,
            ),
        )
    }
}

/// What a refused hexadecimal text says of itself.
pub open spec fn hex_error_text(error: HexError) -> Seq<char> {
    match error {
        HexError::OddLength => "hex encoded bytes must have an even length"@,
        HexError::InvalidDigit(code) => "invalid hex digit '"@ + seq![code as char] + "'"@,
    }
}

impl HexError {
    /// The human-readable description of the refusal.
    pub fn message(&self) -> (text: String)
        ensures
            text@ == hex_error_text(*self),
    {
        let mut text = String::new();
        match self {
            HexError::OddLength => append(&mut text, "hex encoded bytes must have an even length"),
            HexError::InvalidDigit(code) => {
                append(&mut text, "invalid hex digit '");
                append_char(&mut text, *code as char);
                append(&mut text, "'");
            },
        }
        proof {
            assert(text@ =~= hex_error_text(*self));
        }
        text
    }
}

fn digit_char(d: u8) -> (ch: char)
    requires
        d < 16,
    ensures
        ch == (digit_code(d) as char),
{
    if d < 10 {
        (d + 48) as char
    } else {
        (d + 87) as char
    }
}

/// `bytes` as lowercase hexadecimal text, two digits per byte.
pub fn hex_encode(bytes: &[u8]) -> (text: String)
    ensures
        text@ == hex_codes(bytes@).map_values(|code: u8| code as char),
{
    let mut text = String::new();
    let mut k: usize = 0;
    while k < bytes.len()
        invariant
            0 <= k <= bytes@.len(),
            text@ == hex_codes(bytes@.take(k as int)).map_values(|code: u8| code as char),
        decreases bytes@.len() - k,
    {
        let byte = bytes[k];
        let ghost before = text@;
        append_char(&mut text, digit_char(byte / 16));
        append_char(&mut text, digit_char(byte % 16));
        proof {
            let next = bytes@.take(k as int + 1);
            assert(bytes@.take(k as int) =~= next.take(k as int));
            assert(next[k as int] == byte);
            assert(hex_codes(next).map_values(|code: u8| code as char) =~= before.push(digit_code(byte / 16) as char).push(
                digit_code(byte % 16) as char,
            ));
        }
        k = k + 1;
    }
    proof {
        assert(bytes@.take(bytes@.len() as int) =~= bytes@);
    }
    text
}

fn digit_of(code: u8) -> (value: Option<u8>)
    ensures
        value == digit_value(code),
{
    if 48 <= code && code <= 57 {
        Some(code - 48)
    } else if 97 <= code && code <= 102 {
        Some(code - 87)
    } else if 65 <= code && code <= 70 {
        Some(code - 55)
    } else {
        None
    }
}

/// Reads hexadecimal text, given by its ASCII codes, back into bytes.
///
/// Refuses an odd number of digits, and otherwise names the first code that
/// is no hexadecimal digit.
pub fn hex_decode(codes: &[u8]) -> (decoded: Result<Vec<u8>, HexError>)
    ensures
        match hex_decoded(codes@) {
            Ok(bytes) => decoded matches Ok(out) && out@ == bytes,
            Err(error) => decoded == Err::<Vec<u8>, HexError>(error),
        },
{
    if codes.len() % 2 != 0 {
        return Err(HexError::OddLength);
    }
    let mut out: Vec<u8> = Vec::new();
    let mut k: usize = 0;
    while k < codes.len()
        invariant
            codes@.len() % 2 == 0,
            0 <= k <= codes@.len(),
            k % 2 == 0,
            out@.len() == k / 2,
            forall|i: int| 0 <= i < k ==> digit_value(#[trigger] codes@[i]) is Some,
            forall|m: int|
                0 <= m < k / 2 ==> #[trigger] out@[m] == (digit_value(codes@[2 * m])->0 * 16 + digit_value(codes@[2 * m + 1])->0) as u8,
        decreases codes@.len() - k,
    {
        let high = match digit_of(codes[k]) {
            Some(value) => value,
            None => {
                proof {
                    assert(forall|i: int| 0 <= i < k ==> digit_value(#[trigger] codes@[i]) is Some);
                    lemma_first_invalid(codes@, k as int);
                }
                return Err(HexError::InvalidDigit(codes[k]));
            },
        };
        let low = match digit_of(codes[k + 1]) {
            Some(value) => value,
            None => {
                proof {
                    lemma_first_invalid(codes@, k as int + 1);
                }
                return Err(HexError::InvalidDigit(codes[k + 1]));
            },
        };
        proof {
            assert(high < 16 && low < 16);
        }
        out.push(high * 16 + low);
        proof {
            assert(out@[k as int / 2] == (digit_value(codes@[2 * (k as int / 2)])->0 * 16 + digit_value(
                codes@[2 * (k as int / 2) + 1],
            )->0) as u8);
        }
        k = k + 2;
    }
    proof {
        assert(!exists|j: int| 0 <= j < codes@.len() && digit_value(#[trigger] codes@[j]) is None);
        assert(out@ =~= Seq::new(
            codes@.len() / 2,
            |m: int| (digit_value(codes@[2 * m])->0 * 16 + digit_value(codes@[2 * m + 1])->0) as u8,
        ));
    }
    Ok(out)
}

/// The first invalid code is the one `hex_decoded` names.
proof fn lemma_first_invalid(codes: Seq<u8>, j: int)
    requires
        codes.len() % 2 == 0,
        0 <= j < codes.len(),
        digit_value(codes[j]) is None,
        forall|i: int| 0 <= i < j ==> digit_value(#[trigger] codes[i]) is Some,
    ensures
        hex_decoded(codes) == Err::<Seq<u8>, HexError>(HexError::InvalidDigit(codes[j])),
{
    let c = choose|c: int|
        0 <= c < codes.len() && digit_value(#[trigger] codes[c]) is None && forall|i: int|
            0 <= i < c ==> digit_value(#[trigger] codes[i]) is Some;
    assert(0 <= c < codes.len() && digit_value(codes[c]) is None && forall|i: int| 0 <= i < c ==> digit_value(#[trigger] codes[i]) is Some);
    if c < j {
        assert(digit_value(codes[c]) is Some);
    } else if c > j {
        assert(digit_value(codes[j]) is Some);
    }
}

/// Reading back what was written gives the bytes again: the digits of any
/// bytes decode to those bytes.
pub proof fn law_hex_round_trip(bytes: Seq<u8>)
    ensures
        hex_decoded(hex_codes(bytes)) == Ok::<Seq<u8>, HexError>(bytes),
{
    let codes = hex_codes(bytes);
    assert forall|i: int| 0 <= i < codes.len() implies digit_value(#[trigger] codes[i]) is Some by {
        let b = bytes[i / 2];
        assert(b / 16 < 16 && b % 16 < 16) by (nonlinear_arith);
    }
    assert forall|k: int| 0 <= k < bytes.len() implies (digit_value(codes[2 * k])->0 * 16 + digit_value(codes[2 * k + 1])->0) as u8
        == #[trigger] bytes[k] by {
        let b = bytes[k];
        assert((2 * k) % 2 == 0 && (2 * k) / 2 == k);
        assert((2 * k + 1) % 2 == 1 && (2 * k + 1) / 2 == k);
        assert(b / 16 < 16 && b % 16 < 16 && (b / 16) * 16 + b % 16 == b) by (nonlinear_arith);
    }
    assert(hex_decoded(codes) =~~= Ok::<Seq<u8>, HexError>(bytes)) by {
        assert(!exists|j: int| 0 <= j < codes.len() && digit_value(#[trigger] codes[j]) is None);
        assert(codes.len() / 2 == bytes.len());
        let decoded = Seq::new(
            codes.len() / 2,
            |k: int| (digit_value(codes[2 * k])->0 * 16 + digit_value(codes[2 * k + 1])->0) as u8,
        );
        assert(decoded =~= bytes);
    }
}

} // verus!
