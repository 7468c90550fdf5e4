//! Decoding of tempo telemetry: a payload is a decimal whole number as text.

use vstd::prelude::*;
use vstd::utf8::valid_utf8;

verus! {

/// Why a payload was dropped.
#[derive(Clone, Copy, Debug, PartialEq, Eq, Structural)]
pub enum DecodeError {
    /// The bytes are not UTF-8 text.
    NotText,
    /// The text is not a whole number that fits 64 bits.
    NotANumber,
}

/// The byte `'+'`.
pub const PLUS: u8 = 0x2b;

/// The byte `'-'`.
pub const MINUS: u8 = 0x2d;

/// The byte `'0'`.
pub const ZERO: u8 = 0x30;

/// The byte `'9'`.
pub const NINE: u8 = 0x39;

/// Whether the byte is a decimal digit.
pub open spec fn is_digit(b: u8) -> bool {
    ZERO <= b <= NINE
}

/// Whether every byte is a decimal digit.
pub open spec fn all_digits(s: Seq<u8>) -> bool {
    forall|i: int| 0 <= i < s.len() ==> is_digit(#[trigger] s[i])
}

/// The number that a run of digits spells.
pub open spec fn digits_value(s: Seq<u8>) -> nat
    decreases s.len(),
{
    if s.len() == 0 {
        0
    } else {
        digits_value(s.drop_last()) * 10 + (s.last() - ZERO) as nat
    }
}

/// Whether the text opens with a sign.
pub open spec fn has_sign(text: Seq<u8>) -> bool {
    text.len() > 0 && (text[0] == PLUS || text[0] == MINUS)
}

/// The number that a decimal text spells: an optional `+` or `-`, then one digit or
/// more and nothing else. Blanks, a fraction or an exponent make it no number.
pub open spec fn decimal_value(text: Seq<u8>) -> Option<int> {
    let digits = if has_sign(text) {
        text.skip(1)
    } else {
        text
    };
    if digits.len() == 0 || !all_digits(digits) {
        None
    } else if text[0] == MINUS {
        Some(-(digits_value(digits) as int))
    } else {
        Some(digits_value(digits) as int)
    }
}

/// What a payload decodes to: the tempo, or the reason why there is none.
pub open spec fn decoded_bpm(payload: Seq<u8>) -> Result<i64, DecodeError> {
    if !valid_utf8(payload) {
        Err(DecodeError::NotText)
    } else {
        match decimal_value(payload) {
            Some(v) => if i64::MIN <= v <= i64::MAX {
                Ok(v as i64)
            } else {
                Err(DecodeError::NotANumber)
            },
            None => Err(DecodeError::NotANumber),
        }
    }
}

/// Calls `core::str::from_utf8`, which accepts exactly the well-formed UTF-8.
#[verifier::external_body]
fn is_text(payload: &[u8]) -> (ok: bool)
    ensures
        ok == valid_utf8(payload@),
{
    core::str::from_utf8(payload).is_ok()
}

/// A longer run of digits spells no smaller number than its beginning.
proof fn lemma_digits_value_grows(s: Seq<u8>, k: int)
    requires
        0 <= k <= s.len(),
    ensures
        digits_value(s.take(k)) <= digits_value(s),
    decreases s.len(),
{
    if k == s.len() {
        assert(s.take(k) =~= s);
    } else {
        lemma_digits_value_grows(s.drop_last(), k);
        assert(s.drop_last().take(k) =~= s.take(k));
    }
}

/// Decodes a payload into a tempo.
///
/// The tempo is a whole number: text with a fraction, or a number beyond 64 bits,
/// is rejected, not rounded.
pub fn parse_bpm(payload: &[u8]) -> (r: Result<i64, DecodeError>)
    ensures
        r == decoded_bpm(payload@),
{
    if !is_text(payload) {
        return Err(DecodeError::NotText);
    }
    let n: usize = payload.len();
    if n == 0 {
        return Err(DecodeError::NotANumber);
    }
    let negative: bool = payload[0] == MINUS;
    let start: usize = if payload[0] == PLUS || payload[0] == MINUS {
        1
    } else {
        0
    };
    let ghost digits: Seq<u8> = payload@.skip(start as int);
    if start == n {
        return Err(DecodeError::NotANumber);
    }
    let mut acc: i64 = 0;
    let mut i: usize = start;
    while i < n
        invariant
            n == payload@.len(),
            valid_utf8(payload@),
            start < n,
            start <= i <= n,
            start == (if has_sign(payload@) { 1int } else { 0int }),
            negative == (payload@[0] == MINUS),
            digits == payload@.skip(start as int),
            all_digits(digits.take(i - start)),
            negative ==> acc == -(digits_value(digits.take(i - start)) as int),
            !negative ==> acc == digits_value(digits.take(i - start)),
        decreases n - i,
    {
        let b: u8 = payload[i];
        let ghost shorter: Seq<u8> = digits.take(i - start);
        let ghost longer: Seq<u8> = digits.take(i - start + 1);
        if b < ZERO || b > NINE {
            return Err(DecodeError::NotANumber);
        }
        assert(longer.drop_last() =~= shorter);
        let d: i64 = (b - ZERO) as i64;
        let step: Option<i64> = match acc.checked_mul(10) {
            None => None,
            Some(tens) => if negative {
                tens.checked_sub(d)
            } else {
                tens.checked_add(d)
            },
        };
        match step {
            None => {
                proof {
                    lemma_digits_value_grows(digits, i - start + 1);
                    assert(payload@.skip(0) =~= payload@);
                }
                return Err(DecodeError::NotANumber);
            },
            Some(next) => {
                acc = next;
            },
        }
        assert forall|j: int| 0 <= j < longer.len() implies is_digit(#[trigger] longer[j]) by {
            if j < shorter.len() {
                assert(shorter[j] == longer[j]);
            }
        }
        i += 1;
    }
    assert(digits.take(n - start) =~= digits);
    assert(payload@.skip(0) =~= payload@);
    Ok(acc)
}

} // verus!
