//! The license plate validator.
//!
//! A plate is three uppercase letters followed by either a Mercosul tail
//! (digit, uppercase letter, two digits) or a legacy tail (four digits,
//! optionally preceded by a single dash). Matching is anchored at both
//! ends and case-sensitive.

use vstd::prelude::*;

use crate::chars::all_digits;
use crate::chars::digit_at;
use crate::chars::is_digit;
use crate::chars::is_upper;
use crate::chars::upper_at;
use crate::error::AppErrorCode;
use crate::error::ValidationError;

verus! {

/// The Mercosul tail: digit, uppercase letter, two digits.
pub open spec fn mercosul_tail(t: Seq<char>) -> bool {
    t.len() == 4 && is_digit(t[0]) && is_upper(t[1]) && is_digit(t[2]) && is_digit(t[3])
}

/// The legacy tail: four digits, optionally preceded by a single dash.
pub open spec fn legacy_tail(t: Seq<char>) -> bool {
    ||| t.len() == 4 && all_digits(t)
    ||| t.len() == 5 && t[0] == '-' && all_digits(t.skip(1))
}

/// A valid plate: three uppercase letters, then a Mercosul or legacy tail.
pub open spec fn plate_ok(s: Seq<char>) -> bool {
    &&& s.len() >= 3
    &&& is_upper(s[0])
    &&& is_upper(s[1])
    &&& is_upper(s[2])
    &&& (mercosul_tail(s.skip(3)) || legacy_tail(s.skip(3)))
}

/// The message reported for a candidate that fails plate validation; it
/// embeds the candidate unmodified.
pub open spec fn plate_error_message(raw: Seq<char>) -> Seq<char> {
    "Placa inválida: "@ + raw
}

/// Validates a license plate candidate against the plate grammar.
///
/// Succeeds exactly when the whole candidate is three uppercase letters
/// followed by a Mercosul tail (digit, uppercase letter, two digits) or a
/// legacy tail (an optional dash, then four digits).
pub fn validate_plate(plate: &str) -> (r: Result<(), ValidationError>)
    ensures
        r is Ok <==> plate_ok(plate@),
        r matches Err(e) ==> e.spec_code() == AppErrorCode::InvalidPlate && e.spec_message()
            == plate_error_message(plate@),
{
    let len = plate.unicode_len();
    let ok: bool = if len == 7 {
        upper_at(plate, 0) && upper_at(plate, 1) && upper_at(plate, 2) && digit_at(plate, 3) && (
        digit_at(plate, 4) || upper_at(plate, 4)) && digit_at(plate, 5) && digit_at(plate, 6)
    } else if len == 8 {
        upper_at(plate, 0) && upper_at(plate, 1) && upper_at(plate, 2) && plate.get_char(3) == '-'
            && digit_at(plate, 4) && digit_at(plate, 5) && digit_at(plate, 6) && digit_at(plate, 7)
    } else {
        false
    };
    proof {
        let s = plate@;
        let t = s.skip(3);
        if s.len() == 7 {
            assert(t.len() == 4);
            assert(t[0] == s[3] && t[1] == s[4] && t[2] == s[5] && t[3] == s[6]);
            if is_digit(s[3]) && is_digit(s[4]) && is_digit(s[5]) && is_digit(s[6]) {
                assert forall|i: int| 0 <= i < t.len() implies is_digit(#[trigger] t[i]) by {
                    assert(t[i] == s[i + 3]);
                }
            }
        } else if s.len() == 8 {
            assert(t.len() == 5);
            assert(t[0] == s[3]);
            let u = t.skip(1);
            assert(u.len() == 4);
            assert(u[0] == s[4] && u[1] == s[5] && u[2] == s[6] && u[3] == s[7]);
            if is_digit(s[4]) && is_digit(s[5]) && is_digit(s[6]) && is_digit(s[7]) {
                assert forall|i: int| 0 <= i < u.len() implies is_digit(#[trigger] u[i]) by {
                    assert(u[i] == s[i + 4]);
                }
            }
            assert(!mercosul_tail(t));
        } else {
            if s.len() >= 3 {
                assert(s.skip(3).len() != 4 && s.skip(3).len() != 5);
            }
        }
        assert(ok == plate_ok(s));
    }
    if ok {
        Ok(())
    } else {
        let m = String::from_str("Placa inválida: ").concat(plate);
        Err(ValidationError::new(AppErrorCode::InvalidPlate, m))
    }
}

/// True exactly when `validate_plate` succeeds on the same candidate.
pub fn is_plate_valid(plate: &str) -> (r: bool)
    ensures
        r == plate_ok(plate@),
{
    validate_plate(plate).is_ok()
}

} // verus!
