//! Scoring arithmetic, in milli-units.
//!
//! Speed follows the convention that one word is five characters: words per
//! minute equals `(characters / 5) / minutes`. The engine measures time in
//! whole seconds and counts characters as integers, so every formula here is
//! exact integer arithmetic over thousandths of the real-valued quantity:
//! a result of `26666` milli means `26.666` words per minute. Presentation
//! (rounding to a whole number) is a separate step, `round_milli`.

use vstd::prelude::*;
use crate::error::ErrorKind;

verus! {

/// Upper bound (inclusive) on every character count fed to the formulas.
/// Keeps `12000 * chars` far from `u64` overflow.
pub const MAX_CHARS: u64 = 2_000_000_000;

/// Upper bound (exclusive) on a session duration in seconds.
pub const MAX_DURATION_SECS: u64 = 1_000_000_000;

/// Words per minute, in milli-units: `(chars / 5) / (secs / 60)` scaled by
/// 1000, which is `12000 * chars / secs` rounded toward zero.
pub open spec fn spec_wpm_milli(chars: nat, secs: nat) -> nat
    recommends
        secs > 0,
{
    (12000 * chars) / secs
}

/// Accuracy in milli-units: `1000 * correct / total`, rounded toward zero.
pub open spec fn spec_accuracy_milli(total: nat, correct: nat) -> nat
    recommends
        total > 0,
{
    (1000 * correct) / total
}

/// Adjusted words per minute in milli-units. The real-valued product
/// `speed * accuracy` is `(chars/5/min) * (correct/chars) = correct/5/min`,
/// so its exact milli value is `12000 * correct / secs`.
pub open spec fn spec_awpm_milli(correct: nat, secs: nat) -> nat
    recommends
        secs > 0,
{
    (12000 * correct) / secs
}

/// Typing speed in milli-words-per-minute. Rejects a zero duration.
pub fn calculate_wpm(chars: u64, secs: u64) -> (r: Result<u64, ErrorKind>)
    requires
        chars <= MAX_CHARS,
        secs < MAX_DURATION_SECS,
    ensures
        secs == 0 <==> r is Err,
        r is Err ==> r->Err_0 == ErrorKind::DomainError,
        r is Ok ==> r->Ok_0 == spec_wpm_milli(chars as nat, secs as nat),
{
    if secs == 0 {
        Err(ErrorKind::DomainError)
    } else {
        Ok((12000 * chars) / secs)
    }
}

/// Accuracy in milli-units (`950` means `0.95`). Rejects a zero total.
pub fn calculate_accuracy(total: u64, correct: u64) -> (r: Result<u64, ErrorKind>)
    requires
        correct <= MAX_CHARS,
    ensures
        total == 0 <==> r is Err,
        r is Err ==> r->Err_0 == ErrorKind::DomainError,
        r is Ok ==> r->Ok_0 == spec_accuracy_milli(total as nat, correct as nat),
        r is Ok && correct <= total ==> r->Ok_0 <= 1000,
{
    if total == 0 {
        Err(ErrorKind::DomainError)
    } else {
        let acc: u64 = (1000 * correct) / total;
        proof {
            if correct <= total {
                assert(1000 * correct <= 1000 * total) by (nonlinear_arith)
                    requires correct <= total;
                assert((1000 * correct as nat) / (total as nat) <= 1000) by (nonlinear_arith)
                    requires 1000 * correct <= 1000 * total, total > 0;
            }
        }
        Ok(acc)
    }
}

/// Adjusted speed: speed times accuracy, in milli-units. Fails exactly where
/// one of the two constituent formulas fails: on a zero duration or a zero
/// character count.
pub fn calculate_awpm(chars: u64, secs: u64, correct: u64) -> (r: Result<u64, ErrorKind>)
    requires
        chars <= MAX_CHARS,
        correct <= MAX_CHARS,
        secs < MAX_DURATION_SECS,
    ensures
        secs == 0 || chars == 0 <==> r is Err,
        r is Err ==> r->Err_0 == ErrorKind::DomainError,
        r is Ok ==> r->Ok_0 == spec_awpm_milli(correct as nat, secs as nat),
{
    if secs == 0 || chars == 0 {
        Err(ErrorKind::DomainError)
    } else {
        Ok((12000 * correct) / secs)
    }
}

/// Round a milli-unit value to the nearest whole unit, halves up.
pub fn round_milli(milli: u64) -> (r: u64)
    requires
        milli < u64::MAX - 500,
    ensures
        r == (milli + 500) / 1000,
{
    (milli + 500) / 1000
}

} // verus!
