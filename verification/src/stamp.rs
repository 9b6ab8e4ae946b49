//! Timestamps and identifiers derived from the system clock.
use crate::text::dec_of;
use crate::text::decimal_string;
use std::time::SystemTime;
use std::time::UNIX_EPOCH;
use vstd::prelude::*;
use vstd::string::StringExecFns;

verus! {

/// Relies on std::time::SystemTime::now, Duration::as_micros and
/// SystemTime::duration_since: microseconds since the Unix epoch, 0 if the
/// clock reads before the epoch. Nothing is promised of the value: the
/// clock is nondeterministic.
#[verifier::external_body]
fn current_epoch_micros() -> u128 {
    SystemTime::now().duration_since(UNIX_EPOCH).unwrap_or_default().as_micros()
}

/// The seconds-resolution decimal stamp for a microsecond epoch reading.
pub fn seconds_stamp(micros: u128) -> (r: String)
    ensures
        r@ == dec_of((micros / 1_000_000) as nat),
{
    decimal_string(micros / 1_000_000)
}

/// A creation/update timestamp: the current epoch time in whole seconds,
/// rendered in decimal.
pub fn now_iso() -> (r: String)
    ensures
        exists|n: nat| r@ == dec_of(n),
{
    let micros = current_epoch_micros();
    let r = seconds_stamp(micros);
    proof {
        assert(r@ == dec_of((micros / 1_000_000) as nat));
    }
    r
}

/// A fresh project id derived from the creation instant: `proj-` followed
/// by the epoch microseconds in decimal. Uniqueness rests on the clock's
/// microsecond resolution and is not checked against the store.
pub fn generate_project_id() -> (r: String)
    ensures
        exists|n: nat| r@ == "proj-"@ + dec_of(n),
{
    let micros = current_epoch_micros();
    let digits = decimal_string(micros);
    let head: String = "proj-".to_owned();
    let r = head.concat(digits.as_str());
    proof {
        assert(r@ == "proj-"@ + dec_of(micros as nat));
    }
    r
}

} // verus!
