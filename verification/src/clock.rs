//! The wall clock.

use vstd::prelude::*;

use crate::decimal::u64_to_decimal;

verus! {

#[verifier::external_type_specification]
#[verifier::external_body]
pub struct ExSystemTime(std::time::SystemTime);

/// Reads the wall clock with `SystemTime::now`. Nothing is stated of the
/// time it gives.
#[verifier::external_body]
fn system_now() -> (t: std::time::SystemTime) {
    std::time::SystemTime::now()
}

/// How long after the Unix epoch `t` is, with `SystemTime::duration_since`;
/// none when `t` is earlier. Nothing is stated of the duration: it rests on
/// the time read.
#[verifier::external_body]
fn since_unix_epoch(t: &std::time::SystemTime) -> (d: Option<std::time::Duration>) {
    t.duration_since(std::time::UNIX_EPOCH).ok()
}

/// The whole seconds of `d`, with `Duration::as_secs`. Nothing is stated of
/// the value: the duration is opaque here.
#[verifier::external_body]
fn whole_seconds(d: &std::time::Duration) -> (secs: u64) {
    d.as_secs()
}

/// The current Unix time in whole seconds, in decimal (`0` when the clock is
/// before the epoch).
pub fn unix_timestamp_seconds() -> (r: String)
    ensures
        exists|secs: nat| secs <= u64::MAX && r@ == #[trigger] crate::decimal::decimal_digits(secs),
        r@.len() > 0,
{
    match since_unix_epoch(&system_now()) {
        Some(duration) => {
            let secs = whole_seconds(&duration);
            let s = u64_to_decimal(secs);
            proof {
                crate::decimal::lemma_decimal_digits_nonempty(secs as nat);
                assert(s@ == crate::decimal::decimal_digits(secs as nat));
            }
            s
        },
        None => {
            proof {
                reveal_strlit("0");
                assert(crate::decimal::decimal_digits(0) == seq!['0']);
            }
            "0".to_owned()
        },
    }
}

} // verus!
