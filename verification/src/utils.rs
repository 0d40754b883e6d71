//! Reading the clock.
use vstd::prelude::*;
use std::time::{Duration, SystemTime, SystemTimeError, UNIX_EPOCH};

verus! {

/// `std::time::SystemTime`, a reading of the system clock; its inside is not
/// looked at.
#[verifier::external_type_specification]
#[verifier::external_body]
pub struct ExSystemTime(SystemTime);

/// `std::time::SystemTimeError`, returned for a time before the one it is
/// measured from; its inside is not looked at.
#[verifier::external_type_specification]
#[verifier::external_body]
pub struct ExSystemTimeError(SystemTimeError);

/// The span from the Unix epoch to `time`, where `time` is not before it.
pub uninterp spec fn since_epoch(time: SystemTime) -> Option<Duration>;

/// The number of whole seconds in a span.
pub uninterp spec fn whole_seconds(span: Duration) -> u64;

/// `SystemTime::duration_since`, with `UNIX_EPOCH` as the earlier time: the
/// span between the two, or an error where `time` is the earlier one.
#[verifier::external_body]
pub(crate) fn duration_since_epoch(time: &SystemTime) -> (span: Result<Duration, SystemTimeError>)
    ensures
        match span {
            Ok(elapsed) => since_epoch(*time) == Some(elapsed),
            Err(_) => since_epoch(*time) is None,
        },
{
    time.duration_since(UNIX_EPOCH)
}

/// `Duration::as_secs`: the whole seconds of the span, fractions dropped.
pub assume_specification[ Duration::as_secs ](span: &Duration) -> (secs: u64)
    ensures
        secs == whole_seconds(*span),
;

/// `SystemTime::now`: what the system clock shows; nothing is known of it.
pub assume_specification[ SystemTime::now ]() -> (time: SystemTime)
;

/// The seconds from the Unix epoch to `time`; none where `time` is before
/// the epoch.
pub open spec fn epoch_seconds(time: SystemTime) -> Option<u64> {
    match since_epoch(time) {
        Some(elapsed) => Some(whole_seconds(elapsed)),
        None => None,
    }
}

/// The seconds from the Unix epoch to `time`, if `time` is not before it.
pub fn created_at_of(time: SystemTime) -> (secs: Option<u64>)
    ensures
        secs == epoch_seconds(time),
{
    match duration_since_epoch(&time) {
        Ok(elapsed) => Some(elapsed.as_secs()),
        Err(_) => None,
    }
}

/// The seconds from the Unix epoch to `time`, which is not before it.
pub fn get_created_at(time: SystemTime) -> (secs: u64)
    requires
        epoch_seconds(time) is Some,
    ensures
        epoch_seconds(time) == Some(secs),
{
    created_at_of(time).unwrap()
}

} // verus!
