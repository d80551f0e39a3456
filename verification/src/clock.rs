//! Reading the system clock as milliseconds since the Unix epoch.
use vstd::prelude::*;

verus! {

#[verifier::external_type_specification]
#[verifier::external_body]
pub struct ExSystemTime(std::time::SystemTime);

#[verifier::external_type_specification]
#[verifier::external_body]
pub struct ExSystemTimeError(std::time::SystemTimeError);

/// `SystemTime::now`: the current time, of which nothing is promised.
#[verifier::external_body]
fn system_now() -> std::time::SystemTime {
    std::time::SystemTime::now()
}

/// `SystemTime::duration_since(UNIX_EPOCH)`: fails when the time lies before the epoch.
#[verifier::external_body]
fn since_unix_epoch(t: &std::time::SystemTime) -> Result<
    core::time::Duration,
    std::time::SystemTimeError,
> {
    t.duration_since(std::time::UNIX_EPOCH)
}

/// `Duration::as_millis`.
#[verifier::external_body]
fn duration_millis(d: &core::time::Duration) -> u128 {
    d.as_millis()
}

/// Milliseconds since the Unix epoch as `i64`, from a clock reading: whole milliseconds
/// truncated as `as` does, or the clock's error text unchanged.
pub fn unix_millis_from(reading: Result<u128, String>) -> (r: Result<i64, String>)
    ensures
        match reading {
            Ok(millis) => r == Ok::<i64, String>(millis as i64),
            Err(text) => r == Err::<i64, String>(text),
        },
{
    match reading {
        Ok(millis) => Ok(#[verifier::truncate] (millis as i64)),
        Err(text) => Err(text),
    }
}

/// Milliseconds since the Unix epoch, truncated to `i64` as `as` does, or the clock's
/// error text when the clock reads a time before the epoch. The reading itself depends on
/// the time and is left unsaid; `unix_millis_from` says what is made of it.
pub fn unix_millis() -> (r: Result<i64, String>) {
    let now = system_now();
    let reading = match since_unix_epoch(&now) {
        Ok(duration) => Ok(duration_millis(&duration)),
        Err(error) => Err(error.to_string()),
    };
    unix_millis_from(reading)
}

} // verus!
