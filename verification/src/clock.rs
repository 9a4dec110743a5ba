//! The clock that jobs are named by.

use vstd::prelude::*;

verus! {

/// The instants of std's clock.
#[verifier::external_type_specification]
#[verifier::external_body]
pub struct ExSystemTime(std::time::SystemTime);

/// The error of std for an instant that lies before another.
#[verifier::external_type_specification]
#[verifier::external_body]
pub struct ExSystemTimeError(std::time::SystemTimeError);

/// The time now, through `SystemTime::now` of std. Nothing is said of it: it is
/// what the machine's clock shows.
#[verifier::external_body]
fn system_now() -> std::time::SystemTime {
    std::time::SystemTime::now()
}

/// The span from the start of the Unix epoch to `t`, through
/// `SystemTime::duration_since` of std. Nothing is said of it: instants are
/// opaque here.
#[verifier::external_body]
fn since_epoch(t: std::time::SystemTime) -> Result<
    std::time::Duration,
    std::time::SystemTimeError,
> {
    t.duration_since(std::time::UNIX_EPOCH)
}

/// The most nanoseconds that a span can have: its seconds are a `u64`, and what is
/// left over is less than a second.
pub const MOST_NANOS: u128 = 18446744073709551615999999999;

/// The nanoseconds of a span, through `Duration::as_nanos` of std. They are no
/// more than a span can have. Which they are is left unsaid: spans are opaque
/// here.
#[verifier::external_body]
fn nanos(span: std::time::Duration) -> (r: u128)
    ensures
        r <= MOST_NANOS,
{
    span.as_nanos()
}

/// The reading of the clock that a job goes by: none counts as the start of the
/// epoch.
pub fn reading_or_start(reading: Option<u128>) -> (r: u128)
    ensures
        r == match reading {
            Some(ns) => ns,
            None => 0,
        },
{
    match reading {
        Some(ns) => ns,
        None => 0,
    }
}

/// Tells whether `ns` is what a look at the clock gave: the nanoseconds of the
/// span from the start of the epoch to the instant that the clock showed, or 0 if
/// there is no such span. Nothing but such a look shows this of a number.
pub closed spec fn read_off_the_clock(ns: u128) -> bool {
    exists|t: std::time::SystemTime, span: Result<
        std::time::Duration,
        std::time::SystemTimeError,
    >|
        #![trigger call_ensures(since_epoch, (t,), span)]
        call_ensures(system_now, (), t) && call_ensures(since_epoch, (t,), span) && (match span {
            Ok(d) => call_ensures(nanos, (d,), ns),
            Err(_) => ns == 0,
        })
}

/// What was read off the clock is what the calls of the clock returned, one upon
/// the other, and nothing else: no number that was made up passes for it.
proof fn law_only_the_clock_gives_readings(ns: u128)
    ensures
        read_off_the_clock(ns) <==> exists|t: std::time::SystemTime, span: Result<
            std::time::Duration,
            std::time::SystemTimeError,
        >|
            #![trigger call_ensures(since_epoch, (t,), span)]
            call_ensures(system_now, (), t) && call_ensures(since_epoch, (t,), span) && (
            match span {
                Ok(d) => call_ensures(nanos, (d,), ns),
                Err(_) => ns == 0,
            }),
{
}

/// The nanoseconds since the start of the Unix epoch, or 0 if the clock is set
/// to a time before it. What they are is up to the clock.
pub fn now_ns() -> (r: u128)
    ensures
        r <= MOST_NANOS,
        read_off_the_clock(r),
{
    let t = system_now();
    let span = since_epoch(t);
    let reading = match span {
        Ok(d) => Some(nanos(d)),
        Err(_) => None,
    };
    reading_or_start(reading)
}

/// Whatever the clock is read as was read off it, and no reading counts as the start of
/// the epoch.
pub proof fn law_clock_is_read(ns: u128, reading: Option<u128>, r: u128)
    requires
        call_ensures(now_ns, (), ns),
        call_ensures(reading_or_start, (reading,), r),
    ensures
        read_off_the_clock(ns),
        reading is Some ==> r == reading->0,
        reading is None ==> r == 0,
{
}

} // verus!
