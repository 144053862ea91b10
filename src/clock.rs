use vstd::prelude::*;

verus! {

/// time's seconds and nanoseconds since the epoch, read by their public fields.
#[verifier::external_type_specification]
pub struct ExTimespec(time::Timespec);

/// Relies on time::get_time: the current wall-clock time since the epoch.
/// The result is built by `Timespec::new`, which asserts that the
/// nanoseconds lie in `[0, 1_000_000_000)`; of the seconds nothing is
/// promised, since they come from the clock.
pub assume_specification[ time::get_time ]() -> (r: time::Timespec)
    ensures
        0 <= r.nsec < 1_000_000_000,
;

/// Microseconds since the epoch of a time given as seconds and nanoseconds.
pub open spec fn micros_of(sec: int, nsec: int) -> int {
    sec * 1_000_000 + nsec / 1000
}

/// Converts seconds and nanoseconds to microseconds, saturating at the bounds
/// of `u64`: a time before the epoch gives 0.
pub fn micros_from_timespec(sec: i64, nsec: i32) -> (r: u64)
    requires
        0 <= nsec < 1_000_000_000,
    ensures
        micros_of(sec as int, nsec as int) < 0 ==> r == 0,
        0 <= micros_of(sec as int, nsec as int) <= u64::MAX ==> r == micros_of(
            sec as int,
            nsec as int,
        ),
        micros_of(sec as int, nsec as int) > u64::MAX ==> r == u64::MAX,
{
    let sub: u64 = (nsec / 1000) as u64;
    if sec < 0 {
        assert(micros_of(sec as int, nsec as int) < 0) by (nonlinear_arith)
            requires
                sec < 0,
                0 <= nsec < 1_000_000_000,
        ;
        return 0;
    }
    let s: u64 = sec as u64;
    if s > (u64::MAX - sub) / 1_000_000 {
        assert(micros_of(sec as int, nsec as int) > u64::MAX) by (nonlinear_arith)
            requires
                s as int > (u64::MAX - sub) / 1_000_000,
                s == sec,
                sub == nsec / 1000,
        ;
        u64::MAX
    } else {
        assert(s * 1_000_000 + sub <= u64::MAX) by (nonlinear_arith)
            requires
                s <= (u64::MAX - sub) / 1_000_000,
                sub <= u64::MAX,
        ;
        s * 1_000_000 + sub
    }
}

/// The wall-clock time in microseconds since the epoch. Nothing is known of
/// the value, which comes from the system clock.
pub fn get_us() -> u64 {
    let now = time::get_time();
    micros_from_timespec(now.sec, now.nsec)
}

} // verus!
