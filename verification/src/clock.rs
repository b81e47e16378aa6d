//! The compositor's logical event clock. Every input event is stamped from
//! one monotonic clock, so that clients never see time run backwards when
//! injected events follow device events.

use vstd::prelude::*;

verus! {

/// The step by which an injected event advances the clock.
pub const INJECTED_EVENT_STEP: u32 = 10;

/// The clock after an event: a device event carries its own time and moves
/// the clock up to it, never back; an injected event has none and advances
/// the clock by one step.
pub open spec fn spec_next_event_time(last: u32, device_time: Option<u32>) -> int {
    match device_time {
        Some(t) => if t > last { t as int } else { last as int },
        None => last + INJECTED_EVENT_STEP,
    }
}

/// The clock after an event, from the clock before it (`last`) and the
/// time the device stamped on the event, if it came from a device. An
/// injected event is delivered at the returned time; a device event keeps
/// its own time, and the clock only remembers the later of the two.
pub fn next_event_time(last: u32, device_time: Option<u32>) -> (r: u32)
    requires
        device_time is None ==> last <= u32::MAX - INJECTED_EVENT_STEP,
    ensures
        r == spec_next_event_time(last, device_time),
        r >= last,
        device_time matches Some(t) ==> r >= t,
{
    match device_time {
        Some(t) => if t > last { t } else { last },
        None => last + INJECTED_EVENT_STEP,
    }
}

/// Whatever events arrive, the clock never runs backwards, and an injected
/// event is stamped strictly after every event before it.
pub proof fn law_clock_is_monotonic(last: u32, device_time: Option<u32>)
    requires
        device_time is None ==> last <= u32::MAX - INJECTED_EVENT_STEP,
    ensures
        spec_next_event_time(last, device_time) >= last,
        device_time is None ==> spec_next_event_time(last, device_time) > last,
        device_time matches Some(t) ==> spec_next_event_time(last, device_time) >= t,
{
}

/// An injected event that follows a device event is stamped after it, so
/// that the two never reach a client out of order.
pub proof fn law_injected_after_device(last: u32, t: u32)
    requires
        last <= u32::MAX - INJECTED_EVENT_STEP,
        t <= u32::MAX - INJECTED_EVENT_STEP,
    ensures
        spec_next_event_time(spec_next_event_time(last, Some(t)) as u32, None) > t,
{
}

} // verus!
