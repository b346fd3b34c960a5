//! Rotary encoder with quadrature decoding and debouncing.
//!
//! Times are in microseconds of a clock that does not run backwards.

use vstd::prelude::*;

verus! {

/// Shortest time between rotation events.
pub const DEBOUNCE_US: u64 = 5_000;

/// Time during which a change of the button is ignored.
pub const BUTTON_DEBOUNCE_US: u64 = 20_000;

/// A button held longer than this was pressed long.
pub const LONG_PRESS_US: u64 = 500_000;

/// Encoder events.
#[derive(Debug, Clone, Copy, PartialEq, Eq, Structural)]
pub enum EncoderEvent {
    /// Rotated clockwise.
    Increment,
    /// Rotated counter-clockwise.
    Decrement,
    /// Button pressed.
    Press,
    /// Button released.
    Release,
    /// Button released after a long press.
    LongPress,
}

/// Levels of the encoder's pins.
#[derive(Debug, Clone, Copy, PartialEq, Eq, Structural)]
pub struct Pins {
    pub a: bool,
    pub b: bool,
    /// Whether the button is down.
    pub button: bool,
}

/// Rotary encoder state.
#[derive(Debug, Clone, Copy, PartialEq, Eq, Structural)]
pub struct RotaryEncoder {
    pub last_a: bool,
    pub last_b: bool,
    pub last_event_time: u64,
    pub btn_press_time: Option<u64>,
    pub last_btn_state: bool,
    pub btn_debounce_time: u64,
}

/// The button changed and is not being debounced.
pub open spec fn button_changes(e: RotaryEncoder, now: u64, pins: Pins) -> bool {
    pins.button != e.last_btn_state && now - e.btn_debounce_time > BUTTON_DEBOUNCE_US
}

/// The state after the button was looked at.
pub open spec fn after_button(e: RotaryEncoder, now: u64, pins: Pins) -> RotaryEncoder {
    if button_changes(e, now, pins) {
        RotaryEncoder {
            last_btn_state: pins.button,
            btn_debounce_time: now,
            btn_press_time: if pins.button {
                Some(now)
            } else {
                None
            },
            ..e
        }
    } else {
        e
    }
}

/// The event of a button change: a release tells how long the button was held,
/// if its press was seen.
pub open spec fn button_event(e: RotaryEncoder, now: u64, pins: Pins) -> Option<EncoderEvent> {
    if !button_changes(e, now, pins) {
        None
    } else if pins.button {
        Some(EncoderEvent::Press)
    } else {
        match e.btn_press_time {
            Some(t) => if now - t > LONG_PRESS_US {
                Some(EncoderEvent::LongPress)
            } else {
                Some(EncoderEvent::Release)
            },
            None => None,
        }
    }
}

/// State and event after a look at the rotation.
pub open spec fn rotated(e: RotaryEncoder, now: u64, pins: Pins) -> (
    RotaryEncoder,
    Option<EncoderEvent>,
) {
    if now - e.last_event_time < DEBOUNCE_US {
        (e, None)
    } else if pins.a != e.last_a {
        (
            RotaryEncoder { last_a: pins.a, last_b: pins.b, last_event_time: now, ..e },
            Some(
                if pins.a == pins.b {
                    EncoderEvent::Increment
                } else {
                    EncoderEvent::Decrement
                },
            ),
        )
    } else {
        (RotaryEncoder { last_b: pins.b, ..e }, None)
    }
}

/// State and event after a poll: the button comes first.
pub open spec fn polled(e: RotaryEncoder, now: u64, pins: Pins) -> (
    RotaryEncoder,
    Option<EncoderEvent>,
) {
    match button_event(e, now, pins) {
        Some(event) => (after_button(e, now, pins), Some(event)),
        None => rotated(after_button(e, now, pins), now, pins),
    }
}

impl RotaryEncoder {
    /// Nothing that the encoder remembers lies in the future.
    pub open spec fn not_after(self, now: u64) -> bool {
        &&& self.last_event_time <= now
        &&& self.btn_debounce_time <= now
        &&& self.btn_press_time matches Some(t) ==> t <= now
    }

    pub fn new(now: u64, pins: Pins) -> (encoder: Self)
        ensures
            encoder == (RotaryEncoder {
                last_a: pins.a,
                last_b: pins.b,
                last_event_time: now,
                btn_press_time: None,
                last_btn_state: pins.button,
                btn_debounce_time: now,
            }),
            encoder.not_after(now),
    {
        RotaryEncoder {
            last_a: pins.a,
            last_b: pins.b,
            last_event_time: now,
            btn_press_time: None,
            last_btn_state: pins.button,
            btn_debounce_time: now,
        }
    }

    /// Looks at the pins and returns an event, if there is one.
    pub fn poll(&mut self, now: u64, pins: Pins) -> (event: Option<EncoderEvent>)
        requires
            old(self).not_after(now),
        ensures
            final(self).not_after(now),
            (*final(self), event) == polled(*old(self), now, pins),
    {
        if pins.button != self.last_btn_state && now - self.btn_debounce_time
            > BUTTON_DEBOUNCE_US {
            self.last_btn_state = pins.button;
            self.btn_debounce_time = now;
            let pressed: Option<u64> = self.btn_press_time;
            if pins.button {
                self.btn_press_time = Some(now);
                return Some(EncoderEvent::Press);
            }
            self.btn_press_time = None;
            if let Some(press_time) = pressed {
                if now - press_time > LONG_PRESS_US {
                    return Some(EncoderEvent::LongPress);
                } else {
                    return Some(EncoderEvent::Release);
                }
            }
        }
        if now - self.last_event_time < DEBOUNCE_US {
            return None;
        }
        let event: Option<EncoderEvent> = if pins.a != self.last_a {
            self.last_event_time = now;
            if pins.a == pins.b {
                Some(EncoderEvent::Increment)
            } else {
                Some(EncoderEvent::Decrement)
            }
        } else {
            None
        };
        self.last_a = pins.a;
        self.last_b = pins.b;
        event
    }
}

/// A press that was seen ends in exactly one of a release and a long press,
/// told apart by how long the button was held, and the button is ready for the
/// next press.
pub proof fn law_press_ends_in_release(e: RotaryEncoder, now: u64, pins: Pins)
    requires
        e.not_after(now),
        e.last_btn_state,
        e.btn_press_time is Some,
        !pins.button,
        now - e.btn_debounce_time > BUTTON_DEBOUNCE_US,
    ensures
        ({
            let (after, event) = polled(e, now, pins);
            &&& event == Some(
                if now - e.btn_press_time->0 > LONG_PRESS_US {
                    EncoderEvent::LongPress
                } else {
                    EncoderEvent::Release
                },
            )
            &&& !after.last_btn_state
            &&& after.btn_press_time is None
        }),
{
}

/// After an event of the button, no change of it gives another one for 20 ms.
pub proof fn law_button_is_debounced(
    e: RotaryEncoder,
    now: u64,
    pins: Pins,
    later: u64,
    other: Pins,
)
    requires
        e.not_after(now),
        button_changes(e, now, pins),
        now <= later,
        later - now <= BUTTON_DEBOUNCE_US,
    ensures
        !button_changes(polled(e, now, pins).0, later, other),
{
}

/// After a rotation, no other one is reported for 5 ms.
pub proof fn law_rotation_is_debounced(
    e: RotaryEncoder,
    now: u64,
    pins: Pins,
    later: u64,
    other: Pins,
)
    requires
        polled(e, now, pins).1 == Some(EncoderEvent::Increment) || polled(e, now, pins).1 == Some(
            EncoderEvent::Decrement,
        ),
        now <= later,
        later - now < DEBOUNCE_US,
    ensures
        polled(polled(e, now, pins).0, later, other).1 != Some(EncoderEvent::Increment),
        polled(polled(e, now, pins).0, later, other).1 != Some(EncoderEvent::Decrement),
{
}

/// Every edge of pin A outside the 5 ms after the last one is a step, unless the
/// button speaks: clockwise if both pins are then alike, counter-clockwise if
/// not. Without an edge there is no step.
pub proof fn law_steps(e: RotaryEncoder, now: u64, pins: Pins)
    requires
        e.not_after(now),
        pins.button == e.last_btn_state,
    ensures
        polled(e, now, pins).1 == Some(EncoderEvent::Increment) <==> now - e.last_event_time >= 5000
            && pins.a != e.last_a && pins.a == pins.b,
        polled(e, now, pins).1 == Some(EncoderEvent::Decrement) <==> now - e.last_event_time >= 5000
            && pins.a != e.last_a && pins.a != pins.b,
        pins.a == e.last_a ==> polled(e, now, pins).1 is None,
{
}

/// Turning the other way swaps the roles: with the opposite level on pin B a step
/// goes in the opposite direction.
pub proof fn law_directions_mirror(e: RotaryEncoder, now: u64, pins: Pins)
    requires
        e.not_after(now),
    ensures
        ({
            let other = Pins { b: !pins.b, ..pins };
            let here = polled(e, now, pins).1;
            let there = polled(e, now, other).1;
            &&& here == Some(EncoderEvent::Increment) <==> there == Some(EncoderEvent::Decrement)
            &&& here == Some(EncoderEvent::Press) <==> there == Some(EncoderEvent::Press)
        }),
{
}

/// A full turn of the pins, A leading and falling first, at least 5 ms between
/// the edges of A, is two steps in one direction.
pub proof fn law_quadrature_cycle(e: RotaryEncoder, t1: u64, t2: u64, t3: u64, t4: u64)
    requires
        e.not_after(t1),
        e.last_a && e.last_b,
        t1 - e.last_event_time >= 5000,
        t1 <= t2 <= t3 <= t4,
        t3 - t1 >= 5000,
    ensures
        ({
            let button = e.last_btn_state;
            let (e1, s1) = polled(e, t1, Pins { a: false, b: true, button });
            let (e2, s2) = polled(e1, t2, Pins { a: false, b: false, button });
            let (e3, s3) = polled(e2, t3, Pins { a: true, b: false, button });
            let (e4, s4) = polled(e3, t4, Pins { a: true, b: true, button });
            &&& s1 == Some(EncoderEvent::Decrement)
            &&& s3 == Some(EncoderEvent::Decrement)
            &&& s2 is None
            &&& s4 is None
        }),
{
}

/// A button that goes down outside the 20 ms of debouncing is a press, and its
/// time is remembered; held for more than half a second, its release is a long
/// press, else a release.
pub proof fn law_press(e: RotaryEncoder, now: u64, pins: Pins, later: u64, other: Pins)
    requires
        e.not_after(now),
        !e.last_btn_state,
        pins.button,
        now - e.btn_debounce_time > 20_000,
        later > now + 20_000,
        !other.button,
    ensures
        polled(e, now, pins).1 == Some(EncoderEvent::Press),
        polled(polled(e, now, pins).0, later, other).1 == Some(EncoderEvent::LongPress) <==> later
            - now > 500_000,
        polled(polled(e, now, pins).0, later, other).1 == Some(EncoderEvent::Release) <==> later
            - now <= 500_000,
{
}

/// Within the 20 ms of debouncing, and without a change, the button says nothing;
/// neither does a release whose press was not seen.
pub proof fn law_button_silence(e: RotaryEncoder, now: u64, pins: Pins)
    requires
        e.not_after(now),
        now - e.btn_debounce_time <= 20_000 || pins.button == e.last_btn_state || (!pins.button
            && e.btn_press_time is None),
    ensures
        polled(e, now, pins).1 != Some(EncoderEvent::Press),
        polled(e, now, pins).1 != Some(EncoderEvent::Release),
        polled(e, now, pins).1 != Some(EncoderEvent::LongPress),
{
}

/// What is remembered: a look at the rotation remembers both pins, one within the
/// 5 ms remembers nothing new, so that no edge is lost.
pub proof fn law_pins_are_remembered(e: RotaryEncoder, now: u64, pins: Pins)
    requires
        e.not_after(now),
        pins.button == e.last_btn_state,
    ensures
        now - e.last_event_time >= 5000 ==> polled(e, now, pins).0.last_a == pins.a && polled(
            e,
            now,
            pins,
        ).0.last_b == pins.b,
        now - e.last_event_time < 5000 ==> polled(e, now, pins).0 == e,
{
}

/// A poll reports a step for an edge of pin A, in the direction that pin B tells,
/// and the button for its changes, each outside its debouncing.
pub proof fn law_polls(e: &mut RotaryEncoder, now: u64, pins: Pins, event: Option<EncoderEvent>)
    requires
        old(e).not_after(now),
        call_ensures(RotaryEncoder::poll, (e, now, pins), event),
    ensures
        pins.button == old(e).last_btn_state ==> {
            &&& event == Some(EncoderEvent::Increment) <==> now - old(e).last_event_time >= 5000
                && pins.a != old(e).last_a && pins.a == pins.b
            &&& event == Some(EncoderEvent::Decrement) <==> now - old(e).last_event_time >= 5000
                && pins.a != old(e).last_a && pins.a != pins.b
        },
        event == Some(EncoderEvent::Press) <==> pins.button && !old(e).last_btn_state && now - old(
            e).btn_debounce_time > 20_000,
        event == Some(EncoderEvent::LongPress) ==> !pins.button && old(e).btn_press_time is Some
            && now - old(e).btn_press_time->0 > 500_000,
        event == Some(EncoderEvent::Release) ==> !pins.button && old(e).btn_press_time is Some
            && now - old(e).btn_press_time->0 <= 500_000,
{
    if pins.button == old(e).last_btn_state {
        law_steps(*old(e), now, pins);
    }
}

/// What a poll remembers: an event of the button leaves the rotation for the next
/// poll, a step its time and the level of pin A, and no event of either nothing of
/// its kind.
pub proof fn law_polls_remember(
    e: &mut RotaryEncoder,
    now: u64,
    pins: Pins,
    event: Option<EncoderEvent>,
)
    requires
        old(e).not_after(now),
        call_ensures(RotaryEncoder::poll, (e, now, pins), event),
    ensures
        ({
            let button = event == Some(EncoderEvent::Press) || event == Some(EncoderEvent::Release)
                || event == Some(EncoderEvent::LongPress);
            let step = event == Some(EncoderEvent::Increment) || event == Some(
                EncoderEvent::Decrement,
            );
            &&& button ==> final(e).last_a == old(e).last_a && final(e).last_b == old(e).last_b
                && final(e).last_event_time == old(e).last_event_time
            &&& button ==> final(e).last_btn_state == pins.button && final(e).btn_debounce_time
                == now
            &&& event == Some(EncoderEvent::Press) ==> final(e).btn_press_time == Some(now)
            &&& button && !pins.button ==> final(e).btn_press_time is None
            &&& step ==> final(e).last_event_time == now && final(e).last_a == pins.a
            &&& !step ==> final(e).last_event_time == old(e).last_event_time
            &&& now - old(e).btn_debounce_time <= 20_000 || pins.button == old(e).last_btn_state
                ==> final(e).last_btn_state == old(e).last_btn_state && final(e).btn_debounce_time
                == old(e).btn_debounce_time && final(e).btn_press_time == old(e).btn_press_time
            &&& now - old(e).btn_debounce_time > 20_000 && !pins.button && old(e).last_btn_state
                && old(e).btn_press_time is Some ==> button
        }),
{
}

/// An encoder starts from the levels that it sees, without an event.
pub proof fn law_start(now: u64, pins: Pins, e: RotaryEncoder)
    requires
        call_ensures(RotaryEncoder::new, (now, pins), e),
    ensures
        e.last_a == pins.a && e.last_b == pins.b && e.last_btn_state == pins.button,
        e.last_event_time == now && e.btn_debounce_time == now && e.btn_press_time is None,
{
}

} // verus!
