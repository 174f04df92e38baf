//! Buttons that are attached to the sixteen pins of an expander.
use vstd::prelude::*;

use crate::bits::{digit, lemma_word_mask};
use crate::device_core::{DeviceReadCore, PortView};
use crate::value::{
    nanos_between, ButtonEvent, Event, EventKind, EventView, InputValue, Timestamp,
    NANOS_PER_SECOND,
};

verus! {

/// The number of pins of an expander.
pub const PIN_COUNT: usize = 16;

/// Whether the pin with the given number is set.
pub open spec fn pin_set(vals: u16, pin: int) -> bool {
    digit(vals as int, pin)
}

/// Puts two bytes of pins together: those of `high` come behind those of `low`.
pub fn join_pins(high: u8, low: u8) -> (vals: u16)
    ensures
        vals == high * 256 + low,
        forall|i: int| 0 <= i < 8 ==> #[trigger] pin_set(vals, i) == digit(low as int, i),
        forall|i: int| 8 <= i < 16 ==> #[trigger] pin_set(vals, i) == digit(high as int, i - 8),
{
    let vals: u16 = ((high as u16) << 8u16) | (low as u16);
    proof {
        lemma_joined_digits(high as u16, low as u16, vals);
    }
    vals
}

/// The digits of two bytes that were put together are those of the bytes.
pub proof fn lemma_joined_digits(high: u16, low: u16, vals: u16)
    by (bit_vector)
    requires
        high < 256,
        low < 256,
        vals == (high << 8u16) | low,
    ensures
        vals == high * 256 + low,
        (vals / 1 % 2 == 1) == (low / 1 % 2 == 1),
        (vals / 2 % 2 == 1) == (low / 2 % 2 == 1),
        (vals / 4 % 2 == 1) == (low / 4 % 2 == 1),
        (vals / 8 % 2 == 1) == (low / 8 % 2 == 1),
        (vals / 16 % 2 == 1) == (low / 16 % 2 == 1),
        (vals / 32 % 2 == 1) == (low / 32 % 2 == 1),
        (vals / 64 % 2 == 1) == (low / 64 % 2 == 1),
        (vals / 128 % 2 == 1) == (low / 128 % 2 == 1),
        (vals / 256 % 2 == 1) == (high / 1 % 2 == 1),
        (vals / 512 % 2 == 1) == (high / 2 % 2 == 1),
        (vals / 1024 % 2 == 1) == (high / 4 % 2 == 1),
        (vals / 2048 % 2 == 1) == (high / 8 % 2 == 1),
        (vals / 4096 % 2 == 1) == (high / 16 % 2 == 1),
        (vals / 8192 % 2 == 1) == (high / 32 % 2 == 1),
        (vals / 16384 % 2 == 1) == (high / 64 % 2 == 1),
        (vals / 32768 % 2 == 1) == (high / 128 % 2 == 1),
{
}

/// When a button was last pressed, and for how many full seconds it has been reported as held.
pub struct PressView {
    pub down: u64,
    pub down_secs: u64,
}

/// A button event at a point in time.
pub open spec fn button_event(ts: Timestamp, event: ButtonEvent) -> EventView {
    EventView { timestamp: ts, inner: Ok(EventKind::Button(event)) }
}

/// Whether a port holds the reading of a pressed button.
pub open spec fn was_pressed(port: PortView) -> bool {
    port.value == Some(Ok::<InputValue, Seq<char>>(InputValue::Binary(true)))
}

/// Whether a port holds a reading at all.
pub open spec fn has_reading(port: PortView) -> bool {
    port.value matches Some(Ok(_))
}

/// The events that a reading of a button adds, before its value is updated.
pub open spec fn button_events(
    port: PortView,
    press: PressView,
    pressed: bool,
    mono_ts: u64,
    ts: Timestamp,
) -> Seq<EventView> {
    let down_for = nanos_between(press.down, mono_ts);
    if !has_reading(port) {
        Seq::empty()
    } else if pressed && !was_pressed(port) {
        seq![button_event(ts, ButtonEvent::Down)]
    } else if !pressed && was_pressed(port) {
        seq![
            button_event(ts, ButtonEvent::Up),
            button_event(ts, ButtonEvent::Clicked { duration_nanos: down_for }),
        ]
    } else if pressed && down_for / NANOS_PER_SECOND > press.down_secs {
        seq![
            button_event(ts, ButtonEvent::LongPress { seconds: down_for / NANOS_PER_SECOND }),
        ]
    } else {
        Seq::empty()
    }
}

/// A port with more events for its listener, if it has one.
pub open spec fn with_events(port: PortView, events: Seq<EventView>) -> PortView {
    match port.events {
        None => port,
        Some(queue) => PortView { events: Some(queue + events), ..port },
    }
}

/// The port of a button after a reading.
pub open spec fn button_port(
    port: PortView,
    press: PressView,
    pressed: bool,
    mono_ts: u64,
    ts: Timestamp,
) -> PortView {
    with_events(port, button_events(port, press, pressed, mono_ts, ts)).updated(
        ts,
        Ok(InputValue::Binary(pressed)),
        false,
        false,
    )
}

/// What is remembered of a press after a reading.
pub open spec fn button_press(
    port: PortView,
    press: PressView,
    pressed: bool,
    mono_ts: u64,
) -> PressView {
    let held_secs = nanos_between(press.down, mono_ts) / NANOS_PER_SECOND;
    if has_reading(port) && pressed && !was_pressed(port) {
        PressView { down: mono_ts, down_secs: 0 }
    } else if has_reading(port) && pressed && held_secs > press.down_secs {
        PressView { down: press.down, down_secs: held_secs }
    } else {
        press
    }
}

/// Processes a reading of one button.
fn update_button(
    core: &mut DeviceReadCore,
    index: usize,
    pressed: bool,
    mono_ts: u64,
    real_ts: Timestamp,
    down: u64,
    down_secs: u64,
) -> (press: (u64, u64))
    requires
        index < old(core)@.len(),
    ensures
        final(core).alias_text() == old(core).alias_text(),
        final(core)@ == old(core)@.update(
            index as int,
            button_port(
                old(core)@[index as int],
                PressView { down, down_secs },
                pressed,
                mono_ts,
                real_ts,
            ),
        ),
        button_press(old(core)@[index as int], PressView { down, down_secs }, pressed, mono_ts) == (
        PressView { down: press.0, down_secs: press.1 }),
{
    let ghost port = core@[index as int];
    let ghost press = PressView { down, down_secs };
    let mut new_down: u64 = down;
    let mut new_down_secs: u64 = down_secs;
    match core.good_value(index) {
        Some(previous) => {
            let previously_pressed: bool = previous.same(InputValue::Binary(true));
            let down_for: u64 = if mono_ts >= down {
                mono_ts - down
            } else {
                0
            };
            if pressed && !previously_pressed {
                core.push_event(
                    index,
                    Event {
                        timestamp: real_ts,
                        inner: Ok(EventKind::Button(ButtonEvent::Down)),
                    },
                );
                new_down = mono_ts;
                new_down_secs = 0;
            } else if !pressed && previously_pressed {
                core.push_event(
                    index,
                    Event { timestamp: real_ts, inner: Ok(EventKind::Button(ButtonEvent::Up)) },
                );
                core.push_event(
                    index,
                    Event {
                        timestamp: real_ts,
                        inner: Ok(
                            EventKind::Button(ButtonEvent::Clicked { duration_nanos: down_for }),
                        ),
                    },
                );
            } else if pressed {
                let held_secs: u64 = down_for / NANOS_PER_SECOND;
                if held_secs > down_secs {
                    new_down_secs = held_secs;
                    core.push_event(
                        index,
                        Event {
                            timestamp: real_ts,
                            inner: Ok(
                                EventKind::Button(ButtonEvent::LongPress { seconds: held_secs }),
                            ),
                        },
                    );
                }
            }
        },
        None => {},
    }
    proof {
        if port.events is Some {
            assert(core@[index as int].events->0 =~= port.events->0 + button_events(
                port,
                press,
                pressed,
                mono_ts,
                real_ts,
            ));
        }
        assert(core@ =~= old(core)@.update(
            index as int,
            with_events(port, button_events(port, press, pressed, mono_ts, real_ts)),
        ));
    }
    core.update_value_and_generate_events(
        real_ts,
        index,
        Ok(InputValue::Binary(pressed)),
        false,
        false,
    );
    assert(core@ =~= old(core)@.update(
        index as int,
        button_port(port, press, pressed, mono_ts, real_ts),
    ));
    (new_down, new_down_secs)
}

/// Processes a reading of all sixteen buttons.
///
/// `vals` holds one bit per pin. `down` and `down_secs` hold, for each button, when it was last
/// pressed and for how many seconds it has been reported as held.
pub fn update_buttons(
    core: &mut DeviceReadCore,
    mono_ts: u64,
    real_ts: Timestamp,
    vals: u16,
    down: &mut [u64; 16],
    down_secs: &mut [u64; 16],
)
    requires
        old(core)@.len() == 16,
    ensures
        final(core).alias_text() == old(core).alias_text(),
        final(core)@ == Seq::new(
            16,
            |i: int|
                button_port(
                    old(core)@[i],
                    PressView { down: old(down)@[i], down_secs: old(down_secs)@[i] },
                    pin_set(vals, i),
                    mono_ts,
                    real_ts,
                ),
        ),
        forall|i: int|
            0 <= i < 16 ==> #[trigger] button_press(
                old(core)@[i],
                PressView { down: old(down)@[i], down_secs: old(down_secs)@[i] },
                pin_set(vals, i),
                mono_ts,
            ) == (PressView { down: final(down)@[i], down_secs: final(down_secs)@[i] }),
{
    let mut i: usize = 0;
    while i < PIN_COUNT
        invariant
            i <= 16,
            core@.len() == 16,
            old(core)@.len() == 16,
            core.alias_text() == old(core).alias_text(),
            forall|j: int|
                0 <= j < i ==> core@[j] == button_port(
                    old(core)@[j],
                    PressView { down: old(down)@[j], down_secs: old(down_secs)@[j] },
                    pin_set(vals, j),
                    mono_ts,
                    real_ts,
                ),
            forall|j: int| i <= j < 16 ==> core@[j] == old(core)@[j],
            forall|j: int|
                0 <= j < i ==> #[trigger] button_press(
                    old(core)@[j],
                    PressView { down: old(down)@[j], down_secs: old(down_secs)@[j] },
                    pin_set(vals, j),
                    mono_ts,
                ) == (PressView { down: down@[j], down_secs: down_secs@[j] }),
            forall|j: int|
                i <= j < 16 ==> down@[j] == old(down)@[j] && down_secs@[j] == old(down_secs)@[j],
        decreases 16 - i,
    {
        let pressed: bool = (vals & (1u16 << (i as u16))) != 0;
        proof {
            lemma_word_mask(vals, i as u16);
        }
        let (new_down, new_down_secs) = update_button(
            core,
            i,
            pressed,
            mono_ts,
            real_ts,
            down[i],
            down_secs[i],
        );
        down[i] = new_down;
        down_secs[i] = new_down_secs;
        i += 1;
    }
    assert(core@ =~= Seq::new(
        16,
        |i: int|
            button_port(
                old(core)@[i],
                PressView { down: old(down)@[i], down_secs: old(down_secs)@[i] },
                pin_set(vals, i),
                mono_ts,
                real_ts,
            ),
    ));
}

/// A button that is pressed and later released is reported as clicked, for as long as it was
/// held: the release reports `Up` and a click whose duration runs from the press.
pub proof fn law_click_spans_press_and_release(
    port: PortView,
    press: PressView,
    pressed_at: u64,
    released_at: u64,
    pressed_ts: Timestamp,
    released_ts: Timestamp,
)
    requires
        port.events is Some,
        has_reading(port),
        !was_pressed(port),
        pressed_at <= released_at,
    ensures
        button_events(port, press, true, pressed_at, pressed_ts) == seq![
            button_event(pressed_ts, ButtonEvent::Down),
        ],
        button_events(
            button_port(port, press, true, pressed_at, pressed_ts),
            button_press(port, press, true, pressed_at),
            false,
            released_at,
            released_ts,
        ) == seq![
            button_event(released_ts, ButtonEvent::Up),
            button_event(
                released_ts,
                ButtonEvent::Clicked { duration_nanos: (released_at - pressed_at) as u64 },
            ),
        ],
{
}

/// A held button is reported at most once per full second: after a long press was reported, a
/// reading within the same second of the press adds no event, and one in a later second adds one
/// with the larger number of seconds.
pub proof fn law_long_press_once_per_second(
    port: PortView,
    press: PressView,
    first_at: u64,
    second_at: u64,
    ts: Timestamp,
)
    requires
        port.events is Some,
        was_pressed(port),
        press.down <= first_at <= second_at,
    ensures
        ({
            let next_port = button_port(port, press, true, first_at, ts);
            let next_press = button_press(port, press, true, first_at);
            let events = button_events(next_port, next_press, true, second_at, ts);
            let first_secs = (first_at - press.down) as u64 / NANOS_PER_SECOND;
            let second_secs = (second_at - press.down) as u64 / NANOS_PER_SECOND;
            &&& second_secs == first_secs ==> events == Seq::<EventView>::empty()
            &&& second_secs > first_secs && second_secs > press.down_secs ==> events == seq![
                button_event(ts, ButtonEvent::LongPress { seconds: second_secs }),
            ]
        }),
{
}

/// A button that keeps its state when it is up adds no event.
pub proof fn law_idle_button_is_silent(
    port: PortView,
    press: PressView,
    mono_ts: u64,
    ts: Timestamp,
)
    requires
        port.value == Some(Ok::<InputValue, Seq<char>>(InputValue::Binary(false))),
    ensures
        button_port(port, press, false, mono_ts, ts).events == port.events,
        button_press(port, press, false, mono_ts) == press,
{
    if port.events is Some {
        assert(port.events->0 + Seq::<EventView>::empty() =~= port.events->0);
    }
}

/// A pin is set exactly if its bit is.
pub proof fn law_pin_is_its_bit(vals: u16, pin: u16)
    requires
        pin < 16,
    ensures
        pin_set(vals, pin as int) <==> vals & (1u16 << pin) != 0,
{
    lemma_word_mask(vals, pin);
}

/// What a reading of a button reports. A press is told as `Down`, a release as `Up` and a click of
/// as many nanoseconds as have passed since the press, and a button that is held once per full
/// second since the press. Then the new state is told, if it is another one. The first reading, or
/// one after an error, tells the state only.
pub proof fn law_reading_of_a_button(
    port: PortView,
    press: PressView,
    pressed: bool,
    mono_ts: u64,
    ts: Timestamp,
)
    requires
        port.events is Some,
        press.down <= mono_ts,
    ensures
        ({
            let after = button_port(port, press, pressed, mono_ts, ts);
            let remembered = button_press(port, press, pressed, mono_ts);
            let queue = port.events->0;
            let held = (mono_ts - press.down) as u64;
            let down = EventView { timestamp: ts, inner: Ok(EventKind::Button(ButtonEvent::Down)) };
            let up = EventView { timestamp: ts, inner: Ok(EventKind::Button(ButtonEvent::Up)) };
            let clicked = EventView {
                timestamp: ts,
                inner: Ok(EventKind::Button(ButtonEvent::Clicked { duration_nanos: held })),
            };
            let long = EventView {
                timestamp: ts,
                inner: Ok(
                    EventKind::Button(ButtonEvent::LongPress { seconds: held / 1_000_000_000 }),
                ),
            };
            let state = EventView {
                timestamp: ts,
                inner: Ok(EventKind::Update { new_value: InputValue::Binary(pressed) }),
            };
            &&& after.value == Some(Ok::<InputValue, Seq<char>>(InputValue::Binary(pressed)))
            &&& port.value == Some(Ok::<InputValue, Seq<char>>(InputValue::Binary(!pressed))) ==> {
                &&& pressed ==> after.events == Some(queue + seq![down, state])
                &&& pressed ==> remembered.down == mono_ts && remembered.down_secs == 0
                &&& !pressed ==> after.events == Some(queue + seq![up, clicked, state])
                &&& !pressed ==> remembered == press
            }
            &&& port.value == Some(Ok::<InputValue, Seq<char>>(InputValue::Binary(pressed))) ==> {
                &&& pressed && held / 1_000_000_000 > press.down_secs ==> {
                    &&& after.events == Some(queue + seq![long])
                    &&& remembered.down == press.down
                    &&& remembered.down_secs == held / 1_000_000_000
                }
                &&& !(pressed && held / 1_000_000_000 > press.down_secs) ==> {
                    &&& after.events == Some(queue)
                    &&& remembered == press
                }
            }
            &&& !(port.value matches Some(Ok(_))) ==> {
                &&& after.events == Some(queue.push(state))
                &&& remembered == press
            }
        }),
{
    let queue = port.events->0;
    let events = button_events(port, press, pressed, mono_ts, ts);
    assert(queue + Seq::<EventView>::empty() =~= queue);
    let after = button_port(port, press, pressed, mono_ts, ts);
    let state = EventView {
        timestamp: ts,
        inner: Ok(EventKind::Update { new_value: InputValue::Binary(pressed) }),
    };
    if port.value == Some(Ok::<InputValue, Seq<char>>(InputValue::Binary(!pressed))) {
        assert(after.events->0 =~= queue + events.push(state));
        assert(events.push(state) =~= if pressed {
            seq![events[0], state]
        } else {
            seq![events[0], events[1], state]
        });
    }
}

} // verus!
