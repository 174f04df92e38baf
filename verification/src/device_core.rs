//! The core of most hardware devices: the values of its ports and the events that wait to be
//! picked up.
use std::collections::VecDeque;
use vstd::prelude::*;

use crate::config::ValueScaling;
use crate::text::{decimal, numbered};
use crate::value::{
    outcome, Event, EventKind, EventView, InputValue, InputValueType, OutputValue, Timestamp,
};

verus! {

/// One port of a device.
#[derive(Debug)]
pub struct CorePort {
    /// The value that was last read from or written to the port, or why that failed.
    value: Option<Result<InputValue, String>>,
    /// The kind of value that the port yields.
    value_type: InputValueType,
    /// The events that wait to be picked up, once somebody listens.
    events: Option<VecDeque<Event>>,
    /// Whether the listener wants to be woken by the next update.
    waiting: bool,
}

/// A port as contracts see it.
pub struct PortView {
    pub value: Option<Result<InputValue, Seq<char>>>,
    pub value_type: InputValueType,
    pub events: Option<Seq<EventView>>,
    pub waiting: bool,
}

/// The events of a queue, oldest first.
pub open spec fn event_views(events: Seq<Event>) -> Seq<EventView> {
    events.map_values(|e: Event| e@)
}

impl View for CorePort {
    type V = PortView;

    closed spec fn view(&self) -> PortView {
        PortView {
            value: match self.value {
                Some(value) => Some(outcome(value)),
                None => None,
            },
            value_type: self.value_type,
            events: match self.events {
                Some(queue) => Some(event_views(queue@)),
                None => None,
            },
            waiting: self.waiting,
        }
    }
}

/// The event that reports a new value or an error.
pub open spec fn report(ts: Timestamp, value: Result<InputValue, Seq<char>>) -> EventView {
    EventView {
        timestamp: ts,
        inner: match value {
            Ok(new_value) => Ok(EventKind::Update { new_value }),
            Err(message) => Err(message),
        },
    }
}

impl PortView {
    /// A port that nothing was read from and nobody listens to.
    pub open spec fn fresh(value_type: InputValueType) -> PortView {
        PortView { value: None, value_type, events: None, waiting: false }
    }

    /// Whether an update is reported to the listener. Errors and the first value always are. A
    /// value is, if it differs from the last one, unless such reports are suppressed.
    pub open spec fn reports(
        self,
        value: Result<InputValue, Seq<char>>,
        force_event: bool,
        suppress_update_event: bool,
    ) -> bool {
        match value {
            Err(_) => true,
            Ok(new_value) => force_event || match self.value {
                Some(Ok(old_value)) => !suppress_update_event && !old_value.equals(new_value),
                _ => true,
            },
        }
    }

    /// The port after an update. A port that nobody listens to is left alone.
    pub open spec fn updated(
        self,
        ts: Timestamp,
        value: Result<InputValue, Seq<char>>,
        force_event: bool,
        suppress_update_event: bool,
    ) -> PortView {
        match self.events {
            None => self,
            Some(queue) => PortView {
                value: Some(value),
                value_type: self.value_type,
                events: Some(
                    if self.reports(value, force_event, suppress_update_event) {
                        queue.push(report(ts, value))
                    } else {
                        queue
                    },
                ),
                waiting: false,
            },
        }
    }

    /// The port with one more event for its listener, if it has one. The listener is not woken.
    pub open spec fn with_event(self, event: EventView) -> PortView {
        match self.events {
            None => self,
            Some(queue) => PortView { events: Some(queue.push(event)), ..self },
        }
    }

    /// The port after somebody started to listen.
    pub open spec fn listened_to(self) -> PortView {
        PortView { events: Some(Seq::empty()), ..self }
    }

    /// The port after its listener asked for an event.
    pub open spec fn polled(self) -> PortView {
        match self.events {
            None => self,
            Some(queue) => if queue.len() == 0 {
                PortView { waiting: true, ..self }
            } else {
                PortView { events: Some(queue.drop_first()), ..self }
            },
        }
    }
}

/// The core of a device that is only read.
#[derive(Debug)]
pub struct DeviceReadCore {
    alias: String,
    ports: Vec<CorePort>,
}

impl View for DeviceReadCore {
    type V = Seq<PortView>;

    closed spec fn view(&self) -> Seq<PortView> {
        self.ports@.map_values(|p: CorePort| p@)
    }
}

/// All ports after the same update.
pub open spec fn all_updated(
    ports: Seq<PortView>,
    ts: Timestamp,
    value: Result<InputValue, Seq<char>>,
    force_event: bool,
    suppress_update_event: bool,
) -> Seq<PortView> {
    ports.map_values(|p: PortView| p.updated(ts, value, force_event, suppress_update_event))
}

impl DeviceReadCore {
    /// The alias of the device.
    pub closed spec fn alias_text(&self) -> Seq<char> {
        self.alias@
    }

    /// Creates a core with one port per entry of `value_types`.
    pub fn new(alias: String, value_types: &Vec<InputValueType>) -> (core: DeviceReadCore)
        ensures
            core@ == value_types@.map_values(|t: InputValueType| PortView::fresh(t)),
            core.alias_text() == alias@,
    {
        let mut ports: Vec<CorePort> = Vec::new();
        let mut i: usize = 0;
        while i < value_types.len()
            invariant
                i <= value_types@.len(),
                ports@.len() == i,
                forall|j: int|
                    0 <= j < i ==> (#[trigger] ports@[j])@ == PortView::fresh(value_types@[j]),
            decreases value_types.len() - i,
        {
            ports.push(
                CorePort { value: None, value_type: value_types[i], events: None, waiting: false },
            );
            i += 1;
        }
        let core = DeviceReadCore { alias, ports };
        assert(core@ =~= value_types@.map_values(|t: InputValueType| PortView::fresh(t)));
        core
    }

    /// Creates a core with `count` ports of the same type.
    pub fn uniform(alias: String, value_type: InputValueType, count: usize) -> (core:
        DeviceReadCore)
        ensures
            core@ == Seq::new(count as nat, |i: int| PortView::fresh(value_type)),
            core.alias_text() == alias@,
    {
        let mut value_types: Vec<InputValueType> = Vec::new();
        let mut i: usize = 0;
        while i < count
            invariant
                i <= count,
                value_types@ == Seq::new(i as nat, |j: int| value_type),
            decreases count - i,
        {
            value_types.push(value_type);
            i += 1;
            assert(value_types@ =~= Seq::new(i as nat, |j: int| value_type));
        }
        let core = DeviceReadCore::new(alias, &value_types);
        assert(core@ =~= Seq::new(count as nat, |i: int| PortView::fresh(value_type)));
        core
    }

    /// The alias of the device.
    pub fn alias(&self) -> (alias: String)
        ensures
            alias@ == self.alias_text(),
    {
        self.alias.clone()
    }

    /// The number of ports.
    pub fn len(&self) -> (len: usize)
        ensures
            len == self@.len(),
    {
        self.ports.len()
    }

    /// The value of a port that was last read successfully and not followed by an error.
    pub fn good_value(&self, index: usize) -> (value: Option<InputValue>)
        requires
            index < self@.len(),
        ensures
            value == (match self@[index as int].value {
                Some(Ok(v)) => Some(v),
                _ => None,
            }),
    {
        match &self.ports[index].value {
            Some(Ok(value)) => Some(*value),
            _ => None,
        }
    }

    /// The value of a port, or the error that replaced it.
    pub fn last_value(&self, index: usize) -> (value: Option<Result<InputValue, String>>)
        requires
            index < self@.len(),
        ensures
            self@[index as int].value == (match value {
                Some(v) => Some(outcome(v)),
                None => None,
            }),
    {
        match &self.ports[index].value {
            None => None,
            Some(Ok(value)) => Some(Ok(*value)),
            Some(Err(message)) => Some(Err(message.clone())),
        }
    }

    /// Whether somebody listens to a port.
    pub fn is_set_up(&self, index: usize) -> (set_up: bool)
        requires
            index < self@.len(),
        ensures
            set_up == self@[index as int].events is Some,
    {
        self.ports[index].events.is_some()
    }

    /// Whether the listener of a port wants to be woken.
    pub fn is_waiting(&self, index: usize) -> (waiting: bool)
        requires
            index < self@.len(),
        ensures
            waiting == self@[index as int].waiting,
    {
        self.ports[index].waiting
    }

    /// Starts to collect events for a port.
    pub fn set_up_events(&mut self, index: usize) -> (result: Result<(), String>)
        ensures
            final(self).alias_text() == old(self).alias_text(),
            index >= old(self)@.len() ==> {
                &&& outcome(result) == Err::<(), Seq<char>>(
                    "invalid index: "@ + decimal(index as nat),
                )
                &&& final(self)@ == old(self)@
            },
            index < old(self)@.len() && old(self)@[index as int].events is Some ==> {
                &&& outcome(result) == Err::<(), Seq<char>>(
                    "events already set up for index "@ + decimal(index as nat),
                )
                &&& final(self)@ == old(self)@
            },
            index < old(self)@.len() && old(self)@[index as int].events is None ==> {
                &&& result is Ok
                &&& final(self)@ == old(self)@.update(
                    index as int,
                    old(self)@[index as int].listened_to(),
                )
            },
    {
        if index >= self.ports.len() {
            return Err(numbered("invalid index: ", index as u64));
        }
        if self.ports[index].events.is_some() {
            return Err(numbered("events already set up for index ", index as u64));
        }
        self.ports[index].events = Some(VecDeque::new());
        proof {
            assert(event_views(Seq::<Event>::empty()) =~= Seq::<EventView>::empty());
            assert(self@ =~= old(self)@.update(
                index as int,
                old(self)@[index as int].listened_to(),
            ));
        }
        Ok(())
    }

    /// Picks up the oldest event of a port. If there is none, the port remembers that its
    /// listener wants to be woken.
    pub fn poll_events(&mut self, index: usize) -> (event: Option<Event>)
        requires
            index < old(self)@.len(),
            old(self)@[index as int].events is Some,
        ensures
            final(self).alias_text() == old(self).alias_text(),
            final(self)@ == old(self)@.update(index as int, old(self)@[index as int].polled()),
            ({
                let queue = old(self)@[index as int].events->0;
                match event {
                    Some(e) => queue.len() > 0 && e@ == queue[0],
                    None => queue.len() == 0,
                }
            }),
    {
        let port = &mut self.ports[index];
        let event: Option<Event> = match &mut port.events {
            Some(queue) => queue.pop_front(),
            None => None,
        };
        if event.is_none() {
            port.waiting = true;
        }
        proof {
            let queue = old(self).ports@[index as int].events->0;
            if event is Some {
                assert(event_views(queue@).drop_first() =~= event_views(queue@.drop_first()));
            }
            assert(self@ =~= old(self)@.update(index as int, old(self)@[index as int].polled()));
        }
        event
    }

    /// Adds an event for the listener of a port, without waking it.
    pub fn push_event(&mut self, index: usize, event: Event)
        requires
            index < old(self)@.len(),
        ensures
            final(self).alias_text() == old(self).alias_text(),
            final(self)@ == old(self)@.update(
                index as int,
                old(self)@[index as int].with_event(event@),
            ),
    {
        let ghost before = self.ports@[index as int];
        let ghost added = event;
        let port = &mut self.ports[index];
        match &mut port.events {
            Some(queue) => queue.push_back(event),
            None => {},
        }
        proof {
            if before.events is Some {
                let queue = before.events->0;
                assert(event_views(queue@.push(added)) =~= event_views(queue@).push(added@));
            }
            assert(self@ =~= old(self)@.update(
                index as int,
                old(self)@[index as int].with_event(added@),
            ));
        }
    }

    /// Stores a new value of a port and reports it, if that is due. Wakes the listener.
    pub fn update_value_and_generate_events(
        &mut self,
        ts: Timestamp,
        index: usize,
        value: Result<InputValue, String>,
        force_event: bool,
        suppress_update_event: bool,
    )
        requires
            index < old(self)@.len(),
        ensures
            final(self).alias_text() == old(self).alias_text(),
            final(self)@ == old(self)@.update(
                index as int,
                old(self)@[index as int].updated(
                    ts,
                    outcome(value),
                    force_event,
                    suppress_update_event,
                ),
            ),
    {
        let ghost before = self.ports@[index as int];
        let ghost new_value = value;
        let port = &mut self.ports[index];
        let generate_event: bool = match &value {
            Err(_) => true,
            Ok(new) => force_event || match &port.value {
                Some(Ok(old_value)) => !suppress_update_event && !old_value.same(*new),
                _ => true,
            },
        };
        match &mut port.events {
            None => {},
            Some(queue) => {
                let ghost queue_before = queue@;
                if generate_event {
                    let event = Event {
                        timestamp: ts,
                        inner: match &value {
                            Ok(new) => Ok(EventKind::Update { new_value: *new }),
                            Err(message) => Err(message.clone()),
                        },
                    };
                    let ghost pushed = event;
                    queue.push_back(event);
                    proof {
                        assert(pushed@ == report(ts, outcome(new_value)));
                        assert(event_views(queue_before.push(pushed)) =~= event_views(
                            queue_before,
                        ).push(pushed@));
                    }
                }
                port.value = Some(value);
                port.waiting = false;
            },
        }
        assert(self@ =~= old(self)@.update(
            index as int,
            old(self)@[index as int].updated(
                ts,
                outcome(new_value),
                force_event,
                suppress_update_event,
            ),
        ));
    }

    /// Puts the same error on all ports.
    pub fn set_error_on_all_ports(&mut self, ts: Timestamp, error_message: &str)
        ensures
            final(self).alias_text() == old(self).alias_text(),
            final(self)@ == all_updated(old(self)@, ts, Err(error_message@), true, false),
    {
        let len: usize = self.ports.len();
        let mut i: usize = 0;
        while i < len
            invariant
                i <= len,
                len == self@.len(),
                len == old(self)@.len(),
                self.alias_text() == old(self).alias_text(),
                forall|j: int|
                    0 <= j < i ==> self@[j] == old(self)@[j].updated(
                        ts,
                        Err(error_message@),
                        true,
                        false,
                    ),
                forall|j: int| i <= j < len ==> self@[j] == old(self)@[j],
            decreases len - i,
        {
            self.update_value_and_generate_events(
                ts,
                i,
                Err(error_message.to_owned()),
                true,
                false,
            );
            i += 1;
        }
        assert(self@ =~= all_updated(old(self)@, ts, Err(error_message@), true, false));
    }

    /// The generic alias of a port.
    pub fn port_alias(&self, port: u8) -> (result: Result<String, String>)
        ensures
            (port as int) < self@.len() ==> (result matches Ok(alias) && alias@ == "port-"@
                + decimal(port as nat)),
            (port as int) >= self@.len() ==> (result matches Err(message) && message@
                == "invalid port number"@),
    {
        if (port as usize) < self.ports.len() {
            Ok(numbered("port-", port as u64))
        } else {
            Err("invalid port number".to_owned())
        }
    }

    /// Starts to listen to a port, and tells what kind of values it yields. A port has one
    /// listener only.
    pub fn get_input_port(&mut self, port: u8) -> (result: Result<InputValueType, String>)
        requires
            (port as int) < old(self)@.len() ==> old(self)@[port as int].events is None,
        ensures
            final(self).alias_text() == old(self).alias_text(),
            (port as int) < old(self)@.len() ==> {
                &&& result == Ok::<InputValueType, String>(old(self)@[port as int].value_type)
                &&& final(self)@ == old(self)@.update(
                    port as int,
                    old(self)@[port as int].listened_to(),
                )
            },
            (port as int) >= old(self)@.len() ==> {
                &&& outcome(result) == Err::<InputValueType, Seq<char>>(
                    "invalid port: "@ + decimal(port as nat),
                )
                &&& final(self)@ == old(self)@
            },
    {
        if (port as usize) >= self.ports.len() {
            return Err(numbered("invalid port: ", port as u64));
        }
        let value_type: InputValueType = self.ports[port as usize].value_type;
        assert(value_type == self@[port as int].value_type);
        match self.set_up_events(port as usize) {
            Ok(()) => Ok(value_type),
            Err(message) => Err(message),
        }
    }
}

/// The core of a device whose outputs can be set.
///
/// Values are set in a buffer first. The buffer is dirty while it holds something that was not
/// written to the device yet. The error of an update that failed is kept until it is retrieved.
#[derive(Debug)]
pub struct DeviceRWCore {
    pub read_core: DeviceReadCore,
    pub buffered_values: Vec<OutputValue>,
    pub scalings: Vec<ValueScaling>,
    pub dirty: bool,
    /// The error of the last update that failed, if it was not retrieved yet.
    pub last_error: Option<String>,
}

/// The error that is kept after an update, which failed for the given reason or succeeded.
pub open spec fn error_after(kept: Option<Seq<char>>, failure: Option<Seq<char>>) -> Option<
    Seq<char>,
> {
    match failure {
        Some(message) => Some(message),
        None => kept,
    }
}

/// What is said of previous updates when the kept error is retrieved.
pub open spec fn retrieved(kept: Option<Seq<char>>) -> Result<(), Seq<char>> {
    match kept {
        Some(message) => Err(message),
        None => Ok(()),
    }
}

/// The ports after the values `new_values` were written to the first of them.
pub open spec fn values_written(
    ports: Seq<PortView>,
    new_values: Seq<OutputValue>,
    ts: Timestamp,
    force_events: bool,
    suppress_update_events: bool,
) -> Seq<PortView> {
    Seq::new(
        ports.len(),
        |i: int|
            if i < new_values.len() {
                ports[i].updated(
                    ts,
                    Ok(InputValue::Continuous(new_values[i])),
                    force_events,
                    suppress_update_events,
                )
            } else {
                ports[i]
            },
    )
}

impl DeviceRWCore {
    /// Every port has a buffered value and a scaling.
    pub open spec fn wf(&self) -> bool {
        &&& self.buffered_values@.len() == self.read_core@.len()
        &&& self.scalings@.len() == self.read_core@.len()
    }

    /// The error that is kept, if there is one.
    pub open spec fn error_text(&self) -> Option<Seq<char>> {
        match self.last_error {
            Some(message) => Some(message@),
            None => None,
        }
    }

    /// Creates a clean core with `count` ports, all set to zero.
    pub fn new(alias: String, count: usize, default_scaling: ValueScaling) -> (core: DeviceRWCore)
        ensures
            core.wf(),
            core.read_core@ == Seq::new(
                count as nat,
                |i: int| PortView::fresh(InputValueType::Continuous),
            ),
            core.read_core.alias_text() == alias@,
            core.buffered_values@ == Seq::new(count as nat, |i: int| 0u16),
            core.scalings@ == Seq::new(count as nat, |i: int| default_scaling),
            !core.dirty,
            core.last_error is None,
    {
        let mut buffered_values: Vec<OutputValue> = Vec::new();
        let mut scalings: Vec<ValueScaling> = Vec::new();
        let mut i: usize = 0;
        while i < count
            invariant
                i <= count,
                buffered_values@ == Seq::new(i as nat, |j: int| 0u16),
                scalings@ == Seq::new(i as nat, |j: int| default_scaling),
            decreases count - i,
        {
            buffered_values.push(0);
            scalings.push(default_scaling);
            i += 1;
            assert(buffered_values@ =~= Seq::new(i as nat, |j: int| 0u16));
            assert(scalings@ =~= Seq::new(i as nat, |j: int| default_scaling));
        }
        DeviceRWCore {
            read_core: DeviceReadCore::uniform(alias, InputValueType::Continuous, count),
            buffered_values,
            scalings,
            dirty: false,
            last_error: None,
        }
    }

    /// Creates a core like `new` does, but one whose values are to be written to the device.
    pub fn new_dirty(alias: String, count: usize, default_scaling: ValueScaling) -> (core:
        DeviceRWCore)
        ensures
            core.wf(),
            core.read_core@ == Seq::new(
                count as nat,
                |i: int| PortView::fresh(InputValueType::Continuous),
            ),
            core.read_core.alias_text() == alias@,
            core.buffered_values@ == Seq::new(count as nat, |i: int| 0u16),
            core.scalings@ == Seq::new(count as nat, |i: int| default_scaling),
            core.dirty,
            core.last_error is None,
    {
        let mut core = DeviceRWCore::new(alias, count, default_scaling);
        core.dirty = true;
        core
    }

    /// Sets a value in the buffer, which gets dirty if the value is a new one.
    pub fn set(&mut self, index: usize, value: OutputValue)
        requires
            old(self).wf(),
            index < old(self).buffered_values@.len(),
        ensures
            final(self).wf(),
            final(self).buffered_values@ == old(self).buffered_values@.update(index as int, value),
            final(self).dirty == (old(self).dirty || value != old(
                self,
            ).buffered_values@[index as int]),
            final(self).read_core == old(self).read_core,
            final(self).scalings == old(self).scalings,
            final(self).last_error == old(self).last_error,
    {
        let old_value: OutputValue = self.buffered_values[index];
        self.buffered_values[index] = value;
        if value != old_value {
            self.dirty = true;
        }
    }

    /// Takes the buffered values, their scalings, and whether the buffer was dirty. It is clean
    /// afterwards.
    pub fn take_values(&mut self) -> (taken: (Vec<OutputValue>, Vec<ValueScaling>, bool))
        requires
            old(self).wf(),
        ensures
            final(self).wf(),
            taken.0@ == old(self).buffered_values@,
            taken.1@ == old(self).scalings@,
            taken.2 == old(self).dirty,
            !final(self).dirty,
            final(self).buffered_values == old(self).buffered_values,
            final(self).scalings == old(self).scalings,
            final(self).read_core == old(self).read_core,
            final(self).last_error == old(self).last_error,
    {
        let values: Vec<OutputValue> = self.buffered_values.clone();
        let scalings: Vec<ValueScaling> = self.scalings.clone();
        let dirty: bool = self.dirty;
        self.dirty = false;
        assert(values@ =~= self.buffered_values@);
        assert(scalings@ =~= self.scalings@);
        (values, scalings, dirty)
    }

    /// Retrieves the error of the last update that failed, if that was not done before.
    pub fn update(&mut self) -> (result: Result<(), String>)
        ensures
            outcome(result) == retrieved(old(self).error_text()),
            final(self).last_error is None,
            final(self).read_core == old(self).read_core,
            final(self).buffered_values == old(self).buffered_values,
            final(self).scalings == old(self).scalings,
            final(self).dirty == old(self).dirty,
    {
        match self.last_error.take() {
            Some(message) => Err(message),
            None => Ok(()),
        }
    }

    /// Transfers what was written to the device to its ports, and reports it. After a failure the
    /// error is put on all ports and kept for the next call of `update`, and the buffer is dirty
    /// again, such that the values are written once more.
    pub fn finish_update(
        &mut self,
        new_values: Result<Vec<OutputValue>, String>,
        ts: Timestamp,
        force_events: bool,
        suppress_update_events: bool,
    )
        requires
            old(self).wf(),
            new_values matches Ok(values) ==> values@.len() <= old(self).read_core@.len(),
        ensures
            final(self).wf(),
            final(self).buffered_values == old(self).buffered_values,
            final(self).scalings == old(self).scalings,
            final(self).read_core.alias_text() == old(self).read_core.alias_text(),
            match new_values {
                Ok(values) => {
                    &&& final(self).read_core@ == values_written(
                        old(self).read_core@,
                        values@,
                        ts,
                        force_events,
                        suppress_update_events,
                    )
                    &&& final(self).dirty == old(self).dirty
                    &&& final(self).error_text() == error_after(old(self).error_text(), None)
                },
                Err(message) => {
                    &&& final(self).read_core@ == all_updated(
                        old(self).read_core@,
                        ts,
                        Err(message@),
                        true,
                        false,
                    )
                    &&& final(self).dirty
                    &&& final(self).error_text() == error_after(
                        old(self).error_text(),
                        Some(message@),
                    )
                },
            },
    {
        match new_values {
            Ok(values) => {
                let mut i: usize = 0;
                while i < values.len()
                    invariant
                        i <= values@.len(),
                        values@.len() <= old(self).read_core@.len(),
                        self.read_core@.len() == old(self).read_core@.len(),
                        self.read_core.alias_text() == old(self).read_core.alias_text(),
                        self.buffered_values == old(self).buffered_values,
                        self.scalings == old(self).scalings,
                        self.dirty == old(self).dirty,
                        self.last_error == old(self).last_error,
                        forall|j: int|
                            0 <= j < i ==> self.read_core@[j] == old(self).read_core@[j].updated(
                                ts,
                                Ok(InputValue::Continuous(values@[j])),
                                force_events,
                                suppress_update_events,
                            ),
                        forall|j: int|
                            i <= j < self.read_core@.len() ==> self.read_core@[j] == old(
                                self,
                            ).read_core@[j],
                    decreases values.len() - i,
                {
                    self.read_core.update_value_and_generate_events(
                        ts,
                        i,
                        Ok(InputValue::Continuous(values[i])),
                        force_events,
                        suppress_update_events,
                    );
                    i += 1;
                }
                assert(self.read_core@ =~= values_written(
                    old(self).read_core@,
                    values@,
                    ts,
                    force_events,
                    suppress_update_events,
                ));
            },
            Err(message) => {
                self.dirty = true;
                self.read_core.set_error_on_all_ports(ts, message.as_str());
                self.last_error = Some(message);
            },
        }
    }

    /// Starts to listen to an output, and sets its scaling, if one is given. An output has one
    /// listener only.
    pub fn get_output_port(&mut self, port: u8, scaling: Option<ValueScaling>) -> (result: Result<
        (),
        String,
    >)
        requires
            old(self).wf(),
            (port as int) < old(self).read_core@.len() ==> old(
                self,
            ).read_core@[port as int].events is None,
        ensures
            final(self).wf(),
            final(self).buffered_values == old(self).buffered_values,
            final(self).dirty == old(self).dirty,
            final(self).last_error == old(self).last_error,
            final(self).read_core.alias_text() == old(self).read_core.alias_text(),
            (port as int) < old(self).read_core@.len() ==> {
                &&& result is Ok
                &&& final(self).read_core@ == old(self).read_core@.update(
                    port as int,
                    old(self).read_core@[port as int].listened_to(),
                )
                &&& final(self).scalings@ == (match scaling {
                    Some(s) => old(self).scalings@.update(port as int, s),
                    None => old(self).scalings@,
                })
            },
            (port as int) >= old(self).read_core@.len() ==> {
                &&& outcome(result) == Err::<(), Seq<char>>(
                    "invalid port: "@ + decimal(port as nat),
                )
                &&& final(self).read_core@ == old(self).read_core@
                &&& final(self).scalings@ == old(self).scalings@
            },
    {
        if (port as usize) >= self.read_core.len() {
            return Err(numbered("invalid port: ", port as u64));
        }
        match scaling {
            Some(s) => {
                self.scalings[port as usize] = s;
            },
            None => {},
        }
        match self.read_core.set_up_events(port as usize) {
            Ok(()) => Ok(()),
            Err(message) => Err(message),
        }
    }
}

/// Any change of a port that somebody listens to is reported: a value that differs from the last
/// one adds exactly one event, which holds the new value.
pub proof fn law_changes_are_reported(
    port: PortView,
    ts: Timestamp,
    old_value: InputValue,
    new_value: InputValue,
    force_event: bool,
)
    requires
        port.events is Some,
        port.value == Some(Ok::<InputValue, Seq<char>>(old_value)),
        !old_value.equals(new_value),
    ensures
        port.updated(ts, Ok(new_value), force_event, false).events == Some(
            port.events->0.push(
                EventView { timestamp: ts, inner: Ok(EventKind::Update { new_value }) },
            ),
        ),
        port.updated(ts, Ok(new_value), force_event, false).value == Some(
            Ok::<InputValue, Seq<char>>(new_value),
        ),
{
}

/// A value that equals the last one is not reported again, unless that is forced.
pub proof fn law_repeated_values_are_silent(
    port: PortView,
    ts: Timestamp,
    old_value: InputValue,
    new_value: InputValue,
    suppress_update_event: bool,
)
    requires
        port.value == Some(Ok::<InputValue, Seq<char>>(old_value)),
        old_value.equals(new_value),
    ensures
        port.updated(ts, Ok(new_value), false, suppress_update_event).events == port.events,
{
}

/// Every error of a port that somebody listens to is reported, also one that repeats itself.
pub proof fn law_errors_are_reported(
    port: PortView,
    ts: Timestamp,
    message: Seq<char>,
    force_event: bool,
    suppress_update_event: bool,
)
    requires
        port.events is Some,
    ensures
        port.updated(ts, Err(message), force_event, suppress_update_event).events == Some(
            port.events->0.push(EventView { timestamp: ts, inner: Err(message) }),
        ),
{
}

/// Events are picked up in the order in which they were added: an event that is added behind
/// others is not reached before all of them were picked up.
pub proof fn law_events_keep_their_order(port: PortView, event: EventView)
    requires
        port.events matches Some(queue) && queue.len() > 0,
    ensures
        port.with_event(event).polled() == port.polled().with_event(event),
        (port.with_event(event).events->0)[0] == (port.events->0)[0],
{
    let queue = port.events->0;
    assert(queue.push(event).drop_first() =~= queue.drop_first().push(event));
}

/// A port that nobody listens to never changes.
pub proof fn law_unlistened_ports_stay(
    port: PortView,
    ts: Timestamp,
    value: Result<InputValue, Seq<char>>,
    force_event: bool,
    suppress_update_event: bool,
)
    requires
        port.events is None,
    ensures
        port.updated(ts, value, force_event, suppress_update_event) == port,
{
}

/// The error of an update that failed is retrieved by the next call that asks for it, whatever
/// succeeded in between. After that there is nothing to retrieve until another update fails.
pub proof fn law_failures_are_retrieved_once(kept: Option<Seq<char>>, message: Seq<char>)
    ensures
        retrieved(error_after(kept, Some(message))) == Err::<(), Seq<char>>(message),
        retrieved(error_after(error_after(kept, Some(message)), None)) == Err::<(), Seq<char>>(
            message,
        ),
        retrieved(error_after(None, None)) == Ok::<(), Seq<char>>(()),
{
}

/// Once new values were written to the hardware, each one that differs from the last is reported to
/// the listener of its output.
pub proof fn law_written_changes_are_reported(
    ports: Seq<PortView>,
    new_values: Seq<OutputValue>,
    ts: Timestamp,
    i: int,
    old_value: OutputValue,
)
    requires
        0 <= i < new_values.len() <= ports.len(),
        ports[i].events is Some,
        ports[i].value == Some(Ok::<InputValue, Seq<char>>(InputValue::Continuous(old_value))),
        old_value != new_values[i],
    ensures
        values_written(ports, new_values, ts, false, false)[i].events == Some(
            ports[i].events->0.push(report(ts, Ok(InputValue::Continuous(new_values[i])))),
        ),
{
}

/// An update of a port that somebody listens to stores the value and adds at most one event, with
/// the time of the update: always for an error, for a first value, for a value after an error, and
/// if it is forced; for another value if it differs from the last one and changes are not kept
/// back. The listener is woken.
pub proof fn law_update_is_stored_and_reported(
    port: PortView,
    ts: Timestamp,
    value: InputValue,
    message: Seq<char>,
    force_event: bool,
    suppress_update_event: bool,
)
    requires
        port.events is Some,
    ensures
        ({
            let good = port.updated(ts, Ok(value), force_event, suppress_update_event);
            let bad = port.updated(ts, Err(message), force_event, suppress_update_event);
            let told = port.events->0.push(
                EventView { timestamp: ts, inner: Ok(EventKind::Update { new_value: value }) },
            );
            let silent = !force_event && (port.value matches Some(Ok(last)) && (
            suppress_update_event || last.equals(value)));
            &&& good.value == Some(Ok::<InputValue, Seq<char>>(value))
            &&& good.events == Some(
                if silent {
                    port.events->0
                } else {
                    told
                },
            )
            &&& bad.value == Some(Err::<InputValue, Seq<char>>(message))
            &&& bad.events == Some(
                port.events->0.push(EventView { timestamp: ts, inner: Err(message) }),
            )
            &&& !good.waiting && !bad.waiting
            &&& good.value_type == port.value_type && bad.value_type == port.value_type
        }),
{
}

/// Whoever starts to listen to a port gets nothing that was there before. Whoever listens gets the
/// oldest event, and waits if there is none; the value of the port stays.
pub proof fn law_listening(port: PortView)
    ensures
        port.listened_to().events == Some(Seq::<EventView>::empty()),
        port.listened_to().value == port.value,
        port.listened_to().value_type == port.value_type,
        port.events matches Some(queue) ==> {
            let polled = port.polled();
            &&& polled.value == port.value
            &&& polled.value_type == port.value_type
            &&& queue.len() == 0 ==> polled.waiting && polled.events == Some(queue)
            &&& queue.len() > 0 ==> polled.waiting == port.waiting && polled.events == Some(
                queue.subrange(1, queue.len() as int),
            )
        },
{
}

/// Values that were written are put on the outputs in their order, and an error on all ports.
pub proof fn law_every_port_is_updated(
    ports: Seq<PortView>,
    new_values: Seq<OutputValue>,
    message: Seq<char>,
    ts: Timestamp,
    i: int,
)
    requires
        new_values.len() == ports.len(),
        0 <= i < ports.len(),
        ports[i].events is Some,
    ensures
        ({
            let written = values_written(ports, new_values, ts, false, false);
            let failed = all_updated(ports, ts, Err(message), true, false);
            &&& written.len() == ports.len()
            &&& failed.len() == ports.len()
            &&& written[i].value == Some(
                Ok::<InputValue, Seq<char>>(InputValue::Continuous(new_values[i])),
            )
            &&& failed[i].value == Some(Err::<InputValue, Seq<char>>(message))
            &&& failed[i].events == Some(
                ports[i].events->0.push(EventView { timestamp: ts, inner: Err(message) }),
            )
        }),
{
}

} // verus!
