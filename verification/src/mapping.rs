//! The mapping of the ports of hardware devices to virtual devices.
//!
//! A virtual device has an alias, tags and an address. No two of them have the same alias.
use vstd::prelude::*;
use vstd::string::StringExecFns;

use crate::config::{BaseMappingConfig, InputMappingConfig, OutputMappingConfig, ValueScaling};
use crate::device::{DeviceKind, DeviceType};
use crate::device_core::PortView;
use crate::failure::{failed, within, Failure};
use crate::text::{
    concatenated, contains_text, decimal, lowercase, lowercase_of, numbered, texts,
};
use crate::value::{
    outcome, Address, AddressedEvent, AddressedEventView, Event, EventKind, EventView, InputValue,
    InputValueType, OutputValue, Timestamp,
};

verus! {

/// A value, and when it was read or written.
#[derive(Debug)]
pub struct TimestampedInputValue {
    pub ts: Timestamp,
    pub value: Result<InputValue, String>,
}

/// A value with its time, as contracts see it.
pub struct TimestampedView {
    pub ts: Timestamp,
    pub value: Result<InputValue, Seq<char>>,
}

impl View for TimestampedInputValue {
    type V = TimestampedView;

    open spec fn view(&self) -> TimestampedView {
        TimestampedView { ts: self.ts, value: outcome(self.value) }
    }
}

/// A virtual device: a port that was mapped.
#[derive(Debug)]
pub struct PortState {
    pub port: u8,
    pub alias: String,
    pub tags: Vec<String>,
    pub address: Address,
    pub last_value: Option<TimestampedInputValue>,
}

/// A virtual device as contracts see it.
pub struct PortStateView {
    pub port: u8,
    pub alias: Seq<char>,
    pub tags: Seq<Seq<char>>,
    pub address: Address,
    pub last_value: Option<TimestampedView>,
}

impl View for PortState {
    type V = PortStateView;

    open spec fn view(&self) -> PortStateView {
        PortStateView {
            port: self.port,
            alias: self.alias@,
            tags: texts(self.tags@),
            address: self.address,
            last_value: match self.last_value {
                Some(value) => Some(value@),
                None => None,
            },
        }
    }
}

impl PortStateView {
    /// The virtual device after an event: updates and errors are remembered.
    pub open spec fn after_event(self, event: EventView) -> PortStateView {
        match event.inner {
            Ok(EventKind::Update { new_value }) => PortStateView {
                last_value: Some(TimestampedView { ts: event.timestamp, value: Ok(new_value) }),
                ..self
            },
            Ok(EventKind::Button(_)) => self,
            Err(message) => PortStateView {
                last_value: Some(TimestampedView { ts: event.timestamp, value: Err(message) }),
                ..self
            },
        }
    }

    /// The event that reports the last value.
    pub open spec fn current_event(self) -> Option<AddressedEventView> {
        match self.last_value {
            None => None,
            Some(last) => Some(
                AddressedEventView {
                    address: self.address,
                    event: EventView {
                        timestamp: last.ts,
                        inner: match last.value {
                            Ok(new_value) => Ok(EventKind::Update { new_value }),
                            Err(message) => Err(message),
                        },
                    },
                },
            ),
        }
    }
}

impl PortState {
    /// Remembers a value.
    pub fn update_last_value(&mut self, ts: Timestamp, val: Result<InputValue, String>)
        ensures
            final(self)@ == (PortStateView {
                last_value: Some(TimestampedView { ts, value: outcome(val) }),
                ..old(self)@
            }),
    {
        self.last_value = Some(TimestampedInputValue { ts, value: val });
    }

    /// Remembers the value that an event reports, if it reports one.
    pub fn handle_event(&mut self, event: &Event)
        ensures
            final(self)@ == old(self)@.after_event(event@),
    {
        match &event.inner {
            Ok(EventKind::Update { new_value }) => {
                self.update_last_value(event.timestamp, Ok(*new_value));
            },
            Ok(EventKind::Button(_)) => {},
            Err(message) => {
                self.update_last_value(event.timestamp, Err(message.clone()));
            },
        }
    }

    /// The event that reports the last value, if there is one.
    pub fn get_update_event_for_current_value(&self) -> (event: Option<AddressedEvent>)
        ensures
            match event {
                Some(e) => self@.current_event() == Some(e@),
                None => self@.current_event() is None,
            },
    {
        match &self.last_value {
            None => None,
            Some(last) => Some(
                AddressedEvent {
                    address: self.address,
                    event: Event {
                        timestamp: last.ts,
                        inner: match &last.value {
                            Ok(new_value) => Ok(EventKind::Update { new_value: *new_value }),
                            Err(message) => Err(message.clone()),
                        },
                    },
                },
            ),
        }
    }
}

/// A virtual device that is an input.
#[derive(Debug)]
pub struct InputPortState {
    pub port: PortState,
    pub value_type: InputValueType,
}

/// A virtual device that is an output.
#[derive(Debug)]
pub struct OutputPortState {
    pub port: PortState,
}

/// Why a device could not be mapped.
#[derive(Debug)]
pub enum MapError {
    /// The configuration cannot be used.
    Failed(Failure),
    /// A port is mapped twice under different aliases.
    PortMappedTwice(u8),
}

/// An error as contracts see it.
pub enum MapErrorView {
    Failed(Seq<Seq<char>>),
    PortMappedTwice(u8),
}

impl View for MapError {
    type V = MapErrorView;

    open spec fn view(&self) -> MapErrorView {
        match self {
            MapError::Failed(failure) => MapErrorView::Failed(failure@),
            MapError::PortMappedTwice(port) => MapErrorView::PortMappedTwice(*port),
        }
    }
}

impl MapErrorView {
    /// The error, with what was tried when it occurred.
    pub open spec fn within(self, context: Seq<char>) -> MapErrorView {
        match self {
            MapErrorView::Failed(failure) => MapErrorView::Failed(within(context, failure)),
            MapErrorView::PortMappedTwice(_) => self,
        }
    }
}

impl MapError {
    /// The error, with what was tried when it occurred.
    pub fn within(self, context: &str) -> (error: MapError)
        ensures
            error@ == self@.within(context@),
    {
        match self {
            MapError::Failed(failure) => MapError::Failed(failure.within(context)),
            MapError::PortMappedTwice(port) => MapError::PortMappedTwice(port),
        }
    }
}

/// Whether a tag is among some optional tags.
pub open spec fn has_tag(tags: Option<Vec<String>>, tag: Seq<char>) -> bool {
    match tags {
        Some(list) => texts(list@).contains(tag),
        None => false,
    }
}

/// Whether tags are those of a port and of its device, each of them once.
pub open spec fn are_tags_of(
    tags: Seq<Seq<char>>,
    port_tags: Option<Vec<String>>,
    device_tags: Option<Vec<String>>,
) -> bool {
    &&& tags.no_duplicates()
    &&& forall|tag: Seq<char>| #[trigger]
        tags.contains(tag) <==> has_tag(port_tags, tag) || has_tag(device_tags, tag)
}

fn add_tags(tags: &mut Vec<String>, more: &Option<Vec<String>>)
    requires
        texts(old(tags)@).no_duplicates(),
    ensures
        texts(final(tags)@).no_duplicates(),
        forall|tag: Seq<char>| #[trigger]
            texts(final(tags)@).contains(tag) <==> texts(old(tags)@).contains(tag) || has_tag(
                *more,
                tag,
            ),
{
    match more {
        None => {},
        Some(list) => {
            let ghost wanted = texts(list@);
            let ghost before = texts(tags@);
            let mut i: usize = 0;
            assert(wanted.take(0) =~= Seq::<Seq<char>>::empty());
            while i < list.len()
                invariant
                    i <= list@.len(),
                    wanted == texts(list@),
                    texts(tags@).no_duplicates(),
                    forall|tag: Seq<char>| #[trigger]
                        texts(tags@).contains(tag) <==> before.contains(tag) || wanted.take(
                            i as int,
                        ).contains(tag),
                decreases list.len() - i,
            {
                let ghost now = texts(tags@);
                let ghost added = wanted[i as int];
                assert(added == list@[i as int]@);
                assert(wanted.take(i + 1) =~= wanted.take(i as int).push(added));
                if !contains_text(tags, list[i].as_str()) {
                    tags.push(list[i].clone());
                    assert(texts(tags@) =~= now.push(added));
                    assert forall|tag: Seq<char>| #[trigger]
                        texts(tags@).contains(tag) <==> now.contains(tag) || tag == added by {
                        lemma_push_contains(now, added, tag);
                    }
                }
                assert forall|tag: Seq<char>| #[trigger]
                    texts(tags@).contains(tag) <==> before.contains(tag) || wanted.take(
                        i + 1,
                    ).contains(tag) by {
                    lemma_push_contains(wanted.take(i as int), added, tag);
                }
                i += 1;
            }
            assert(wanted.take(i as int) =~= wanted);
        },
    }
}

proof fn lemma_push_contains(s: Seq<Seq<char>>, x: Seq<char>, t: Seq<char>)
    ensures
        s.push(x).contains(t) <==> s.contains(t) || t == x,
{
    if s.contains(t) {
        let i = choose|i: int| 0 <= i < s.len() && s[i] == t;
        assert(s.push(x)[i] == t);
    }
    if t == x {
        assert(s.push(x)[s.len() as int] == t);
    }
    if s.push(x).contains(t) {
        let i = choose|i: int| 0 <= i < s.push(x).len() && s.push(x)[i] == t;
        if i < s.len() {
            assert(s[i] == t);
        }
    }
}

/// The tags of a port and of its device, each of them once.
pub fn all_tags(port_tags: &Option<Vec<String>>, device_tags: &Option<Vec<String>>) -> (tags: Vec<
    String,
>)
    ensures
        are_tags_of(texts(tags@), *port_tags, *device_tags),
{
    let mut tags: Vec<String> = Vec::new();
    assert(texts(tags@) =~= Seq::<Seq<char>>::empty());
    add_tags(&mut tags, port_tags);
    add_tags(&mut tags, device_tags);
    tags
}

/// The alias of a mapped port: the configured one, or one made of the alias of the device and the
/// generic alias of the port. Either way in lower case.
pub open spec fn chosen_alias(
    device_alias: Seq<char>,
    base: BaseMappingConfig,
    generic_port_alias: Seq<char>,
) -> Seq<char> {
    lowercase_of(
        match base.alias {
            Some(alias) => alias@,
            None => device_alias + "-"@ + generic_port_alias,
        },
    )
}

/// The alias of a mapped port of a device of the given kind.
pub open spec fn mapped_alias(
    device_alias: Seq<char>,
    kind: DeviceKind,
    base: BaseMappingConfig,
) -> Seq<char> {
    chosen_alias(device_alias, base, kind.generic_alias(base.port))
}

/// The aliases of the first `n` mapped ports.
pub open spec fn mapped_aliases(
    device_alias: Seq<char>,
    kind: DeviceKind,
    bases: Seq<BaseMappingConfig>,
    n: int,
) -> Seq<Seq<char>> {
    Seq::new(n as nat, |i: int| mapped_alias(device_alias, kind, bases[i]))
}

/// Whether one of the first `n` mappings has the given port.
pub open spec fn maps_port(bases: Seq<BaseMappingConfig>, n: int, port: u8) -> bool {
    exists|i: int| 0 <= i < n && (#[trigger] bases[i]).port == port
}

/// What is tried when a port is mapped.
pub open spec fn mapping_port(device_alias: Seq<char>, port: u8) -> Seq<char> {
    "unable to map input port "@ + device_alias + ":"@ + decimal(port as nat)
}

fn port_failure(device_alias: &str, port: u8, message: String) -> (failure: Failure)
    ensures
        failure@ == within(mapping_port(device_alias@, port), failed(message@)),
{
    let alias = concatenated("unable to map input port ", device_alias);
    let context = concatenated(alias.as_str(), ":");
    let context = numbered(context.as_str(), port as u64);
    Failure::new(message).within(context.as_str())
}

/// Whether mapping `k` gets its alias: its port exists, and the alias is not in use.
pub open spec fn gets_alias(
    kind: DeviceKind,
    device_alias: Seq<char>,
    taken: Seq<Seq<char>>,
    bases: Seq<BaseMappingConfig>,
    k: int,
) -> bool {
    let alias = mapped_alias(device_alias, kind, bases[k]);
    &&& bases[k].port < kind.port_count()
    &&& !taken.contains(alias)
    &&& !mapped_aliases(device_alias, kind, bases, k).contains(alias)
}

/// The aliases that were given when mapping `k` failed. If that got its alias before, it keeps it.
pub open spec fn aliases_before_failure(
    kind: DeviceKind,
    device_alias: Seq<char>,
    taken: Seq<Seq<char>>,
    bases: Seq<BaseMappingConfig>,
    k: int,
) -> Seq<Seq<char>> {
    mapped_aliases(
        device_alias,
        kind,
        bases,
        if gets_alias(kind, device_alias, taken, bases, k) {
            k + 1
        } else {
            k
        },
    )
}

/// What is wrong with mapping `k`, if all mappings before it are right. `taken` holds the aliases
/// that are in use already.
pub open spec fn mapping_error(
    kind: DeviceKind,
    input: bool,
    device_alias: Seq<char>,
    taken: Seq<Seq<char>>,
    bases: Seq<BaseMappingConfig>,
    k: int,
) -> Option<MapErrorView> {
    let port = bases[k].port;
    let alias = mapped_alias(device_alias, kind, bases[k]);
    if port >= kind.port_count() {
        Some(
            MapErrorView::Failed(
                within("unable to generate port alias"@, failed(kind.no_such_port())),
            ),
        )
    } else if taken.contains(alias) || mapped_aliases(device_alias, kind, bases, k).contains(
        alias,
    ) {
        Some(MapErrorView::Failed(failed("duplicate alias: "@ + alias)))
    } else if input && !kind.is_input(port) {
        Some(
            MapErrorView::Failed(
                within(mapping_port(device_alias, port), failed(DeviceKind::no_input())),
            ),
        )
    } else if !input && !kind.is_output(port) {
        Some(
            MapErrorView::Failed(
                within(mapping_port(device_alias, port), failed(DeviceKind::no_output())),
            ),
        )
    } else if maps_port(bases, k, port) {
        Some(MapErrorView::PortMappedTwice(port))
    } else {
        None
    }
}

/// All mappings are right.
pub open spec fn all_mappable(
    kind: DeviceKind,
    input: bool,
    device_alias: Seq<char>,
    taken: Seq<Seq<char>>,
    bases: Seq<BaseMappingConfig>,
) -> bool {
    forall|k: int|
        0 <= k < bases.len() ==> #[trigger] mapping_error(
            kind,
            input,
            device_alias,
            taken,
            bases,
            k,
        ) is None
}

/// Mapping `k` is the first one that is not right, for the given reason.
pub open spec fn first_unmappable(
    kind: DeviceKind,
    input: bool,
    device_alias: Seq<char>,
    taken: Seq<Seq<char>>,
    bases: Seq<BaseMappingConfig>,
    k: int,
    error: MapErrorView,
) -> bool {
    &&& 0 <= k < bases.len()
    &&& mapping_error(kind, input, device_alias, taken, bases, k) == Some(error)
    &&& forall|j: int|
        0 <= j < k ==> #[trigger] mapping_error(kind, input, device_alias, taken, bases, j) is None
}

/// Checks that an alias is not in use. `known` and `names` hold those that are.
pub fn claim_alias(known: &Vec<String>, names: &Vec<String>, alias: String) -> (result: Result<
    String,
    String,
>)
    ensures
        match result {
            Ok(claimed) => claimed@ == alias@ && !texts(known@).contains(alias@) && !texts(
                names@,
            ).contains(alias@),
            Err(message) => message@ == "duplicate alias: "@ + alias@ && (texts(known@).contains(
                alias@,
            ) || texts(names@).contains(alias@)),
        },
{
    if contains_text(known, alias.as_str()) || contains_text(names, alias.as_str()) {
        Err(concatenated("duplicate alias: ", alias.as_str()))
    } else {
        Ok(alias)
    }
}

/// Generates the alias of a port, which must be one that is not in use.
pub fn generate_port_alias(
    known: &Vec<String>,
    names: &Vec<String>,
    device_alias: &str,
    base: &BaseMappingConfig,
    generic_port_alias: &str,
) -> (result: Result<String, String>)
    ensures
        ({
            let alias = chosen_alias(device_alias@, *base, generic_port_alias@);
            match result {
                Ok(generated) => generated@ == alias && !texts(known@).contains(alias) && !texts(
                    names@,
                ).contains(alias),
                Err(message) => message@ == "duplicate alias: "@ + alias && (texts(known@).contains(
                    alias,
                ) || texts(names@).contains(alias)),
            }
        }),
{
    let alias: String = match &base.alias {
        Some(alias) => lowercase(alias.as_str()),
        None => {
            let mut alias = concatenated(device_alias, "-");
            alias.append(generic_port_alias);
            lowercase(alias.as_str())
        },
    };
    claim_alias(known, names, alias)
}

/// What the mappings of inputs have in common with those of outputs.
pub open spec fn input_bases(configs: Seq<InputMappingConfig>) -> Seq<BaseMappingConfig> {
    configs.map_values(|c: InputMappingConfig| c.base)
}

/// What the mappings of outputs have in common with those of inputs.
pub open spec fn output_bases(configs: Seq<OutputMappingConfig>) -> Seq<BaseMappingConfig> {
    configs.map_values(|c: OutputMappingConfig| c.base)
}

/// The inputs of a device after some of them were mapped.
pub open spec fn inputs_mapped(
    ports: Seq<PortView>,
    first_input: int,
    bases: Seq<BaseMappingConfig>,
) -> Seq<PortView>
    decreases bases.len(),
{
    if bases.len() == 0 {
        ports
    } else {
        let before = inputs_mapped(ports, first_input, bases.drop_last());
        let index = bases.last().port - first_input;
        before.update(index, before[index].listened_to())
    }
}

/// The outputs of a device as contracts see them.
pub struct OutputsView {
    pub ports: Seq<PortView>,
    pub values: Seq<OutputValue>,
    pub scalings: Seq<ValueScaling>,
    pub dirty: bool,
    pub last_error: Option<Seq<char>>,
}

/// The outputs of a device.
pub open spec fn outputs_of(device: DeviceType) -> OutputsView {
    match device.outputs() {
        Some(core) => OutputsView {
            ports: core.read_core@,
            values: core.buffered_values@,
            scalings: core.scalings@,
            dirty: core.dirty,
            last_error: core.error_text(),
        },
        None => OutputsView {
            ports: Seq::empty(),
            values: Seq::empty(),
            scalings: Seq::empty(),
            dirty: false,
            last_error: None,
        },
    }
}

/// The outputs of a device after one more of them was mapped.
pub open spec fn output_mapped(outputs: OutputsView, config: OutputMappingConfig) -> OutputsView {
    let port = config.base.port as int;
    OutputsView {
        ports: outputs.ports.update(port, outputs.ports[port].listened_to()),
        values: match config.default {
            Some(value) => outputs.values.update(port, value),
            None => outputs.values,
        },
        scalings: match config.scaling {
            Some(scaling) => outputs.scalings.update(port, scaling),
            None => outputs.scalings,
        },
        dirty: match config.default {
            Some(value) => outputs.dirty || value != outputs.values[port],
            None => outputs.dirty,
        },
        last_error: outputs.last_error,
    }
}

/// The outputs of a device after some of them were mapped.
pub open spec fn outputs_mapped(outputs: OutputsView, configs: Seq<OutputMappingConfig>)
    -> OutputsView
    decreases configs.len(),
{
    if configs.len() == 0 {
        outputs
    } else {
        output_mapped(outputs_mapped(outputs, configs.drop_last()), configs.last())
    }
}

/// The virtual device that a mapping leads to.
pub open spec fn is_mapped(
    state: PortStateView,
    device_alias: Seq<char>,
    kind: DeviceKind,
    base: BaseMappingConfig,
    device_tags: Option<Vec<String>>,
    address: int,
) -> bool {
    &&& state.port == base.port
    &&& state.alias == mapped_alias(device_alias, kind, base)
    &&& are_tags_of(state.tags, base.tags, device_tags)
    &&& state.address == address
    &&& state.last_value is None
}

/// Inputs that were mapped are listened to, and all others are as they were.
pub proof fn lemma_inputs_mapped(
    ports: Seq<PortView>,
    kind: DeviceKind,
    bases: Seq<BaseMappingConfig>,
)
    requires
        ports.len() == kind.port_count() - kind.first_input(),
        forall|i: int| 0 <= i < bases.len() ==> kind.is_input((#[trigger] bases[i]).port),
    ensures
        inputs_mapped(ports, kind.first_input(), bases).len() == ports.len(),
        forall|i: int|
            0 <= i < bases.len() ==> inputs_mapped(
                ports,
                kind.first_input(),
                bases,
            )[(#[trigger] bases[i]).port - kind.first_input()].events is Some,
        forall|j: int|
            0 <= j < ports.len() && !maps_port(
                bases,
                bases.len() as int,
                (j + kind.first_input()) as u8,
            ) ==> #[trigger] inputs_mapped(ports, kind.first_input(), bases)[j] == ports[j],
    decreases bases.len(),
{
    if bases.len() > 0 {
        let rest = bases.drop_last();
        assert forall|i: int| 0 <= i < rest.len() implies kind.is_input(
            (#[trigger] rest[i]).port,
        ) by {
            assert(rest[i] == bases[i]);
        }
        lemma_inputs_mapped(ports, kind, rest);
        let before = inputs_mapped(ports, kind.first_input(), rest);
        let after = inputs_mapped(ports, kind.first_input(), bases);
        let n = bases.len() - 1;
        assert(kind.is_input(bases[n].port));
        assert forall|i: int| 0 <= i < bases.len() implies after[(#[trigger] bases[i]).port
            - kind.first_input()].events is Some by {
            assert(kind.is_input(bases[i].port));
            if i < n {
                assert(rest[i] == bases[i]);
            }
        }
        assert forall|j: int|
            0 <= j < ports.len() && !maps_port(
                bases,
                bases.len() as int,
                (j + kind.first_input()) as u8,
            ) implies #[trigger] after[j] == ports[j] by {
            let port = (j + kind.first_input()) as u8;
            if maps_port(rest, n, port) {
                let i = choose|i: int| 0 <= i < n && (#[trigger] rest[i]).port == port;
                assert(bases[i].port == port);
            }
            assert(bases[n].port != port);
            assert(before[j] == ports[j]);
        }
    }
}

/// Outputs that were mapped are listened to, and all others are as they were.
pub proof fn lemma_outputs_mapped(outputs: OutputsView, configs: Seq<OutputMappingConfig>)
    requires
        forall|i: int|
            0 <= i < configs.len() ==> (#[trigger] configs[i]).base.port < outputs.ports.len(),
    ensures
        outputs_mapped(outputs, configs).ports.len() == outputs.ports.len(),
        forall|i: int|
            0 <= i < configs.len() ==> outputs_mapped(
                outputs,
                configs,
            ).ports[(#[trigger] configs[i]).base.port as int].events is Some,
        forall|j: int|
            0 <= j < outputs.ports.len() && !maps_port(
                output_bases(configs),
                configs.len() as int,
                j as u8,
            ) ==> #[trigger] outputs_mapped(outputs, configs).ports[j] == outputs.ports[j],
    decreases configs.len(),
{
    if configs.len() > 0 {
        let rest = configs.drop_last();
        assert forall|i: int| 0 <= i < rest.len() implies (#[trigger] rest[i]).base.port
            < outputs.ports.len() by {
            assert(rest[i] == configs[i]);
        }
        lemma_outputs_mapped(outputs, rest);
        let before = outputs_mapped(outputs, rest).ports;
        let after = outputs_mapped(outputs, configs).ports;
        let n = configs.len() - 1;
        assert(configs[n].base.port < outputs.ports.len());
        assert forall|i: int| 0 <= i < configs.len() implies after[(
        #[trigger] configs[i]).base.port as int].events is Some by {
            if i < n {
                assert(rest[i] == configs[i]);
            }
        }
        let bases = output_bases(configs);
        assert forall|j: int|
            0 <= j < outputs.ports.len() && !maps_port(
                bases,
                configs.len() as int,
                j as u8,
            ) implies #[trigger] after[j] == outputs.ports[j] by {
            if maps_port(output_bases(rest), n, j as u8) {
                let i = choose|i: int|
                    0 <= i < n && (#[trigger] output_bases(rest)[i]).port == j as u8;
                assert(bases[i].port == j as u8);
            }
            assert(bases[n] == configs[n].base);
            assert(configs[n].base.port != j as u8);
            assert(before[j] == outputs.ports[j]);
        }
    }
}

fn contains_port(ports: &Vec<u8>, port: u8) -> (found: bool)
    ensures
        found == ports@.contains(port),
{
    let mut i: usize = 0;
    while i < ports.len()
        invariant
            i <= ports@.len(),
            forall|j: int| 0 <= j < i ==> #[trigger] ports@[j] != port,
        decreases ports.len() - i,
    {
        if ports[i] == port {
            return true;
        }
        i += 1;
    }
    false
}

/// Maps inputs of a device, in the order of their configurations. Addresses are given in that
/// order, too, starting with `first_address`.
///
/// `known` and `names` hold the aliases in use; new ones are put into `names`. If a mapping fails,
/// those before it stay.
pub fn create_input_port_mappings(
    known: &Vec<String>,
    names: &mut Vec<String>,
    first_address: u16,
    device_alias: &str,
    device_tags: &Option<Vec<String>>,
    configs: &Vec<InputMappingConfig>,
    device: &mut DeviceType,
) -> (result: Result<Vec<InputPortState>, MapError>)
    requires
        old(device).wf(),
        old(device).kind().has_inputs(),
        old(device).inputs_unlistened(),
        first_address + configs@.len() <= 65535,
    ensures
        final(device).wf(),
        final(device).same_setup(*old(device)),
        final(device).same_outputs(*old(device)),
        ({
            let kind = old(device).kind();
            let bases = input_bases(configs@);
            let taken = texts(known@) + texts(old(names)@);
            match result {
                Ok(ports) => {
                    &&& all_mappable(kind, true, device_alias@, taken, bases)
                    &&& texts(final(names)@) == texts(old(names)@) + mapped_aliases(
                        device_alias@,
                        kind,
                        bases,
                        bases.len() as int,
                    )
                    &&& ports@.len() == configs@.len()
                    &&& forall|i: int|
                        0 <= i < ports@.len() ==> {
                            &&& is_mapped(
                                (#[trigger] ports@[i]).port@,
                                device_alias@,
                                kind,
                                bases[i],
                                *device_tags,
                                first_address + i,
                            )
                            &&& ports@[i].value_type == old(device).inputs()[bases[i].port
                                - kind.first_input()].value_type
                        }
                    &&& final(device).inputs() == inputs_mapped(
                        old(device).inputs(),
                        kind.first_input(),
                        bases,
                    )
                },
                Err(error) => exists|k: int| #[trigger]
                    first_unmappable(kind, true, device_alias@, taken, bases, k, error@)
                        && texts(final(names)@) == texts(old(names)@) + aliases_before_failure(
                        kind,
                        device_alias@,
                        taken,
                        bases,
                        k,
                    ) && final(device).inputs() == inputs_mapped(
                        old(device).inputs(),
                        kind.first_input(),
                        bases.take(k),
                    ),
            }
        }),
{
    let ghost kind = device.kind();
    let ghost bases = input_bases(configs@);
    let ghost taken = texts(known@) + texts(names@);
    let ghost given = texts(names@);
    let mut ports: Vec<InputPortState> = Vec::new();
    let mut mapped: Vec<u8> = Vec::new();
    let mut i: usize = 0;
    assert(given + mapped_aliases(device_alias@, kind, bases, 0) =~= given);
    assert(bases.take(0) =~= Seq::<BaseMappingConfig>::empty());
    while i < configs.len()
        invariant
            i <= configs@.len(),
            first_address + configs@.len() <= 65535,
            bases == input_bases(configs@),
            kind == old(device).kind(),
            kind.has_inputs(),
            old(device).wf(),
            old(device).inputs_unlistened(),
            device.wf(),
            device.kind() == kind,
            device.same_setup(*old(device)),
            device.same_outputs(*old(device)),
            device.inputs() == inputs_mapped(
                old(device).inputs(),
                kind.first_input(),
                bases.take(i as int),
            ),
            given == texts(old(names)@),
            taken == texts(known@) + given,
            texts(names@) == given + mapped_aliases(device_alias@, kind, bases, i as int),
            mapped@ == Seq::new(i as nat, |j: int| bases[j].port),
            ports@.len() == i,
            forall|j: int|
                0 <= j < i ==> #[trigger] mapping_error(
                    kind,
                    true,
                    device_alias@,
                    taken,
                    bases,
                    j,
                ) is None,
            forall|j: int|
                0 <= j < i ==> {
                    &&& is_mapped(
                        (#[trigger] ports@[j]).port@,
                        device_alias@,
                        kind,
                        bases[j],
                        *device_tags,
                        first_address + j,
                    )
                    &&& ports@[j].value_type == old(device).inputs()[bases[j].port
                        - kind.first_input()].value_type
                },
        decreases configs.len() - i,
    {
        let base: &BaseMappingConfig = &configs[i].base;
        let port: u8 = base.port;
        let ghost k = i as int;
        let ghost aliases = mapped_aliases(device_alias@, kind, bases, k);
        assert(*base == bases[k]);
        let generic: String = match device.port_alias(port) {
            Ok(alias) => alias,
            Err(message) => {
                let error = MapError::Failed(
                    Failure::new(message).within("unable to generate port alias"),
                );
                proof {
                    assert(first_unmappable(
                        kind,
                        true,
                        device_alias@,
                        taken,
                        bases,
                        k,
                        error@,
                    ));
                }
                return Err(error);
            },
        };
        let alias: String = match generate_port_alias(
            known,
            names,
            device_alias,
            base,
            generic.as_str(),
        ) {
            Ok(alias) => alias,
            Err(message) => {
                let error = MapError::Failed(Failure::new(message));
                proof {
                    let alias = mapped_alias(device_alias@, kind, *base);
                    lemma_concat_contains(given, aliases, alias);
                    lemma_concat_contains(texts(known@), given, alias);
                    assert(first_unmappable(
                        kind,
                        true,
                        device_alias@,
                        taken,
                        bases,
                        k,
                        error@,
                    ));
                }
                return Err(error);
            },
        };
        proof {
            lemma_concat_contains(given, aliases, alias@);
            lemma_concat_contains(texts(known@), given, alias@);
            lemma_ports_contain(bases, k, mapped@, port);
            lemma_all_inputs(kind, device_alias@, taken, bases, k);
            lemma_inputs_mapped(old(device).inputs(), kind, bases.take(k));
        }
        let ghost alias_text = alias@;
        let ghost known_names = texts(names@);
        names.push(alias.clone());
        proof {
            assert(texts(names@) =~= known_names.push(alias_text));
            assert(mapped_aliases(device_alias@, kind, bases, k + 1) =~= aliases.push(alias_text));
            assert(texts(names@) =~= given + mapped_aliases(device_alias@, kind, bases, k + 1));
            assert(gets_alias(kind, device_alias@, taken, bases, k));
        }
        if contains_port(&mapped, port) && is_input_port(device, port) {
            let error = MapError::PortMappedTwice(port);
            proof {
                assert(first_unmappable(
                    kind,
                    true,
                    device_alias@,
                    taken,
                    bases,
                    k,
                    error@,
                ));
            }
            return Err(error);
        }
        proof {
            if kind.is_input(port) {
                let index = port - kind.first_input();
                assert(!maps_port(bases.take(k), k, port)) by {
                    lemma_maps_port_prefix(bases, k, port);
                }
                assert((index + kind.first_input()) as u8 == port);
                assert(device.inputs()[index] == old(device).inputs()[index]);
            }
        }
        let value_type: InputValueType = match device.get_input_port(port) {
            Ok(value_type) => value_type,
            Err(message) => {
                let error = MapError::Failed(port_failure(device_alias, port, message));
                proof {
                    assert(first_unmappable(
                        kind,
                        true,
                        device_alias@,
                        taken,
                        bases,
                        k,
                        error@,
                    ));
                }
                return Err(error);
            },
        };
        let state = PortState {
            port,
            alias,
            tags: all_tags(&base.tags, device_tags),
            address: first_address + i as u16,
            last_value: None,
        };
        mapped.push(port);
        ports.push(InputPortState { port: state, value_type });
        proof {
            assert(mapping_error(kind, true, device_alias@, taken, bases, k) is None);
            assert(bases.take(k + 1).drop_last() =~= bases.take(k));
            assert(bases.take(k + 1).last() == bases[k]);
            assert(mapped@ =~= Seq::new((k + 1) as nat, |j: int| bases[j].port));
        }
        i += 1;
    }
    assert(bases.take(i as int) =~= bases);
    Ok(ports)
}

/// Maps outputs of a device, in the order of their configurations, and sets their scalings and
/// default values. Addresses are given in that order, too, starting with `first_address`.
///
/// `known` and `names` hold the aliases in use; new ones are put into `names`. If a mapping fails,
/// those before it stay.
pub fn create_output_port_mappings(
    known: &Vec<String>,
    names: &mut Vec<String>,
    first_address: u16,
    device_alias: &str,
    device_tags: &Option<Vec<String>>,
    configs: &Vec<OutputMappingConfig>,
    device: &mut DeviceType,
) -> (result: Result<Vec<OutputPortState>, MapError>)
    requires
        old(device).wf(),
        old(device).kind().has_outputs(),
        old(device).outputs_unlistened(),
        first_address + configs@.len() <= 65535,
    ensures
        final(device).wf(),
        final(device).same_setup(*old(device)),
        final(device).inputs() == old(device).inputs(),
        ({
            let kind = old(device).kind();
            let bases = output_bases(configs@);
            let taken = texts(known@) + texts(old(names)@);
            match result {
                Ok(ports) => {
                    &&& all_mappable(kind, false, device_alias@, taken, bases)
                    &&& texts(final(names)@) == texts(old(names)@) + mapped_aliases(
                        device_alias@,
                        kind,
                        bases,
                        bases.len() as int,
                    )
                    &&& ports@.len() == configs@.len()
                    &&& forall|i: int|
                        0 <= i < ports@.len() ==> is_mapped(
                            (#[trigger] ports@[i]).port@,
                            device_alias@,
                            kind,
                            bases[i],
                            *device_tags,
                            first_address + i,
                        )
                    &&& outputs_of(*final(device)) == outputs_mapped(
                        outputs_of(*old(device)),
                        configs@,
                    )
                },
                Err(error) => exists|k: int| #[trigger]
                    first_unmappable(kind, false, device_alias@, taken, bases, k, error@)
                        && texts(final(names)@) == texts(old(names)@) + aliases_before_failure(
                        kind,
                        device_alias@,
                        taken,
                        bases,
                        k,
                    ) && outputs_of(*final(device)) == outputs_mapped(
                        outputs_of(*old(device)),
                        configs@.take(k),
                    ),
            }
        }),
{
    let ghost kind = device.kind();
    let ghost bases = output_bases(configs@);
    let ghost taken = texts(known@) + texts(names@);
    let ghost given = texts(names@);
    let mut ports: Vec<OutputPortState> = Vec::new();
    let mut mapped: Vec<u8> = Vec::new();
    let mut i: usize = 0;
    assert(given + mapped_aliases(device_alias@, kind, bases, 0) =~= given);
    assert(configs@.take(0) =~= Seq::<OutputMappingConfig>::empty());
    while i < configs.len()
        invariant
            i <= configs@.len(),
            first_address + configs@.len() <= 65535,
            bases == output_bases(configs@),
            kind == old(device).kind(),
            kind.has_outputs(),
            old(device).wf(),
            old(device).outputs_unlistened(),
            device.wf(),
            device.kind() == kind,
            device.same_setup(*old(device)),
            device.inputs() == old(device).inputs(),
            outputs_of(*device) == outputs_mapped(
                outputs_of(*old(device)),
                configs@.take(i as int),
            ),
            given == texts(old(names)@),
            taken == texts(known@) + given,
            texts(names@) == given + mapped_aliases(device_alias@, kind, bases, i as int),
            mapped@ == Seq::new(i as nat, |j: int| bases[j].port),
            ports@.len() == i,
            forall|j: int|
                0 <= j < i ==> #[trigger] mapping_error(
                    kind,
                    false,
                    device_alias@,
                    taken,
                    bases,
                    j,
                ) is None,
            forall|j: int|
                0 <= j < i ==> is_mapped(
                    (#[trigger] ports@[j]).port@,
                    device_alias@,
                    kind,
                    bases[j],
                    *device_tags,
                    first_address + j,
                ),
        decreases configs.len() - i,
    {
        let base: &BaseMappingConfig = &configs[i].base;
        let port: u8 = base.port;
        let ghost k = i as int;
        let ghost aliases = mapped_aliases(device_alias@, kind, bases, k);
        assert(*base == bases[k]);
        let generic: String = match device.port_alias(port) {
            Ok(alias) => alias,
            Err(message) => {
                let error = MapError::Failed(
                    Failure::new(message).within("unable to generate port alias"),
                );
                proof {
                    assert(first_unmappable(
                        kind,
                        false,
                        device_alias@,
                        taken,
                        bases,
                        k,
                        error@,
                    ));
                }
                return Err(error);
            },
        };
        let alias: String = match generate_port_alias(
            known,
            names,
            device_alias,
            base,
            generic.as_str(),
        ) {
            Ok(alias) => alias,
            Err(message) => {
                let error = MapError::Failed(Failure::new(message));
                proof {
                    let alias = mapped_alias(device_alias@, kind, *base);
                    lemma_concat_contains(given, aliases, alias);
                    lemma_concat_contains(texts(known@), given, alias);
                    assert(first_unmappable(
                        kind,
                        false,
                        device_alias@,
                        taken,
                        bases,
                        k,
                        error@,
                    ));
                }
                return Err(error);
            },
        };
        proof {
            lemma_concat_contains(given, aliases, alias@);
            lemma_concat_contains(texts(known@), given, alias@);
            lemma_ports_contain(bases, k, mapped@, port);
            lemma_all_outputs(kind, device_alias@, taken, configs@, k);
            lemma_outputs_mapped(outputs_of(*old(device)), configs@.take(k));
        }
        let ghost alias_text = alias@;
        let ghost known_names = texts(names@);
        names.push(alias.clone());
        proof {
            assert(texts(names@) =~= known_names.push(alias_text));
            assert(mapped_aliases(device_alias@, kind, bases, k + 1) =~= aliases.push(alias_text));
            assert(texts(names@) =~= given + mapped_aliases(device_alias@, kind, bases, k + 1));
            assert(gets_alias(kind, device_alias@, taken, bases, k));
        }
        if contains_port(&mapped, port) && is_output_port(device, port) {
            let error = MapError::PortMappedTwice(port);
            proof {
                assert(first_unmappable(
                    kind,
                    false,
                    device_alias@,
                    taken,
                    bases,
                    k,
                    error@,
                ));
            }
            return Err(error);
        }
        proof {
            if kind.is_output(port) {
                assert(output_bases(configs@.take(k)) =~= bases.take(k));
                assert(!maps_port(bases.take(k), k, port)) by {
                    lemma_maps_port_prefix(bases, k, port);
                }
                assert(outputs_of(*device).ports[port as int] == outputs_of(
                    *old(device),
                ).ports[port as int]);
            }
        }
        match device.get_output_port(port, configs[i].scaling) {
            Ok(()) => {},
            Err(message) => {
                let error = MapError::Failed(port_failure(device_alias, port, message));
                proof {
                    assert(first_unmappable(
                        kind,
                        false,
                        device_alias@,
                        taken,
                        bases,
                        k,
                        error@,
                    ));
                }
                return Err(error);
            },
        }
        match configs[i].default {
            Some(value) => device.set_output(port, value),
            None => {},
        }
        let state = PortState {
            port,
            alias,
            tags: all_tags(&base.tags, device_tags),
            address: first_address + i as u16,
            last_value: None,
        };
        mapped.push(port);
        ports.push(OutputPortState { port: state });
        proof {
            assert(mapping_error(kind, false, device_alias@, taken, bases, k) is None);
            assert(configs@.take(k + 1).drop_last() =~= configs@.take(k));
            assert(configs@.take(k + 1).last() == configs@[k]);
            assert(outputs_of(*device) == outputs_mapped(
                outputs_of(*old(device)),
                configs@.take(k + 1),
            ));
            assert(mapped@ =~= Seq::new((k + 1) as nat, |j: int| bases[j].port));
        }
        i += 1;
    }
    assert(configs@.take(i as int) =~= configs@);
    Ok(ports)
}

proof fn lemma_all_outputs(
    kind: DeviceKind,
    device_alias: Seq<char>,
    taken: Seq<Seq<char>>,
    configs: Seq<OutputMappingConfig>,
    k: int,
)
    requires
        0 <= k <= configs.len(),
        kind.has_outputs(),
        forall|j: int|
            0 <= j < k ==> #[trigger] mapping_error(
                kind,
                false,
                device_alias,
                taken,
                output_bases(configs),
                j,
            ) is None,
    ensures
        forall|i: int|
            0 <= i < k ==> kind.is_output((#[trigger] configs.take(k)[i]).base.port),
{
    assert forall|i: int| 0 <= i < k implies kind.is_output(
        (#[trigger] configs.take(k)[i]).base.port,
    ) by {
        assert(mapping_error(kind, false, device_alias, taken, output_bases(configs), i) is None);
        assert(output_bases(configs)[i] == configs[i].base);
    }
}

fn is_input_port(device: &DeviceType, port: u8) -> (input: bool)
    requires
        device.kind().has_inputs(),
        port < device.kind().port_count(),
    ensures
        input == device.kind().is_input(port),
{
    match device {
        DeviceType::FanHeater(_) => port >= 5,
        _ => true,
    }
}

fn is_output_port(device: &DeviceType, port: u8) -> (output: bool)
    requires
        device.kind().has_outputs(),
        port < device.kind().port_count(),
    ensures
        output == device.kind().is_output(port),
{
    match device {
        DeviceType::FanHeater(_) => port < 5,
        _ => true,
    }
}

proof fn lemma_concat_contains(a: Seq<Seq<char>>, b: Seq<Seq<char>>, t: Seq<char>)
    ensures
        (a + b).contains(t) <==> a.contains(t) || b.contains(t),
{
    let s = a + b;
    if a.contains(t) {
        let i = choose|i: int| 0 <= i < a.len() && a[i] == t;
        assert(s[i] == t);
    }
    if b.contains(t) {
        let i = choose|i: int| 0 <= i < b.len() && b[i] == t;
        assert(s[a.len() + i] == t);
    }
    if s.contains(t) {
        let i = choose|i: int| 0 <= i < s.len() && s[i] == t;
        if i < a.len() {
            assert(a[i] == t);
        } else {
            assert(b[i - a.len()] == t);
        }
    }
}

proof fn lemma_ports_contain(bases: Seq<BaseMappingConfig>, k: int, ports: Seq<u8>, port: u8)
    requires
        0 <= k <= bases.len(),
        ports == Seq::new(k as nat, |j: int| bases[j].port),
    ensures
        ports.contains(port) <==> maps_port(bases, k, port),
{
    if ports.contains(port) {
        let i = choose|i: int| 0 <= i < ports.len() && ports[i] == port;
        assert(bases[i].port == port);
    }
    if maps_port(bases, k, port) {
        let i = choose|i: int| 0 <= i < k && (#[trigger] bases[i]).port == port;
        assert(ports[i] == port);
    }
}

proof fn lemma_maps_port_prefix(bases: Seq<BaseMappingConfig>, k: int, port: u8)
    requires
        0 <= k <= bases.len(),
    ensures
        maps_port(bases.take(k), k, port) <==> maps_port(bases, k, port),
{
    let prefix = bases.take(k);
    if maps_port(prefix, k, port) {
        let i = choose|i: int| 0 <= i < k && (#[trigger] prefix[i]).port == port;
        assert(bases[i].port == port);
    }
    if maps_port(bases, k, port) {
        let i = choose|i: int| 0 <= i < k && (#[trigger] bases[i]).port == port;
        assert(prefix[i].port == port);
    }
}

proof fn lemma_all_inputs(
    kind: DeviceKind,
    device_alias: Seq<char>,
    taken: Seq<Seq<char>>,
    bases: Seq<BaseMappingConfig>,
    k: int,
)
    requires
        0 <= k <= bases.len(),
        forall|j: int|
            0 <= j < k ==> #[trigger] mapping_error(kind, true, device_alias, taken, bases, j)
                is None,
    ensures
        forall|i: int| 0 <= i < k ==> kind.is_input((#[trigger] bases.take(k)[i]).port),
{
    assert forall|i: int| 0 <= i < k implies kind.is_input(
        (#[trigger] bases.take(k)[i]).port,
    ) by {
        assert(mapping_error(kind, true, device_alias, taken, bases, i) is None);
    }
}

/// A virtual device after some events, one after the other.
pub open spec fn after_events(state: PortStateView, events: Seq<EventView>) -> PortStateView
    decreases events.len(),
{
    if events.len() == 0 {
        state
    } else {
        after_events(state, events.drop_last()).after_event(events.last())
    }
}

/// Whether an event tells about a button, and not about a value.
pub open spec fn is_button_event(event: EventView) -> bool {
    event.inner matches Ok(EventKind::Button(_))
}

/// The current value of a virtual device is that of the last event that told one, with its time,
/// whatever was known before: the new value of an update, or the message of an error. Events of
/// buttons do not change it.
pub proof fn law_last_event_is_remembered(
    state: PortStateView,
    events: Seq<EventView>,
    last: int,
)
    requires
        0 <= last < events.len(),
        !is_button_event(events[last]),
        forall|i: int| last < i < events.len() ==> is_button_event(#[trigger] events[i]),
    ensures
        after_events(state, events).current_event() == Some(
            AddressedEventView { address: state.address, event: events[last] },
        ),
        same_but_value(after_events(state, events), state),
    decreases events.len(),
{
    let rest = events.drop_last();
    lemma_same_but_value(state, rest);
    if last == events.len() - 1 {
        assert(events.last() == events[last]);
        match events[last].inner {
            Ok(EventKind::Update { new_value }) => {},
            Ok(EventKind::Button(_)) => {},
            Err(message) => {},
        }
    } else {
        assert(is_button_event(events[events.len() - 1]));
        assert forall|i: int| last < i < rest.len() implies is_button_event(#[trigger] rest[i]) by {
            assert(rest[i] == events[i]);
        }
        law_last_event_is_remembered(state, rest, last);
    }
}

/// Whether two virtual devices differ in nothing but their values.
pub open spec fn same_but_value(a: PortStateView, b: PortStateView) -> bool {
    a.port == b.port && a.alias == b.alias && a.tags == b.tags && a.address == b.address
}

proof fn lemma_same_but_value(state: PortStateView, events: Seq<EventView>)
    ensures
        same_but_value(after_events(state, events), state),
    decreases events.len(),
{
    if events.len() > 0 {
        lemma_same_but_value(state, events.drop_last());
    }
}

/// As long as no event told a value, there is none.
pub proof fn law_no_value_without_an_event(state: PortStateView, events: Seq<EventView>)
    requires
        state.last_value is None,
        forall|i: int| 0 <= i < events.len() ==> is_button_event(#[trigger] events[i]),
    ensures
        after_events(state, events).current_event() is None,
        after_events(state, events).last_value is None,
    decreases events.len(),
{
    if events.len() > 0 {
        let rest = events.drop_last();
        assert forall|i: int| 0 <= i < rest.len() implies is_button_event(#[trigger] rest[i]) by {
            assert(rest[i] == events[i]);
        }
        law_no_value_without_an_event(state, rest);
        assert(is_button_event(events[events.len() - 1]));
    }
}

/// A configured alias is used as it is, but in lower case. Without one the alias is made of that of
/// the device, a hyphen, and the generic one of the port.
pub proof fn law_alias_of_a_port(
    device_alias: Seq<char>,
    kind: DeviceKind,
    base: BaseMappingConfig,
)
    ensures
        base.alias matches Some(alias) ==> mapped_alias(device_alias, kind, base) == lowercase_of(
            alias@,
        ),
        base.alias is None ==> mapped_alias(device_alias, kind, base) == lowercase_of(
            device_alias + "-"@ + kind.generic_alias(base.port),
        ),
{
}

/// A port can be mapped exactly if it exists, its alias is not in use, it goes in the asked
/// direction, and it was not mapped before.
pub proof fn law_what_can_be_mapped(
    kind: DeviceKind,
    input: bool,
    device_alias: Seq<char>,
    taken: Seq<Seq<char>>,
    bases: Seq<BaseMappingConfig>,
    k: int,
)
    requires
        0 <= k < bases.len(),
    ensures
        mapping_error(kind, input, device_alias, taken, bases, k) is None <==> {
            let alias = mapped_alias(device_alias, kind, bases[k]);
            &&& bases[k].port < kind.port_count()
            &&& !taken.contains(alias)
            &&& forall|j: int|
                0 <= j < k ==> mapped_alias(device_alias, kind, #[trigger] bases[j]) != alias
            &&& input ==> kind.is_input(bases[k].port)
            &&& !input ==> kind.is_output(bases[k].port)
            &&& forall|j: int| 0 <= j < k ==> (#[trigger] bases[j]).port != bases[k].port
        },
{
    let alias = mapped_alias(device_alias, kind, bases[k]);
    let before = mapped_aliases(device_alias, kind, bases, k);
    if before.contains(alias) {
        let j = choose|j: int| 0 <= j < before.len() && before[j] == alias;
        assert(mapped_alias(device_alias, kind, bases[j]) == alias);
    } else {
        assert forall|j: int| 0 <= j < k implies mapped_alias(
            device_alias,
            kind,
            #[trigger] bases[j],
        ) != alias by {
            assert(before[j] == mapped_alias(device_alias, kind, bases[j]));
        }
    }
    if maps_port(bases, k, bases[k].port) {
        let j = choose|j: int| 0 <= j < k && (#[trigger] bases[j]).port == bases[k].port;
        assert(bases[j].port == bases[k].port);
    }
}

/// Outputs that are mapped start with their default values and have their scalings; those without
/// keep what they have. Nobody has listened to them before, but somebody does so now.
pub proof fn law_mapped_outputs_get_defaults(
    outputs: OutputsView,
    configs: Seq<OutputMappingConfig>,
    i: int,
)
    requires
        outputs.values.len() == outputs.ports.len(),
        outputs.scalings.len() == outputs.ports.len(),
        forall|j: int|
            0 <= j < configs.len() ==> (#[trigger] configs[j]).base.port < outputs.ports.len(),
        forall|j: int, k: int|
            0 <= j < k < configs.len() ==> (#[trigger] configs[j]).base.port != (
            #[trigger] configs[k]).base.port,
        0 <= i < configs.len(),
    ensures
        ({
            let port = configs[i].base.port as int;
            let after = outputs_mapped(outputs, configs);
            &&& after.values.len() == outputs.values.len()
            &&& after.scalings.len() == outputs.scalings.len()
            &&& after.values[port] == (match configs[i].default {
                Some(value) => value,
                None => outputs.values[port],
            })
            &&& after.scalings[port] == (match configs[i].scaling {
                Some(scaling) => scaling,
                None => outputs.scalings[port],
            })
            &&& after.ports[port].events == Some(Seq::<EventView>::empty())
            &&& after.last_error == outputs.last_error
            &&& outputs.dirty ==> after.dirty
            &&& (configs[i].default matches Some(value) && value != outputs.values[port])
                ==> after.dirty
        }),
    decreases configs.len(),
{
    let rest = configs.drop_last();
    let n = configs.len() - 1;
    assert forall|j: int| 0 <= j < rest.len() implies (#[trigger] rest[j]).base.port
        < outputs.ports.len() by {
        assert(rest[j] == configs[j]);
    }
    assert(configs[i].base.port < outputs.ports.len());
    lemma_mapped_elsewhere(outputs, rest, configs[i].base.port as int);
    if i == n {
        assert forall|j: int| 0 <= j < rest.len() implies (#[trigger] rest[j]).base.port
            != configs[n].base.port by {
            assert(rest[j] == configs[j]);
        }
    } else {
        assert forall|j: int, k: int| 0 <= j < k < rest.len() implies (
        #[trigger] rest[j]).base.port != (#[trigger] rest[k]).base.port by {
            assert(rest[j] == configs[j] && rest[k] == configs[k]);
        }
        assert(rest[i] == configs[i]);
        law_mapped_outputs_get_defaults(outputs, rest, i);
        assert(configs[n].base.port < outputs.ports.len());
        assert(configs[i].base.port != configs[n].base.port);
    }
}

proof fn lemma_mapped_elsewhere(
    outputs: OutputsView,
    configs: Seq<OutputMappingConfig>,
    port: int,
)
    requires
        outputs.values.len() == outputs.ports.len(),
        outputs.scalings.len() == outputs.ports.len(),
        forall|j: int|
            0 <= j < configs.len() ==> (#[trigger] configs[j]).base.port < outputs.ports.len(),
        0 <= port < outputs.ports.len(),
    ensures
        ({
            let after = outputs_mapped(outputs, configs);
            &&& after.values.len() == outputs.values.len()
            &&& after.scalings.len() == outputs.scalings.len()
            &&& after.ports.len() == outputs.ports.len()
            &&& after.last_error == outputs.last_error
            &&& outputs.dirty ==> after.dirty
            &&& (forall|j: int|
                0 <= j < configs.len() ==> (#[trigger] configs[j]).base.port != port) ==> {
                &&& after.values[port] == outputs.values[port]
                &&& after.scalings[port] == outputs.scalings[port]
            }
        }),
    decreases configs.len(),
{
    if configs.len() > 0 {
        let rest = configs.drop_last();
        assert(configs[configs.len() - 1].base.port < outputs.ports.len());
        assert forall|j: int| 0 <= j < rest.len() implies (#[trigger] rest[j]).base.port
            < outputs.ports.len() by {
            assert(rest[j] == configs[j]);
        }
        lemma_mapped_elsewhere(outputs, rest, port);
        if forall|j: int| 0 <= j < configs.len() ==> (#[trigger] configs[j]).base.port != port {
            assert forall|j: int| 0 <= j < rest.len() implies (#[trigger] rest[j]).base.port
                != port by {
                assert(rest[j] == configs[j]);
            }
            assert(configs[configs.len() - 1].base.port != port);
        }
    }
}

/// What is said of a mapping that is not right. A port that does not exist comes first, then an
/// alias that is in use, then a port of the other direction, and last one that is mapped already.
pub proof fn law_what_is_said_of_a_mapping(
    kind: DeviceKind,
    input: bool,
    device_alias: Seq<char>,
    taken: Seq<Seq<char>>,
    bases: Seq<BaseMappingConfig>,
    k: int,
)
    requires
        0 <= k < bases.len(),
    ensures
        ({
            let port = bases[k].port;
            let alias = mapped_alias(device_alias, kind, bases[k]);
            let error = mapping_error(kind, input, device_alias, taken, bases, k);
            let tried = "unable to map input port "@ + device_alias + ":"@ + decimal(port as nat);
            let used = taken.contains(alias) || exists|j: int|
                0 <= j < k && mapped_alias(device_alias, kind, #[trigger] bases[j]) == alias;
            let fits = if input {
                kind.is_input(port)
            } else {
                kind.is_output(port)
            };
            &&& port >= kind.port_count() ==> error == Some(
                MapErrorView::Failed(seq!["unable to generate port alias"@, kind.no_such_port()]),
            )
            &&& port < kind.port_count() && used ==> error == Some(
                MapErrorView::Failed(seq!["duplicate alias: "@ + alias]),
            )
            &&& port < kind.port_count() && !used && !fits && input ==> error == Some(
                MapErrorView::Failed(
                    seq![
                        tried,
                        "Fan/Heater boards have two readonly ports: 5=>fan-i2c-disabled, 6=>heater-disabled"@,
                    ],
                ),
            )
            &&& port < kind.port_count() && !used && !fits && !input ==> error == Some(
                MapErrorView::Failed(seq![tried, "Fan/Heater boards have 5 I/O ports"@]),
            )
            &&& port < kind.port_count() && !used && fits && error is Some ==> error == Some(
                MapErrorView::PortMappedTwice(port),
            )
        }),
{
    let port = bases[k].port;
    let alias = mapped_alias(device_alias, kind, bases[k]);
    let before = mapped_aliases(device_alias, kind, bases, k);
    if before.contains(alias) {
        let j = choose|j: int| 0 <= j < before.len() && before[j] == alias;
        assert(mapped_alias(device_alias, kind, bases[j]) == alias);
    } else {
        assert forall|j: int| 0 <= j < k implies mapped_alias(
            device_alias,
            kind,
            #[trigger] bases[j],
        ) != alias by {
            assert(before[j] == mapped_alias(device_alias, kind, bases[j]));
        }
    }
    assert(within("unable to generate port alias"@, failed(kind.no_such_port())) =~= seq![
        "unable to generate port alias"@,
        kind.no_such_port(),
    ]);
    let tried = mapping_port(device_alias, port);
    assert(within(tried, failed(DeviceKind::no_input())) =~= seq![tried, DeviceKind::no_input()]);
    assert(within(tried, failed(DeviceKind::no_output())) =~= seq![
        tried,
        DeviceKind::no_output(),
    ]);
}

/// A mapped port has the tags of its own configuration and those of its device, and no others.
pub proof fn law_tags_of_a_mapped_port(
    state: PortStateView,
    device_alias: Seq<char>,
    kind: DeviceKind,
    base: BaseMappingConfig,
    device_tags: Option<Vec<String>>,
    address: int,
    i: int,
)
    requires
        is_mapped(state, device_alias, kind, base, device_tags, address),
    ensures
        (base.tags matches Some(tags) && 0 <= i < tags@.len()) ==> state.tags.contains(
            base.tags->0@[i]@,
        ),
        (device_tags matches Some(tags) && 0 <= i < tags@.len()) ==> state.tags.contains(
            device_tags->0@[i]@,
        ),
        0 <= i < state.tags.len() ==> has_tag(base.tags, state.tags[i]) || has_tag(
            device_tags,
            state.tags[i],
        ),
        (base.tags is None && device_tags is None) ==> state.tags.len() == 0,
{
    match base.tags {
        Some(tags) => {
            if 0 <= i < tags@.len() {
                assert(texts(tags@)[i] == tags@[i]@);
                assert(has_tag(base.tags, tags@[i]@));
            }
        },
        None => {},
    }
    match device_tags {
        Some(tags) => {
            if 0 <= i < tags@.len() {
                assert(texts(tags@)[i] == tags@[i]@);
                assert(has_tag(device_tags, tags@[i]@));
            }
        },
        None => {},
    }
    if 0 <= i < state.tags.len() {
        assert(state.tags.contains(state.tags[i]));
    }
    if base.tags is None && device_tags is None && state.tags.len() > 0 {
        assert(state.tags.contains(state.tags[0]));
    }
}

/// The aliases that are given when a mapping fails are those of the mappings before it, and its own
/// one if its port exists and nobody else has it.
pub proof fn law_aliases_given_before_a_failure(
    kind: DeviceKind,
    device_alias: Seq<char>,
    taken: Seq<Seq<char>>,
    bases: Seq<BaseMappingConfig>,
    k: int,
    i: int,
)
    requires
        0 <= k < bases.len(),
        0 <= i <= k,
    ensures
        ({
            let given = aliases_before_failure(kind, device_alias, taken, bases, k);
            let alias = mapped_alias(device_alias, kind, bases[k]);
            let free = bases[k].port < kind.port_count() && !taken.contains(alias) && forall|j: int|
                0 <= j < k ==> mapped_alias(device_alias, kind, #[trigger] bases[j]) != alias;
            &&& i < k ==> given[i] == mapped_alias(device_alias, kind, bases[i])
            &&& given.len() == k + 1 <==> free
            &&& given.len() == k || given.len() == k + 1
            &&& free ==> given[k] == alias
        }),
{
    let alias = mapped_alias(device_alias, kind, bases[k]);
    let before = mapped_aliases(device_alias, kind, bases, k);
    if before.contains(alias) {
        let j = choose|j: int| 0 <= j < before.len() && before[j] == alias;
        assert(mapped_alias(device_alias, kind, bases[j]) == alias);
    } else {
        assert forall|j: int| 0 <= j < k implies mapped_alias(
            device_alias,
            kind,
            #[trigger] bases[j],
        ) != alias by {
            assert(before[j] == mapped_alias(device_alias, kind, bases[j]));
        }
    }
}

} // verus!
