//! All hardware devices, and the virtual devices that are mapped to their ports.
//!
//! Virtual devices live in a 16-bit address space. Addresses start with 1 and are given in the
//! order in which devices and their ports are configured.
use vstd::prelude::*;

use crate::config::{BaseMappingConfig, DeviceConfig, InputMappingConfig, OutputMappingConfig};
use crate::device::{law_every_port_has_one_direction, DeviceKind, DeviceType, PublicDeviceType};
use crate::failure::{failed, within, Failure};
use crate::mapping::{
    after_events, all_mappable, all_tags, are_tags_of, claim_alias, create_input_port_mappings,
    create_output_port_mappings, first_unmappable, input_bases, inputs_mapped, is_button_event,
    is_mapped, law_last_event_is_remembered, law_what_can_be_mapped, lemma_inputs_mapped,
    lemma_outputs_mapped, mapped_alias, mapped_aliases, mapping_error, output_bases, outputs_mapped,
    outputs_of, InputPortState, MapError, MapErrorView, OutputPortState, OutputsView, PortState,
    PortStateView, TimestampedView,
};
use crate::text::{
    concatenated, decimal, lowercase, lowercase_of, numbered, same_text, texts,
};
use crate::value::{
    outcome, Address, AddressedEvent, AddressedEventView, Event, EventKind, EventView, InputValue,
    InputValueType, OutputValue, Timestamp,
};

verus! {

/// A hardware device with its virtual devices.
#[derive(Debug)]
pub struct HardwareDeviceState {
    pub alias: String,
    pub tags: Vec<String>,
    pub device: DeviceType,
    pub input_ports: Vec<InputPortState>,
    pub output_ports: Vec<OutputPortState>,
}

/// Where a virtual device is found.
#[derive(Clone, Copy, Debug, PartialEq, Eq, Structural)]
pub struct Route {
    pub device: usize,
    pub output: bool,
    pub index: usize,
}

/// What is to be done after an update of all devices.
#[derive(Debug)]
pub struct Updates {
    /// The devices that have to be told to update.
    pub notify: Vec<usize>,
    /// What is to be logged of previous updates that failed.
    pub failures: Vec<String>,
}

/// The state of all devices.
#[derive(Debug)]
pub struct UniverseState {
    pub version: u64,
    pub devices: Vec<HardwareDeviceState>,
    /// The aliases in use.
    pub aliases: Vec<String>,
    /// The routes to all virtual devices, in the order of their addresses.
    pub routes: Vec<Route>,
}

impl HardwareDeviceState {
    /// The virtual devices, inputs first.
    pub open spec fn port_views(self) -> Seq<PortStateView> {
        self.input_ports@.map_values(|p: InputPortState| p.port@) + self.output_ports@.map_values(
            |p: OutputPortState| p.port@,
        )
    }

    /// The alias of the device, and those of its virtual devices.
    pub open spec fn names(self) -> Seq<Seq<char>> {
        seq![self.alias@] + self.port_views().map_values(|p: PortStateView| p.alias)
    }

    /// The device is in order. Somebody listens to every port that is mapped, and no port is mapped
    /// twice.
    pub open spec fn wf(self) -> bool {
        let kind = self.device.kind();
        &&& self.device.wf()
        &&& forall|i: int|
            0 <= i < self.input_ports@.len() ==> kind.is_input(
                (#[trigger] self.input_ports@[i]).port.port,
            ) && self.device.inputs()[self.input_ports@[i].port.port - kind.first_input()].events
                is Some
        &&& forall|i: int|
            0 <= i < self.output_ports@.len() ==> kind.is_output(
                (#[trigger] self.output_ports@[i]).port.port,
            ) && self.device.output_ports()[self.output_ports@[i].port.port as int].events is Some
        &&& forall|i: int, j: int|
            0 <= i < j < self.input_ports@.len() ==> (
            #[trigger] self.input_ports@[i]).port.port != (
            #[trigger] self.input_ports@[j]).port.port
        &&& forall|i: int, j: int|
            0 <= i < j < self.output_ports@.len() ==> (
            #[trigger] self.output_ports@[i]).port.port != (
            #[trigger] self.output_ports@[j]).port.port
    }

    /// Whether there is a virtual device with the given index.
    pub open spec fn has_port(self, output: bool, index: int) -> bool {
        0 <= index < (if output {
            self.output_ports@.len()
        } else {
            self.input_ports@.len()
        })
    }

    /// A virtual device.
    pub open spec fn port(self, output: bool, index: int) -> PortStateView {
        if output {
            self.output_ports@[index].port@
        } else {
            self.input_ports@[index].port@
        }
    }
}

/// The names of all devices and virtual devices.
pub open spec fn all_names(devices: Seq<HardwareDeviceState>) -> Seq<Seq<char>>
    decreases devices.len(),
{
    if devices.len() == 0 {
        Seq::empty()
    } else {
        all_names(devices.drop_last()) + devices.last().names()
    }
}

/// All virtual devices.
pub open spec fn all_ports(devices: Seq<HardwareDeviceState>) -> Seq<PortStateView>
    decreases devices.len(),
{
    if devices.len() == 0 {
        Seq::empty()
    } else {
        all_ports(devices.drop_last()) + devices.last().port_views()
    }
}

/// Whether a route leads to a virtual device.
pub open spec fn leads_to_port(devices: Seq<HardwareDeviceState>, route: Route) -> bool {
    route.device < devices.len() && devices[route.device as int].has_port(
        route.output,
        route.index as int,
    )
}

/// The virtual device that a route leads to.
pub open spec fn port_at(devices: Seq<HardwareDeviceState>, route: Route) -> PortStateView {
    devices[route.device as int].port(route.output, route.index as int)
}

/// The inputs that are configured for a device.
pub open spec fn configured_inputs(cfg: DeviceConfig) -> Seq<InputMappingConfig> {
    match cfg.inputs {
        Some(configs) => configs@,
        None => Seq::empty(),
    }
}

/// The outputs that are configured for a device.
pub open spec fn configured_outputs(cfg: DeviceConfig) -> Seq<OutputMappingConfig> {
    match cfg.outputs {
        Some(configs) => configs@,
        None => Seq::empty(),
    }
}

/// What is tried when the inputs of a device are mapped.
pub open spec fn mapping_inputs() -> Seq<char> {
    "unable to map input ports"@
}

/// What is tried when the outputs of a device are mapped.
pub open spec fn mapping_outputs() -> Seq<char> {
    "unable to map output ports"@
}

/// What is said of a device with mappings in a direction that it does not have.
pub open spec fn direction_error(kind: DeviceKind, alias: Seq<char>, cfg: DeviceConfig) -> Option<
    Seq<Seq<char>>,
> {
    if !kind.has_outputs() && configured_outputs(cfg).len() > 0 {
        Some(
            within(
                mapping_inputs(),
                failed(alias + " is an input device but output port mappings were supplied"@),
            ),
        )
    } else if !kind.has_inputs() && configured_inputs(cfg).len() > 0 {
        Some(
            within(
                mapping_outputs(),
                failed(alias + " is an output device but input port mappings were supplied"@),
            ),
        )
    } else {
        None
    }
}

/// Whether the inputs of a device can be mapped. `names` holds the aliases in use.
pub open spec fn inputs_fit(
    kind: DeviceKind,
    alias: Seq<char>,
    names: Seq<Seq<char>>,
    cfg: DeviceConfig,
) -> bool {
    kind.has_inputs() ==> all_mappable(
        kind,
        true,
        alias,
        names.push(alias),
        input_bases(configured_inputs(cfg)),
    )
}

/// The aliases in use once the inputs of a device are mapped.
pub open spec fn names_with_inputs(
    kind: DeviceKind,
    alias: Seq<char>,
    names: Seq<Seq<char>>,
    cfg: DeviceConfig,
) -> Seq<Seq<char>> {
    names.push(alias) + mapped_aliases(
        alias,
        kind,
        input_bases(configured_inputs(cfg)),
        configured_inputs(cfg).len() as int,
    )
}

/// Whether the outputs of a device can be mapped, after its inputs.
pub open spec fn outputs_fit(
    kind: DeviceKind,
    alias: Seq<char>,
    names: Seq<Seq<char>>,
    cfg: DeviceConfig,
) -> bool {
    kind.has_outputs() ==> all_mappable(
        kind,
        false,
        alias,
        names_with_inputs(kind, alias, names, cfg),
        output_bases(configured_outputs(cfg)),
    )
}

/// Whether all ports of a device can be mapped.
pub open spec fn device_fits(
    kind: DeviceKind,
    alias: Seq<char>,
    names: Seq<Seq<char>>,
    cfg: DeviceConfig,
) -> bool {
    &&& direction_error(kind, alias, cfg) is None
    &&& inputs_fit(kind, alias, names, cfg)
    &&& outputs_fit(kind, alias, names, cfg)
}

/// Whether the ports of a device cannot be mapped, for the given reason: what is wrong with the
/// directions comes first, then the first input that is wrong, then the first output.
pub open spec fn device_fails(
    kind: DeviceKind,
    alias: Seq<char>,
    names: Seq<Seq<char>>,
    cfg: DeviceConfig,
    error: MapErrorView,
) -> bool {
    match direction_error(kind, alias, cfg) {
        Some(failure) => error == MapErrorView::Failed(failure),
        None => if !inputs_fit(kind, alias, names, cfg) {
            exists|k: int, cause: MapErrorView| #[trigger]
                first_unmappable(
                    kind,
                    true,
                    alias,
                    names.push(alias),
                    input_bases(configured_inputs(cfg)),
                    k,
                    cause,
                ) && error == cause.within(mapping_inputs())
        } else {
            exists|k: int, cause: MapErrorView| #[trigger]
                first_unmappable(
                    kind,
                    false,
                    alias,
                    names_with_inputs(kind, alias, names, cfg),
                    output_bases(configured_outputs(cfg)),
                    k,
                    cause,
                ) && error == cause.within(mapping_outputs())
        },
    }
}

/// Whether a device was added as it is configured. `before` is the number of virtual devices
/// there were before.
pub open spec fn added_as_configured(
    state: HardwareDeviceState,
    cfg: DeviceConfig,
    alias: Seq<char>,
    device: DeviceType,
    before: int,
) -> bool {
    let kind = device.kind();
    let inputs = configured_inputs(cfg);
    let outputs = configured_outputs(cfg);
    &&& state.alias@ == alias
    &&& are_tags_of(texts(state.tags@), cfg.tags, None)
    &&& state.device.same_setup(device)
    &&& state.device.inputs() == inputs_mapped(
        device.inputs(),
        kind.first_input(),
        input_bases(inputs),
    )
    &&& kind.has_outputs() ==> outputs_of(state.device) == outputs_mapped(
        outputs_of(device),
        outputs,
    )
    &&& state.input_ports@.len() == inputs.len()
    &&& forall|i: int|
        0 <= i < inputs.len() ==> {
            &&& is_mapped(
                (#[trigger] state.input_ports@[i]).port@,
                alias,
                kind,
                inputs[i].base,
                cfg.tags,
                before + 1 + i,
            )
            &&& state.input_ports@[i].value_type == device.inputs()[inputs[i].base.port
                - kind.first_input()].value_type
        }
    &&& state.output_ports@.len() == outputs.len()
    &&& forall|i: int|
        0 <= i < outputs.len() ==> is_mapped(
            (#[trigger] state.output_ports@[i]).port@,
            alias,
            kind,
            outputs[i].base,
            cfg.tags,
            before + inputs.len() + 1 + i,
        )
}

proof fn lemma_mapped_names_distinct(
    kind: DeviceKind,
    input: bool,
    alias: Seq<char>,
    taken: Seq<Seq<char>>,
    bases: Seq<BaseMappingConfig>,
)
    requires
        taken.no_duplicates(),
        all_mappable(kind, input, alias, taken, bases),
    ensures
        (taken + mapped_aliases(alias, kind, bases, bases.len() as int)).no_duplicates(),
{
    let names = mapped_aliases(alias, kind, bases, bases.len() as int);
    let all = taken + names;
    assert forall|i: int, j: int| 0 <= i < j < all.len() implies all[i] != all[j] by {
        if j >= taken.len() {
            let k = j - taken.len();
            assert(mapping_error(kind, input, alias, taken, bases, k) is None);
            if i < taken.len() {
                assert(taken[i] == all[i]);
                assert(taken.contains(all[i]));
            } else {
                let earlier = mapped_aliases(alias, kind, bases, k);
                assert(earlier[i - taken.len()] == all[i]);
                assert(earlier.contains(all[i]));
            }
        }
    }
}

proof fn lemma_same_names(a: Seq<HardwareDeviceState>, b: Seq<HardwareDeviceState>)
    requires
        a.len() == b.len(),
        forall|d: int| 0 <= d < a.len() ==> (#[trigger] a[d]).names() == b[d].names(),
    ensures
        all_names(a) == all_names(b),
    decreases a.len(),
{
    if a.len() > 0 {
        let x = a.drop_last();
        let y = b.drop_last();
        assert forall|d: int| 0 <= d < x.len() implies (#[trigger] x[d]).names()
            == y[d].names() by {
            assert(a[d].names() == b[d].names());
        }
        lemma_same_names(x, y);
        assert(a[a.len() - 1].names() == b[b.len() - 1].names());
    }
}

impl UniverseState {
    /// The aliases in use.
    pub open spec fn names(&self) -> Seq<Seq<char>> {
        texts(self.aliases@)
    }

    /// The routes to all virtual devices, in the order of their addresses.
    pub open spec fn route_seq(&self) -> Seq<Route> {
        self.routes@
    }

    /// The number of virtual devices.
    pub open spec fn port_count(&self) -> nat {
        self.route_seq().len()
    }

    /// Whether there is a virtual device with the given address.
    pub open spec fn has_address(&self, address: Address) -> bool {
        1 <= address <= self.port_count()
    }

    /// The route to the virtual device with the given address.
    pub open spec fn route(&self, address: Address) -> Route {
        self.route_seq()[address - 1]
    }

    /// All devices are in order. Routes and addresses belong to each other, and no alias occurs
    /// twice.
    pub open spec fn wf(&self) -> bool {
        &&& forall|d: int| 0 <= d < self.devices@.len() ==> (#[trigger] self.devices@[d]).wf()
        &&& self.port_count() <= 65534
        &&& forall|a: int|
            0 <= a < self.route_seq().len() ==> leads_to_port(
                self.devices@,
                #[trigger] self.route_seq()[a],
            ) && port_at(self.devices@, self.route_seq()[a]).address == a + 1
        &&& forall|d: int, output: bool, index: int|
            0 <= d < self.devices@.len() && self.devices@[d].has_port(output, index) ==> {
                let address = (#[trigger] self.devices@[d].port(output, index)).address;
                &&& self.has_address(address)
                &&& self.route(address) == (Route {
                    device: d as usize,
                    output,
                    index: index as usize,
                })
            }
        &&& self.names() == all_names(self.devices@)
        &&& self.names().no_duplicates()
    }

    /// Creates an empty universe.
    pub fn new() -> (universe: Self)
        ensures
            universe.wf(),
            universe.version == 1,
            universe.devices@.len() == 0,
            universe.port_count() == 0,
    {
        let universe = UniverseState {
            version: 1,
            devices: Vec::new(),
            aliases: Vec::new(),
            routes: Vec::new(),
        };
        assert(universe.names() =~= Seq::<Seq<char>>::empty());
        universe
    }

    /// Normalizes the alias of a new device, and checks that it is not in use.
    pub fn begin_device(&self, alias: &str) -> (result: Result<String, String>)
        ensures
            match result {
                Ok(normalized) => normalized@ == lowercase_of(alias@) && !self.names().contains(
                    normalized@,
                ),
                Err(message) => self.names().contains(lowercase_of(alias@)) && message@
                    == "duplicate alias: "@ + lowercase_of(alias@),
            },
    {
        let normalized = lowercase(alias);
        let none: Vec<String> = Vec::new();
        assert(texts(none@) =~= Seq::<Seq<char>>::empty());
        claim_alias(&self.aliases, &none, normalized)
    }

    /// Adds a new device, and maps its ports: first its inputs, then its outputs. If that fails,
    /// nothing is changed.
    pub fn add_device(&mut self, cfg: &DeviceConfig, device_alias: String, device: DeviceType)
        -> (result: Result<(), MapError>)
        requires
            old(self).wf(),
            device.wf(),
            device.inputs_unlistened(),
            device.outputs_unlistened(),
            !old(self).names().contains(device_alias@),
            old(self).port_count() + configured_inputs(*cfg).len() + configured_outputs(*cfg).len()
                <= 65534,
        ensures
            final(self).wf(),
            match result {
                Ok(_) => {
                    &&& device_fits(device.kind(), device_alias@, old(self).names(), *cfg)
                    &&& final(self).version == old(self).version
                    &&& final(self).devices@.len() == old(self).devices@.len() + 1
                    &&& final(self).devices@.drop_last() == old(self).devices@
                    &&& added_as_configured(
                        final(self).devices@.last(),
                        *cfg,
                        device_alias@,
                        device,
                        old(self).port_count() as int,
                    )
                    &&& final(self).port_count() == old(self).port_count() + configured_inputs(
                        *cfg,
                    ).len() + configured_outputs(*cfg).len()
                },
                Err(error) => {
                    &&& device_fails(
                        device.kind(),
                        device_alias@,
                        old(self).names(),
                        *cfg,
                        error@,
                    )
                    &&& *final(self) == *old(self)
                },
            },
    {
        let ghost kind = device.kind();
        let ghost alias = device_alias@;
        let ghost names_before = self.names();
        let ghost inputs = configured_inputs(*cfg);
        let ghost outputs = configured_outputs(*cfg);
        let no_inputs: Vec<InputMappingConfig> = Vec::new();
        let no_outputs: Vec<OutputMappingConfig> = Vec::new();
        let input_configs: &Vec<InputMappingConfig> = match &cfg.inputs {
            Some(configs) => configs,
            None => &no_inputs,
        };
        let output_configs: &Vec<OutputMappingConfig> = match &cfg.outputs {
            Some(configs) => configs,
            None => &no_outputs,
        };
        assert(input_configs@ =~= inputs);
        assert(output_configs@ =~= outputs);
        let (has_inputs, has_outputs) = device.directions();
        if !has_outputs && output_configs.len() > 0 {
            return Err(
                MapError::Failed(
                    Failure::new(
                        concatenated(
                            device_alias.as_str(),
                            " is an input device but output port mappings were supplied",
                        ),
                    ),
                ).within("unable to map input ports"),
            );
        }
        if !has_inputs && input_configs.len() > 0 {
            return Err(
                MapError::Failed(
                    Failure::new(
                        concatenated(
                            device_alias.as_str(),
                            " is an output device but input port mappings were supplied",
                        ),
                    ),
                ).within("unable to map output ports"),
            );
        }
        let mut mapped_device: DeviceType = device;
        let mut names: Vec<String> = Vec::new();
        names.push(device_alias.clone());
        let before: usize = self.routes.len();
        let first_input: u16 = before as u16 + 1;
        let ghost taken = names_before.push(alias);
        proof {
            assert(texts(names@) =~= seq![alias]);
            assert(names_before + seq![alias] =~= taken);
            assert(texts(self.aliases@) + texts(names@) =~= taken);
        }
        let mut input_ports: Vec<InputPortState> = Vec::new();
        if has_inputs {
            input_ports =
            match create_input_port_mappings(
                &self.aliases,
                &mut names,
                first_input,
                device_alias.as_str(),
                &cfg.tags,
                input_configs,
                &mut mapped_device,
            ) {
                Ok(ports) => ports,
                Err(error) => {
                    proof {
                        lemma_unmappable(
                            kind,
                            true,
                            alias,
                            taken,
                            input_bases(inputs),
                            error@,
                        );
                    }
                    return Err(error.within("unable to map input ports"));
                },
            };
        } else {
            assert(input_bases(inputs) =~= Seq::empty());
            assert(taken + mapped_aliases(alias, kind, input_bases(inputs), 0) =~= taken);
        }
        let ghost input_names = mapped_aliases(
            alias,
            kind,
            input_bases(inputs),
            inputs.len() as int,
        );
        let ghost taken_2 = names_with_inputs(kind, alias, names_before, *cfg);
        proof {
            assert(texts(names@) =~= seq![alias] + input_names);
            assert(texts(self.aliases@) + texts(names@) =~= taken_2);
        }
        let ghost with_inputs = mapped_device;
        assert(mapped_device.inputs() == inputs_mapped(
            device.inputs(),
            kind.first_input(),
            input_bases(inputs),
        ));
        assert(kind.has_outputs() ==> outputs_of(mapped_device) == outputs_of(device));
        let first_output: u16 = first_input + input_configs.len() as u16;
        let mut output_ports: Vec<OutputPortState> = Vec::new();
        if has_outputs {
            output_ports =
            match create_output_port_mappings(
                &self.aliases,
                &mut names,
                first_output,
                device_alias.as_str(),
                &cfg.tags,
                output_configs,
                &mut mapped_device,
            ) {
                Ok(ports) => ports,
                Err(error) => {
                    proof {
                        assert(exists|k: int| #[trigger]
                            first_unmappable(
                                kind,
                                false,
                                alias,
                                taken_2,
                                output_bases(outputs),
                                k,
                                error@,
                            ));
                    }
                    return Err(error.within("unable to map output ports"));
                },
            };
        } else {
            assert(output_bases(outputs) =~= Seq::empty());
        }
        let tags: Vec<String> = all_tags(&cfg.tags, &None);
        let state = HardwareDeviceState {
            alias: device_alias,
            tags,
            device: mapped_device,
            input_ports,
            output_ports,
        };
        proof {
            let output_names = mapped_aliases(
                alias,
                kind,
                output_bases(outputs),
                outputs.len() as int,
            );
            assert(names_before.push(alias).no_duplicates());
            if kind.has_inputs() {
                lemma_mapped_names_distinct(kind, true, alias, taken, input_bases(inputs));
            }
            if kind.has_outputs() {
                lemma_mapped_names_distinct(kind, false, alias, taken_2, output_bases(outputs));
            } else {
                assert(taken_2 + output_names =~= taken_2);
            }
            assert(taken_2.no_duplicates());
            assert((taken_2 + output_names).no_duplicates());
            lemma_state_names(state, input_names, output_names);
            assert(texts(names@) =~= seq![alias] + input_names + output_names);
            assert(names_before + state.names() =~= taken_2 + output_names);
            lemma_added_device_wf(state, *cfg, alias, device, names_before, before as int);
        }
        self.commit(state, names);
        Ok(())
    }

    fn commit(&mut self, state: HardwareDeviceState, names: Vec<String>)
        requires
            old(self).wf(),
            state.wf(),
            texts(names@) == state.names(),
            (old(self).names() + state.names()).no_duplicates(),
            old(self).port_count() + state.input_ports@.len() + state.output_ports@.len() <= 65534,
            forall|i: int|
                0 <= i < state.input_ports@.len() ==> (
                #[trigger] state.input_ports@[i]).port.address == old(self).port_count() + 1 + i,
            forall|i: int|
                0 <= i < state.output_ports@.len() ==> (
                #[trigger] state.output_ports@[i]).port.address == old(self).port_count()
                    + state.input_ports@.len() + 1 + i,
        ensures
            final(self).wf(),
            final(self).version == old(self).version,
            final(self).devices@ == old(self).devices@.push(state),
            final(self).port_count() == old(self).port_count() + state.input_ports@.len()
                + state.output_ports@.len(),
    {
        let device: usize = self.devices.len();
        let inputs: usize = state.input_ports.len();
        let outputs: usize = state.output_ports.len();
        let ghost routes_before = self.routes@;
        let ghost in_routes = |n: nat|
            Seq::new(n, |i: int| Route { device, output: false, index: i as usize });
        let ghost out_routes = |n: nat|
            Seq::new(n, |i: int| Route { device, output: true, index: i as usize });
        let mut i: usize = 0;
        assert(routes_before + in_routes(0) =~= routes_before);
        while i < inputs
            invariant
                i <= inputs,
                self.routes@ == routes_before + in_routes(i as nat),
                in_routes == (|n: nat|
                    Seq::new(n, |i: int| Route { device, output: false, index: i as usize })),
                self.devices == old(self).devices,
                self.aliases == old(self).aliases,
                self.version == old(self).version,
            decreases inputs - i,
        {
            self.routes.push(Route { device, output: false, index: i });
            i += 1;
            assert(self.routes@ =~= routes_before + in_routes(i as nat));
        }
        let ghost with_inputs = self.routes@;
        let mut i: usize = 0;
        assert(with_inputs + out_routes(0) =~= with_inputs);
        while i < outputs
            invariant
                i <= outputs,
                self.routes@ == with_inputs + out_routes(i as nat),
                out_routes == (|n: nat|
                    Seq::new(n, |i: int| Route { device, output: true, index: i as usize })),
                self.devices == old(self).devices,
                self.aliases == old(self).aliases,
                self.version == old(self).version,
            decreases outputs - i,
        {
            self.routes.push(Route { device, output: true, index: i });
            i += 1;
            assert(self.routes@ =~= with_inputs + out_routes(i as nat));
        }
        let mut names = names;
        let ghost new_names = texts(names@);
        self.aliases.append(&mut names);
        assert(texts(self.aliases@) =~= old(self).names() + new_names);
        self.devices.push(state);
        proof {
            let devices = self.devices@;
            let routes = self.route_seq();
            let count = old(self).port_count();
            assert(devices.drop_last() =~= old(self).devices@);
            assert forall|a: int| 0 <= a < routes.len() implies leads_to_port(
                devices,
                #[trigger] routes[a],
            ) && port_at(devices, routes[a]).address == a + 1 by {
                if a < count {
                    let route = old(self).route_seq()[a];
                    assert(routes[a] == route);
                    assert(devices[route.device as int] == old(
                        self,
                    ).devices@[route.device as int]);
                } else if a < count + inputs {
                    assert(state.input_ports@[a - count].port.address == count + 1 + (a - count));
                } else {
                    let index = a - count - inputs;
                    assert(state.output_ports@[index].port.address == count + inputs + 1 + index);
                }
            }
            assert forall|d: int, output: bool, index: int|
                0 <= d < devices.len() && devices[d].has_port(output, index) implies {
                let address = (#[trigger] devices[d].port(output, index)).address;
                &&& self.has_address(address)
                &&& self.route(address) == (Route {
                    device: d as usize,
                    output,
                    index: index as usize,
                })
            } by {
                if d < device {
                    let port = old(self).devices@[d].port(output, index);
                    assert(devices[d] == old(self).devices@[d]);
                    assert(old(self).has_address(port.address));
                    assert(routes[port.address - 1] == old(self).route(port.address));
                } else if output {
                    assert(state.output_ports@[index].port.address == count + inputs + 1 + index);
                } else {
                    assert(state.input_ports@[index].port.address == count + 1 + index);
                }
            }
            assert forall|d: int| 0 <= d < devices.len() implies (
            #[trigger] devices[d]).wf() by {
                if d < device {
                    assert(old(self).devices@[d].wf());
                }
            }
        }
    }
}

proof fn lemma_unmappable(
    kind: DeviceKind,
    input: bool,
    alias: Seq<char>,
    taken: Seq<Seq<char>>,
    bases: Seq<BaseMappingConfig>,
    error: MapErrorView,
)
    requires
        exists|k: int| #[trigger]
            first_unmappable(kind, input, alias, taken, bases, k, error),
    ensures
        !all_mappable(kind, input, alias, taken, bases),
{
    let k = choose|k: int| #[trigger]
        first_unmappable(kind, input, alias, taken, bases, k, error);
    assert(mapping_error(kind, input, alias, taken, bases, k) is Some);
}

proof fn lemma_state_names(
    state: HardwareDeviceState,
    input_names: Seq<Seq<char>>,
    output_names: Seq<Seq<char>>,
)
    requires
        input_names.len() == state.input_ports@.len(),
        output_names.len() == state.output_ports@.len(),
        forall|i: int|
            0 <= i < input_names.len() ==> (#[trigger] state.input_ports@[i]).port@.alias
                == input_names[i],
        forall|i: int|
            0 <= i < output_names.len() ==> (#[trigger] state.output_ports@[i]).port@.alias
                == output_names[i],
    ensures
        state.names() == seq![state.alias@] + input_names + output_names,
{
    assert(state.port_views().map_values(|p: PortStateView| p.alias) =~= input_names
        + output_names);
    assert(state.names() =~= seq![state.alias@] + input_names + output_names);
}

proof fn lemma_added_device_wf(
    state: HardwareDeviceState,
    cfg: DeviceConfig,
    alias: Seq<char>,
    device: DeviceType,
    names: Seq<Seq<char>>,
    before: int,
)
    requires
        device.wf(),
        state.device.wf(),
        device_fits(device.kind(), alias, names, cfg),
        added_as_configured(state, cfg, alias, device, before),
    ensures
        state.wf(),
{
    let kind = device.kind();
    let inputs = configured_inputs(cfg);
    let outputs = configured_outputs(cfg);
    let bases = input_bases(inputs);
    let taken = names.push(alias);
    let taken_2 = names_with_inputs(kind, alias, names, cfg);
    if kind.has_inputs() {
        assert forall|i: int| 0 <= i < bases.len() implies kind.is_input(
            (#[trigger] bases[i]).port,
        ) by {
            assert(mapping_error(kind, true, alias, taken, bases, i) is None);
        }
        lemma_inputs_mapped(device.inputs(), kind, bases);
        assert forall|i: int| 0 <= i < inputs.len() implies kind.is_input(
            (#[trigger] state.input_ports@[i]).port.port,
        ) && state.device.inputs()[state.input_ports@[i].port.port - kind.first_input()].events
            is Some by {
            assert(state.input_ports@[i].port@.port == inputs[i].base.port);
            assert(bases[i] == inputs[i].base);
        }
        assert forall|i: int, j: int| 0 <= i < j < inputs.len() implies (
        #[trigger] state.input_ports@[i]).port.port != (
        #[trigger] state.input_ports@[j]).port.port by {
            assert(mapping_error(kind, true, alias, taken, bases, j) is None);
            assert(state.input_ports@[i].port@.port == bases[i].port);
            assert(state.input_ports@[j].port@.port == bases[j].port);
        }
    }
    if kind.has_outputs() {
        assert forall|i: int| 0 <= i < outputs.len() implies kind.is_output(
            (#[trigger] outputs[i]).base.port,
        ) by {
            assert(mapping_error(kind, false, alias, taken_2, output_bases(outputs), i) is None);
            assert(output_bases(outputs)[i] == outputs[i].base);
        }
        lemma_outputs_mapped(outputs_of(device), outputs);
        assert forall|i: int| 0 <= i < outputs.len() implies kind.is_output(
            (#[trigger] state.output_ports@[i]).port.port,
        ) && state.device.output_ports()[state.output_ports@[i].port.port as int].events
            is Some by {
            assert(state.output_ports@[i].port@.port == outputs[i].base.port);
            assert(outputs_of(state.device).ports == state.device.output_ports());
        }
        let out_bases = output_bases(outputs);
        assert forall|i: int, j: int| 0 <= i < j < outputs.len() implies (
        #[trigger] state.output_ports@[i]).port.port != (
        #[trigger] state.output_ports@[j]).port.port by {
            assert(mapping_error(kind, false, alias, taken_2, out_bases, j) is None);
            assert(state.output_ports@[i].port@.port == out_bases[i].port);
            assert(state.output_ports@[j].port@.port == out_bases[j].port);
        }
    }
}

/// Whether two devices differ in nothing but the state of their hardware and the last values of
/// their virtual devices.
pub open spec fn same_mapping(a: HardwareDeviceState, b: HardwareDeviceState) -> bool {
    &&& a.alias == b.alias
    &&& a.tags == b.tags
    &&& a.device.same_setup(b.device)
    &&& a.input_ports@.len() == b.input_ports@.len()
    &&& forall|i: int|
        0 <= i < a.input_ports@.len() ==> {
            &&& same_port((#[trigger] a.input_ports@[i]).port@, b.input_ports@[i].port@)
            &&& a.input_ports@[i].value_type == b.input_ports@[i].value_type
        }
    &&& a.output_ports@.len() == b.output_ports@.len()
    &&& forall|i: int|
        0 <= i < a.output_ports@.len() ==> same_port(
            (#[trigger] a.output_ports@[i]).port@,
            b.output_ports@[i].port@,
        )
}

/// Whether two virtual devices differ in nothing but their last values.
pub open spec fn same_port(a: PortStateView, b: PortStateView) -> bool {
    &&& a.port == b.port
    &&& a.alias == b.alias
    &&& a.tags == b.tags
    &&& a.address == b.address
}

/// The devices after one of them changed: all others are as they were.
pub open spec fn others_same(
    before: Seq<HardwareDeviceState>,
    after: Seq<HardwareDeviceState>,
    changed: int,
) -> bool {
    &&& after.len() == before.len()
    &&& forall|d: int|
        0 <= d < before.len() && d != changed ==> #[trigger] after[d] == before[d]
}

proof fn lemma_one_device_changed(before: UniverseState, after: UniverseState, d: int)
    requires
        before.wf(),
        0 <= d < before.devices@.len(),
        after.aliases == before.aliases,
        after.routes == before.routes,
        others_same(before.devices@, after.devices@, d),
        same_mapping(before.devices@[d], after.devices@[d]),
        after.devices@[d].wf(),
    ensures
        after.wf(),
{
    let old_devices = before.devices@;
    let devices = after.devices@;
    let x = old_devices[d];
    let y = devices[d];
    assert(x.names() == y.names()) by {
        assert(x.port_views().map_values(|p: PortStateView| p.alias) =~= y.port_views().map_values(
            |p: PortStateView| p.alias,
        )) by {
            assert forall|i: int| 0 <= i < x.port_views().len() implies x.port_views()[i].alias
                == y.port_views()[i].alias by {
                if i < x.input_ports@.len() {
                    assert(same_port(x.input_ports@[i].port@, y.input_ports@[i].port@));
                } else {
                    let j = i - x.input_ports@.len();
                    assert(same_port(x.output_ports@[j].port@, y.output_ports@[j].port@));
                }
            }
        }
    }
    assert forall|e: int| 0 <= e < devices.len() implies (#[trigger] old_devices[e]).names()
        == devices[e].names() by {
        if e != d {
            assert(devices[e] == old_devices[e]);
        }
    }
    lemma_same_names(old_devices, devices);
    assert forall|output: bool, index: int| x.has_port(output, index) implies (
    #[trigger] y.port(output, index)).address == x.port(output, index).address by {
        if output {
            assert(same_port(x.output_ports@[index].port@, y.output_ports@[index].port@));
        } else {
            assert(same_port(x.input_ports@[index].port@, y.input_ports@[index].port@));
        }
    }
    assert forall|a: int| 0 <= a < after.route_seq().len() implies leads_to_port(
        devices,
        #[trigger] after.route_seq()[a],
    ) && port_at(devices, after.route_seq()[a]).address == a + 1 by {
        let route = before.route_seq()[a];
        assert(leads_to_port(old_devices, route));
        if route.device != d {
            assert(devices[route.device as int] == old_devices[route.device as int]);
        } else {
            assert(y.port(route.output, route.index as int).address == x.port(
                route.output,
                route.index as int,
            ).address);
        }
    }
    assert forall|e: int, output: bool, index: int|
        0 <= e < devices.len() && devices[e].has_port(output, index) implies {
        let address = (#[trigger] devices[e].port(output, index)).address;
        &&& after.has_address(address)
        &&& after.route(address) == (Route {
            device: e as usize,
            output,
            index: index as usize,
        })
    } by {
        let address = old_devices[e].port(output, index).address;
        assert(before.has_address(address));
        if e != d {
            assert(devices[e] == old_devices[e]);
        }
    }
    assert forall|e: int| 0 <= e < devices.len() implies (#[trigger] devices[e]).wf() by {
        if e != d {
            assert(devices[e] == old_devices[e]);
        }
    }
}

/// The events that report the last values of virtual devices.
pub open spec fn current_events(ports: Seq<PortStateView>) -> Seq<AddressedEventView>
    decreases ports.len(),
{
    if ports.len() == 0 {
        Seq::empty()
    } else {
        let before = current_events(ports.drop_last());
        match ports.last().current_event() {
            Some(event) => before.push(event),
            None => before,
        }
    }
}

/// Addressed events as contracts see them.
pub open spec fn addressed_views(events: Seq<AddressedEvent>) -> Seq<AddressedEventView> {
    events.map_values(|e: AddressedEvent| e@)
}

/// The devices among the first `n` whose updates have to be triggered.
pub open spec fn to_notify(devices: Seq<HardwareDeviceState>, n: int) -> Seq<usize>
    decreases n,
{
    if n <= 0 {
        Seq::empty()
    } else {
        let before = to_notify(devices, n - 1);
        let device = devices[n - 1].device;
        if device.kind() is MCP23017 && outputs_of(device).dirty {
            before.push((n - 1) as usize)
        } else {
            before
        }
    }
}

/// What is said of a device whose previous update failed.
pub open spec fn update_failure(alias: Seq<char>, message: Seq<char>) -> Seq<char> {
    "unable to update output device "@ + alias + ": "@ + message
}

/// What is said of the previous updates of the first `n` devices that failed.
pub open spec fn update_failures(devices: Seq<HardwareDeviceState>, n: int) -> Seq<Seq<char>>
    decreases n,
{
    if n <= 0 {
        Seq::empty()
    } else {
        let before = update_failures(devices, n - 1);
        match outputs_of(devices[n - 1].device).last_error {
            Some(message) => before.push(update_failure(devices[n - 1].alias@, message)),
            None => before,
        }
    }
}

/// The outputs of all devices after their errors were retrieved.
pub open spec fn errors_retrieved(outputs: Seq<OutputsView>) -> Seq<OutputsView> {
    outputs.map_values(|o: OutputsView| OutputsView { last_error: None, ..o })
}

/// Whether the devices of two universes hold the same errors.
pub open spec fn errors_kept(before: UniverseState, after: UniverseState) -> bool {
    forall|d: int|
        0 <= d < before.devices@.len() ==> outputs_of(
            (#[trigger] after.devices@[d]).device,
        ).last_error == outputs_of(before.devices@[d].device).last_error
}

/// The failures that are told depend on nothing but aliases and errors.
pub proof fn lemma_same_failures(before: UniverseState, after: UniverseState, n: int)
    requires
        0 <= n <= before.devices@.len(),
        only_outputs_changed(before, after),
        errors_kept(before, after),
    ensures
        update_failures(after.devices@, n) == update_failures(before.devices@, n),
    decreases n,
{
    if n > 0 {
        lemma_same_failures(before, after, n - 1);
        assert(outputs_of(after.devices@[n - 1].device).last_error == outputs_of(
            before.devices@[n - 1].device,
        ).last_error);
        assert(after.devices@[n - 1].alias == before.devices@[n - 1].alias);
    }
}

proof fn lemma_same_notified(
    before: Seq<HardwareDeviceState>,
    after: Seq<HardwareDeviceState>,
    n: int,
)
    requires
        0 <= n <= before.len(),
        after.len() == before.len(),
        forall|d: int|
            0 <= d < n ==> {
                &&& (#[trigger] after[d]).device.kind() == before[d].device.kind()
                &&& outputs_of(after[d].device).dirty == outputs_of(before[d].device).dirty
            },
    ensures
        to_notify(after, n) == to_notify(before, n),
    decreases n,
{
    if n > 0 {
        lemma_same_notified(before, after, n - 1);
        assert(after[n - 1].device.kind() == before[n - 1].device.kind());
    }
}

fn push_current_event(port: &PortState, events: &mut Vec<AddressedEvent>)
    ensures
        addressed_views(final(events)@) == (match port@.current_event() {
            Some(event) => addressed_views(old(events)@).push(event),
            None => addressed_views(old(events)@),
        }),
{
    match port.get_update_event_for_current_value() {
        Some(event) => {
            let ghost view = event@;
            events.push(event);
            assert(addressed_views(events@) =~= addressed_views(old(events)@).push(view));
        },
        None => {},
    }
}

/// The universe after a value was set: the buffer of one device holds the value, and everything
/// else is as it was.
pub open spec fn value_set(
    before: UniverseState,
    after: UniverseState,
    address: Address,
    value: OutputValue,
) -> bool {
    let route = before.route(address);
    let old_state = before.device_at(address);
    let new_state = after.device_at(address);
    let outputs = outputs_of(old_state.device);
    let port = port_at(before.devices@, route).port as int;
    &&& after.version == before.version
    &&& after.aliases == before.aliases
    &&& after.routes == before.routes
    &&& others_same(before.devices@, after.devices@, route.device as int)
    &&& new_state.alias == old_state.alias
    &&& new_state.tags == old_state.tags
    &&& new_state.input_ports == old_state.input_ports
    &&& new_state.output_ports == old_state.output_ports
    &&& new_state.device.same_setup(old_state.device)
    &&& new_state.device.inputs() == old_state.device.inputs()
    &&& outputs_of(new_state.device) == (OutputsView {
        values: outputs.values.update(port, value),
        dirty: outputs.dirty || value != outputs.values[port],
        ..outputs
    })
}

impl UniverseState {
    /// The value that the buffer holds for an output.
    pub open spec fn buffered(&self, address: Address) -> OutputValue {
        outputs_of(self.device_at(address).device).values[port_at(
            self.devices@,
            self.route(address),
        ).port as int]
    }

    /// Whether the address is that of an output.
    pub open spec fn is_output_address(&self, address: Address) -> bool {
        self.has_address(address) && self.route(address).output
    }

    /// The device that a virtual device belongs to.
    pub open spec fn device_at(&self, address: Address) -> HardwareDeviceState {
        self.devices@[self.route(address).device as int]
    }

    /// Sets the _buffered_ value of an output. It is written to the hardware once its device
    /// updates.
    pub fn set_address(&mut self, address: Address, value: OutputValue) -> (result: Result<
        (),
        String,
    >)
        requires
            old(self).wf(),
        ensures
            final(self).wf(),
            final(self).version == old(self).version,
            final(self).aliases == old(self).aliases,
            final(self).routes == old(self).routes,
            old(self).is_output_address(address) ==> result is Ok && value_set(
                *old(self),
                *final(self),
                address,
                value,
            ),
            !old(self).is_output_address(address) ==> {
                &&& outcome(result) == Err::<(), Seq<char>>(
                    "invalid address: "@ + decimal(address as nat),
                )
                &&& *final(self) == *old(self)
            },
    {
        if address == 0 || address as usize > self.routes.len() {
            return Err(numbered("invalid address: ", address as u64));
        }
        let route: Route = self.routes[address as usize - 1];
        assert(route == self.route_seq()[address - 1]);
        if !route.output {
            return Err(numbered("invalid address: ", address as u64));
        }
        let ghost before = *self;
        let state = &mut self.devices[route.device];
        let port: u8 = state.output_ports[route.index].port.port;
        state.device.set_output(port, value);
        proof {
            lemma_one_device_changed(before, *self, route.device as int);
        }
        Ok(())
    }

    /// Triggers the updates of all outputs. This never fails: previous updates that failed are told
    /// of, but do not keep the others from being triggered.
    pub fn update(&mut self) -> (r: (Result<(), String>, Updates))
        requires
            old(self).wf(),
        ensures
            final(self).wf(),
            only_outputs_changed(*old(self), *final(self)),
            outputs_views(*final(self)) == errors_retrieved(outputs_views(*old(self))),
            r.0 is Ok,
            r.1.notify@ == to_notify(final(self).devices@, final(self).devices@.len() as int),
            texts(r.1.failures@) == update_failures(
                old(self).devices@,
                old(self).devices@.len() as int,
            ),
    {
        let ghost start = *self;
        let mut notify: Vec<usize> = Vec::new();
        let mut failures: Vec<String> = Vec::new();
        let mut i: usize = 0;
        assert(texts(failures@) =~= Seq::<Seq<char>>::empty());
        while i < self.devices.len()
            invariant
                i <= self.devices@.len(),
                start == *old(self),
                self.wf(),
                only_outputs_changed(start, *self),
                notify@ == to_notify(start.devices@, i as int),
                texts(failures@) == update_failures(start.devices@, i as int),
                forall|d: int|
                    0 <= d < i ==> outputs_of((#[trigger] self.devices@[d]).device) == (
                    OutputsView { last_error: None, ..outputs_of(start.devices@[d].device) }),
                forall|d: int|
                    i <= d < start.devices@.len() ==> #[trigger] self.devices@[d]
                        == start.devices@[d],
            decreases self.devices.len() - i,
        {
            let ghost before = *self;
            assert(self.devices@[i as int] == start.devices@[i as int]);
            assert(self.devices@[i as int].wf());
            let state = &mut self.devices[i];
            let (dirty, result) = state.device.update();
            match result {
                Ok(()) => {},
                Err(message) => {
                    let device = concatenated(
                        "unable to update output device ",
                        state.alias.as_str(),
                    );
                    let failure = concatenated(device.as_str(), ": ");
                    let failure = concatenated(failure.as_str(), message.as_str());
                    let ghost text = failure@;
                    let ghost known = texts(failures@);
                    failures.push(failure);
                    assert(texts(failures@) =~= known.push(text));
                },
            }
            if dirty {
                notify.push(i);
            }
            proof {
                lemma_one_device_changed(before, *self, i as int);
                let old_device = start.devices@[i as int].device;
                let new_device = self.devices@[i as int].device;
                assert(outputs_of(new_device) == (OutputsView {
                    last_error: None,
                    ..outputs_of(old_device)
                }));
                assert forall|d: int| 0 <= d < start.devices@.len() && d != i implies
                    #[trigger] self.devices@[d] == before.devices@[d] by {}
            }
            i += 1;
        }
        proof {
            assert(outputs_views(*self) =~= errors_retrieved(outputs_views(start)));
            assert forall|d: int| 0 <= d < i implies {
                &&& (#[trigger] self.devices@[d]).device.kind() == start.devices@[d].device.kind()
                &&& outputs_of(self.devices@[d].device).dirty == outputs_of(
                    start.devices@[d].device,
                ).dirty
            } by {
                assert(self.devices@[d].device.same_setup(start.devices@[d].device));
            }
            lemma_same_notified(start.devices@, self.devices@, i as int);
        }
        (Ok(()), Updates { notify, failures })
    }

    /// Checks that there is a virtual device whose events can be subscribed to.
    pub fn get_event_stream(&self, address: Address) -> (result: Result<(), String>)
        ensures
            outcome(result) == (if self.has_address(address) {
                Ok(())
            } else {
                Err("invalid address"@)
            }),
    {
        if address == 0 || address as usize > self.routes.len() {
            Err("invalid address".to_owned())
        } else {
            Ok(())
        }
    }

    /// Picks up the oldest event of a virtual device, and remembers the value that it reports.
    pub fn poll_event(&mut self, address: Address) -> (event: Option<AddressedEvent>)
        requires
            old(self).wf(),
            old(self).has_address(address),
        ensures
            final(self).wf(),
            final(self).version == old(self).version,
            final(self).aliases == old(self).aliases,
            final(self).routes == old(self).routes,
            ({
                let route = old(self).route(address);
                let before = old(self).device_at(address);
                let after = final(self).device_at(address);
                let port = port_at(old(self).devices@, route);
                let kind = before.device.kind();
                let queue = (if route.output {
                    before.device.output_ports()[port.port as int]
                } else {
                    before.device.inputs()[port.port - kind.first_input()]
                }).events->0;
                &&& others_same(old(self).devices@, final(self).devices@, route.device as int)
                &&& same_mapping(before, after)
                &&& if route.output {
                    &&& outputs_of(after.device) == (OutputsView {
                        ports: before.device.output_ports().update(
                            port.port as int,
                            before.device.output_ports()[port.port as int].polled(),
                        ),
                        ..outputs_of(before.device)
                    })
                    &&& after.device.inputs() == before.device.inputs()
                } else {
                    &&& after.device.inputs() == before.device.inputs().update(
                        port.port - kind.first_input(),
                        before.device.inputs()[port.port - kind.first_input()].polled(),
                    )
                    &&& after.device.same_outputs(before.device)
                }
                &&& forall|output: bool, index: int|
                    before.has_port(output, index) && !(output == route.output && index
                        == route.index) ==> #[trigger] after.port(output, index) == before.port(
                        output,
                        index,
                    )
                &&& match event {
                    Some(e) => {
                        &&& queue.len() > 0
                        &&& e.address == address
                        &&& e.event@ == queue[0]
                        &&& port_at(final(self).devices@, route) == port.after_event(queue[0])
                        &&& e.event@.inner matches Ok(EventKind::Update { new_value }) ==> port_at(
                            final(self).devices@,
                            route,
                        ).last_value == Some(
                            TimestampedView { ts: e.event.timestamp, value: Ok(new_value) },
                        )
                        &&& e.event@.inner matches Err(message) ==> port_at(
                            final(self).devices@,
                            route,
                        ).last_value == Some(
                            TimestampedView { ts: e.event.timestamp, value: Err(message) },
                        )
                    },
                    None => {
                        &&& queue.len() == 0
                        &&& port_at(final(self).devices@, route) == port
                    },
                }
            }),
    {
        let route: Route = self.routes[address as usize - 1];
        assert(route == self.route_seq()[address - 1]);
        let ghost before = *self;
        let state = &mut self.devices[route.device];
        let event: Option<Event> = if route.output {
            let port: u8 = state.output_ports[route.index].port.port;
            let event = state.device.poll_output(port as usize);
            match &event {
                Some(e) => state.output_ports[route.index].port.handle_event(e),
                None => {},
            }
            event
        } else {
            let port: u8 = state.input_ports[route.index].port.port;
            let index: usize = state.device.input_index(port);
            let event = state.device.poll_input(index);
            match &event {
                Some(e) => state.input_ports[route.index].port.handle_event(e),
                None => {},
            }
            event
        };
        proof {
            lemma_one_device_changed(before, *self, route.device as int);
        }
        match event {
            Some(event) => Some(AddressedEvent { address, event }),
            None => None,
        }
    }

    /// The events that report the last values of all virtual devices that have one.
    pub fn get_update_events_for_current_values(&self) -> (events: Vec<AddressedEvent>)
        ensures
            addressed_views(events@) == current_events(all_ports(self.devices@)),
    {
        let mut events: Vec<AddressedEvent> = Vec::new();
        let mut d: usize = 0;
        assert(addressed_views(events@) =~= Seq::<AddressedEventView>::empty());
        assert(self.devices@.take(0) =~= Seq::<HardwareDeviceState>::empty());
        while d < self.devices.len()
            invariant
                d <= self.devices@.len(),
                addressed_views(events@) == current_events(all_ports(self.devices@.take(d as int))),
            decreases self.devices.len() - d,
        {
            let state: &HardwareDeviceState = &self.devices[d];
            let ghost known = all_ports(self.devices@.take(d as int));
            let ghost views = state.port_views();
            let mut i: usize = 0;
            assert(known + views.take(0) =~= known);
            while i < state.input_ports.len()
                invariant
                    i <= state.input_ports@.len(),
                    views == state.port_views(),
                    addressed_views(events@) == current_events(known + views.take(i as int)),
                decreases state.input_ports.len() - i,
            {
                push_current_event(&state.input_ports[i].port, &mut events);
                assert((known + views.take(i + 1)).drop_last() =~= known + views.take(i as int));
                assert((known + views.take(i + 1)).last() == views[i as int]);
                i += 1;
            }
            let ghost inputs = i as int;
            let mut j: usize = 0;
            while j < state.output_ports.len()
                invariant
                    j <= state.output_ports@.len(),
                    inputs == state.input_ports@.len(),
                    views == state.port_views(),
                    addressed_views(events@) == current_events(known + views.take(inputs + j)),
                decreases state.output_ports.len() - j,
            {
                push_current_event(&state.output_ports[j].port, &mut events);
                assert((known + views.take(inputs + j + 1)).drop_last() =~= known + views.take(
                    inputs + j,
                ));
                assert((known + views.take(inputs + j + 1)).last() == views[inputs + j]);
                j += 1;
            }
            assert(views.take(inputs + j) =~= views);
            assert(self.devices@.take(d + 1).drop_last() =~= self.devices@.take(d as int));
            assert(self.devices@.take(d + 1).last() == *state);
            d += 1;
        }
        assert(self.devices@.take(d as int) =~= self.devices@);
        events
    }
}

/// An input as the API shows it.
#[derive(Debug)]
pub struct InputPortConfig {
    pub alias: String,
    pub input_type: InputValueType,
    pub tags: Vec<String>,
    pub port: u8,
    pub address: Address,
}

/// An output as the API shows it.
#[derive(Debug)]
pub struct OutputPortConfig {
    pub alias: String,
    pub tags: Vec<String>,
    pub port: u8,
    pub address: Address,
}

/// A hardware device as the API shows it.
#[derive(Debug)]
pub struct PublicDeviceConfig {
    pub alias: String,
    pub device_type: PublicDeviceType,
    pub inputs: Vec<InputPortConfig>,
    pub outputs: Vec<OutputPortConfig>,
}

/// All devices as the API shows them.
#[derive(Debug)]
pub struct UniverseConfig {
    pub version: u64,
    pub devices: Vec<PublicDeviceConfig>,
}

/// Whether an input is shown as it is.
pub open spec fn shows_input(config: InputPortConfig, state: InputPortState) -> bool {
    &&& config.alias@ == state.port.alias@
    &&& config.input_type == state.value_type
    &&& texts(config.tags@) == texts(state.port.tags@)
    &&& config.port == state.port.port
    &&& config.address == state.port.address
}

/// Whether an output is shown as it is.
pub open spec fn shows_output(config: OutputPortConfig, state: OutputPortState) -> bool {
    &&& config.alias@ == state.port.alias@
    &&& texts(config.tags@) == texts(state.port.tags@)
    &&& config.port == state.port.port
    &&& config.address == state.port.address
}

/// Whether a device is shown as it is.
pub open spec fn shows_device(config: PublicDeviceConfig, state: HardwareDeviceState) -> bool {
    &&& config.alias@ == state.alias@
    &&& config.device_type == state.device.public_type()
    &&& config.inputs@.len() == state.input_ports@.len()
    &&& forall|i: int|
        0 <= i < config.inputs@.len() ==> shows_input(
            #[trigger] config.inputs@[i],
            state.input_ports@[i],
        )
    &&& config.outputs@.len() == state.output_ports@.len()
    &&& forall|i: int|
        0 <= i < config.outputs@.len() ==> shows_output(
            #[trigger] config.outputs@[i],
            state.output_ports@[i],
        )
}

fn copy_texts(strings: &Vec<String>) -> (copy: Vec<String>)
    ensures
        texts(copy@) == texts(strings@),
{
    let mut copy: Vec<String> = Vec::new();
    let mut i: usize = 0;
    while i < strings.len()
        invariant
            i <= strings@.len(),
            copy@.len() == i,
            forall|j: int| 0 <= j < i ==> (#[trigger] copy@[j])@ == strings@[j]@,
        decreases strings.len() - i,
    {
        copy.push(strings[i].clone());
        i += 1;
    }
    assert(texts(copy@) =~= texts(strings@));
    copy
}

impl InputPortState {
    /// The input as the API shows it.
    pub fn to_alloy_port_config(&self) -> (config: InputPortConfig)
        ensures
            shows_input(config, *self),
    {
        InputPortConfig {
            alias: self.port.alias.clone(),
            input_type: self.value_type,
            tags: copy_texts(&self.port.tags),
            port: self.port.port,
            address: self.port.address,
        }
    }
}

impl OutputPortState {
    /// The output as the API shows it.
    pub fn to_alloy_port_config(&self) -> (config: OutputPortConfig)
        ensures
            shows_output(config, *self),
    {
        OutputPortConfig {
            alias: self.port.alias.clone(),
            tags: copy_texts(&self.port.tags),
            port: self.port.port,
            address: self.port.address,
        }
    }
}

impl HardwareDeviceState {
    /// The device as the API shows it.
    pub fn to_alloy_device_config(&self) -> (config: PublicDeviceConfig)
        ensures
            shows_device(config, *self),
    {
        let mut inputs: Vec<InputPortConfig> = Vec::new();
        let mut i: usize = 0;
        while i < self.input_ports.len()
            invariant
                i <= self.input_ports@.len(),
                inputs@.len() == i,
                forall|j: int|
                    0 <= j < i ==> shows_input(#[trigger] inputs@[j], self.input_ports@[j]),
            decreases self.input_ports.len() - i,
        {
            inputs.push(self.input_ports[i].to_alloy_port_config());
            i += 1;
        }
        let mut outputs: Vec<OutputPortConfig> = Vec::new();
        let mut i: usize = 0;
        while i < self.output_ports.len()
            invariant
                i <= self.output_ports@.len(),
                outputs@.len() == i,
                forall|j: int|
                    0 <= j < i ==> shows_output(#[trigger] outputs@[j], self.output_ports@[j]),
            decreases self.output_ports.len() - i,
        {
            outputs.push(self.output_ports[i].to_alloy_port_config());
            i += 1;
        }
        PublicDeviceConfig {
            alias: self.alias.clone(),
            device_type: self.device.to_alloy_device_type(),
            inputs,
            outputs,
        }
    }
}

impl UniverseState {
    /// All devices as the API shows them.
    pub fn to_alloy_universe_config(&self) -> (config: UniverseConfig)
        ensures
            config.version == self.version,
            config.devices@.len() == self.devices@.len(),
            forall|d: int|
                0 <= d < config.devices@.len() ==> shows_device(
                    #[trigger] config.devices@[d],
                    self.devices@[d],
                ),
    {
        let mut devices: Vec<PublicDeviceConfig> = Vec::new();
        let mut i: usize = 0;
        while i < self.devices.len()
            invariant
                i <= self.devices@.len(),
                devices@.len() == i,
                forall|d: int|
                    0 <= d < i ==> shows_device(#[trigger] devices@[d], self.devices@[d]),
            decreases self.devices.len() - i,
        {
            devices.push(self.devices[i].to_alloy_device_config());
            i += 1;
        }
        UniverseConfig { version: self.version, devices }
    }
}

/// The members of a group of devices that share a bus.
#[derive(Debug)]
pub struct SyncGroup {
    pub bus: String,
    pub members: Vec<usize>,
}

/// The positions of the first `n` buses that are the given one.
pub open spec fn positions_of(buses: Seq<Seq<char>>, bus: Seq<char>, n: int) -> Seq<usize>
    decreases n,
{
    if n <= 0 {
        Seq::empty()
    } else {
        let before = positions_of(buses, bus, n - 1);
        if buses[n - 1] == bus {
            before.push((n - 1) as usize)
        } else {
            before
        }
    }
}

/// The buses of groups.
pub open spec fn group_buses(groups: Seq<SyncGroup>) -> Seq<Seq<char>> {
    groups.map_values(|g: SyncGroup| g.bus@)
}

/// Whether groups hold the first `n` devices, each of them in the group of its bus. No group is
/// empty.
pub open spec fn are_groups(groups: Seq<SyncGroup>, buses: Seq<Seq<char>>, n: int) -> bool {
    &&& group_buses(groups).no_duplicates()
    &&& forall|g: int|
        0 <= g < groups.len() ==> (#[trigger] groups[g]).members@ == positions_of(
            buses,
            groups[g].bus@,
            n,
        )
    &&& forall|g: int| 0 <= g < groups.len() ==> (#[trigger] groups[g]).members@.len() > 0
    &&& forall|i: int| 0 <= i < n ==> group_buses(groups).contains(#[trigger] buses[i])
}

/// The names of buses in lower case.
pub open spec fn normalized(buses: Seq<String>) -> Seq<Seq<char>> {
    buses.map_values(|b: String| lowercase_of(b@))
}

proof fn lemma_no_positions(buses: Seq<Seq<char>>, bus: Seq<char>, n: int)
    requires
        0 <= n <= buses.len(),
        forall|i: int| 0 <= i < n ==> #[trigger] buses[i] != bus,
    ensures
        positions_of(buses, bus, n) == Seq::<usize>::empty(),
    decreases n,
{
    if n > 0 {
        lemma_no_positions(buses, bus, n - 1);
    }
}

/// Groups devices by the buses that they are attached to. The names of buses are not told apart by
/// upper and lower case. Within a group the devices keep their order.
pub fn group_by_bus(buses: &Vec<String>) -> (groups: Vec<SyncGroup>)
    ensures
        are_groups(groups@, normalized(buses@), buses@.len() as int),
{
    let mut names: Vec<String> = Vec::new();
    let mut i: usize = 0;
    while i < buses.len()
        invariant
            i <= buses@.len(),
            names@.len() == i,
            forall|j: int| 0 <= j < i ==> (#[trigger] names@[j])@ == normalized(buses@)[j],
        decreases buses.len() - i,
    {
        names.push(lowercase(buses[i].as_str()));
        i += 1;
    }
    assert(texts(names@) =~= normalized(buses@));
    group_by_name(&names)
}

/// Groups devices by the names of their buses.
pub fn group_by_name(buses: &Vec<String>) -> (groups: Vec<SyncGroup>)
    ensures
        are_groups(groups@, texts(buses@), buses@.len() as int),
{
    let ghost names = texts(buses@);
    let mut groups: Vec<SyncGroup> = Vec::new();
    let mut i: usize = 0;
    while i < buses.len()
        invariant
            i <= buses@.len(),
            names == texts(buses@),
            are_groups(groups@, names, i as int),
        decreases buses.len() - i,
    {
        let bus: String = buses[i].clone();
        assert(bus@ == names[i as int]);
        let ghost before = groups@;
        let ghost known = group_buses(before);
        let mut g: usize = 0;
        while g < groups.len() && !same_text(groups[g].bus.as_str(), bus.as_str())
            invariant
                g <= groups@.len(),
                groups@ == before,
                forall|h: int| 0 <= h < g ==> (#[trigger] groups@[h]).bus@ != bus@,
            decreases groups.len() - g,
        {
            g += 1;
        }
        if g < groups.len() {
            groups[g].members.push(i);
            proof {
                let after = groups@;
                assert(group_buses(after) =~= known);
                assert(known[g as int] == bus@);
                assert forall|h: int| 0 <= h < after.len() implies (
                #[trigger] after[h]).members@ == positions_of(names, after[h].bus@, i + 1)
                    && after[h].members@.len() > 0 by {
                    assert(before[h].members@ == positions_of(names, before[h].bus@, i as int));
                    if h != g {
                        assert(known[h] != known[g as int]);
                    }
                }
                assert forall|j: int| 0 <= j < i + 1 implies group_buses(after).contains(
                    #[trigger] names[j],
                ) by {
                    if j == i {
                        assert(known[g as int] == names[j]);
                    }
                }
            }
        } else {
            proof {
                assert forall|j: int| 0 <= j < i implies #[trigger] names[j] != bus@ by {
                    assert(known.contains(names[j]));
                    let h = choose|h: int| 0 <= h < known.len() && known[h] == names[j];
                    assert(before[h].bus@ != bus@);
                }
                lemma_no_positions(names, bus@, i as int);
            }
            let mut members: Vec<usize> = Vec::new();
            members.push(i);
            groups.push(SyncGroup { bus, members });
            proof {
                let after = groups@;
                let name = names[i as int];
                assert(group_buses(after) =~= known.push(name));
                assert forall|h: int| 0 <= h < after.len() implies (
                #[trigger] after[h]).members@ == positions_of(names, after[h].bus@, i + 1)
                    && after[h].members@.len() > 0 by {
                    if h < before.len() {
                        assert(before[h].members@ == positions_of(
                            names,
                            before[h].bus@,
                            i as int,
                        ));
                        assert(before[h].bus@ != name);
                    } else {
                        assert(after[h].members@ =~= positions_of(names, name, i + 1));
                    }
                }
                assert forall|j: int| 0 <= j < i + 1 implies group_buses(after).contains(
                    #[trigger] names[j],
                ) by {
                    if j == i {
                        assert(group_buses(after)[known.len() as int] == name);
                    } else {
                        assert(known.contains(names[j]));
                        let h = choose|h: int| 0 <= h < known.len() && known[h] == names[j];
                        assert(group_buses(after)[h] == names[j]);
                    }
                }
                assert(group_buses(after).no_duplicates()) by {
                    assert forall|a: int, b: int| 0 <= a < b < after.len() implies group_buses(
                        after,
                    )[a] != group_buses(after)[b] by {
                        if b == known.len() {
                            assert(before[a].bus@ != name);
                        } else {
                            assert(known[a] != known[b]);
                        }
                    }
                }
            }
        }
        i += 1;
    }
    groups
}

/// The interval at which the devices of a group are updated: the one that all of them have.
pub open spec fn common_interval(intervals: Seq<u64>) -> Result<u64, Seq<char>>
    decreases intervals.len(),
{
    if intervals.len() == 0 {
        Ok(0)
    } else {
        match common_interval(intervals.drop_last()) {
            Err(message) => Err(message),
            Ok(interval) => if intervals.last() == 0 {
                Err("synchronized PCA9685 needs update_interval_millis != 0"@)
            } else if interval != 0 && interval != intervals.last() {
                Err("synchronized PCA9685 need to have the same update interval"@)
            } else {
                Ok(intervals.last())
            },
        }
    }
}

/// Checks one more device of a group, whose devices so far have the given interval; it is zero if
/// there are none. Yields the interval of all of them.
pub fn join_interval(update_interval: u64, update_interval_millis: u64) -> (result: Result<
    u64,
    String,
>)
    ensures
        outcome(result) == (if update_interval_millis == 0 {
            Err("synchronized PCA9685 needs update_interval_millis != 0"@)
        } else if update_interval != 0 && update_interval != update_interval_millis {
            Err("synchronized PCA9685 need to have the same update interval"@)
        } else {
            Ok(update_interval_millis)
        }),
{
    if update_interval_millis == 0 {
        return Err("synchronized PCA9685 needs update_interval_millis != 0".to_owned());
    }
    if update_interval != 0 && update_interval != update_interval_millis {
        return Err("synchronized PCA9685 need to have the same update interval".to_owned());
    }
    Ok(update_interval_millis)
}

/// Checks the intervals of all devices of a group.
pub fn synchronize_pcas(intervals: &Vec<u64>) -> (result: Result<u64, String>)
    ensures
        outcome(result) == common_interval(intervals@),
{
    let mut update_interval: u64 = 0;
    let mut i: usize = 0;
    assert(intervals@.take(0) =~= Seq::<u64>::empty());
    while i < intervals.len()
        invariant
            i <= intervals@.len(),
            common_interval(intervals@.take(i as int)) == Ok::<u64, Seq<char>>(update_interval),
        decreases intervals.len() - i,
    {
        proof {
            assert(intervals@.take(i + 1).drop_last() =~= intervals@.take(i as int));
        }
        match join_interval(update_interval, intervals[i]) {
            Ok(interval) => {
                update_interval = interval;
            },
            Err(message) => {
                proof {
                    lemma_interval_error(intervals@, i + 1);
                }
                return Err(message);
            },
        }
        i += 1;
    }
    assert(intervals@.take(i as int) =~= intervals@);
    Ok(update_interval)
}

proof fn lemma_interval_error(intervals: Seq<u64>, n: int)
    requires
        0 <= n <= intervals.len(),
        common_interval(intervals.take(n)) is Err,
    ensures
        common_interval(intervals) == common_interval(intervals.take(n)),
    decreases intervals.len() - n,
{
    if n == intervals.len() {
        assert(intervals.take(n) =~= intervals);
    } else {
        assert(intervals.take(n + 1).drop_last() =~= intervals.take(n));
        lemma_interval_error(intervals, n + 1);
    }
}

/// The devices of a group have a common interval exactly if none of them has the interval zero
/// and all have the same one.
pub proof fn law_common_interval(intervals: Seq<u64>)
    requires
        intervals.len() > 0,
    ensures
        common_interval(intervals) is Ok <==> intervals[0] != 0 && forall|i: int|
            0 <= i < intervals.len() ==> #[trigger] intervals[i] == intervals[0],
        common_interval(intervals) is Ok ==> common_interval(intervals) == Ok::<u64, Seq<char>>(
            intervals[0],
        ),
    decreases intervals.len(),
{
    let rest = intervals.drop_last();
    if rest.len() > 0 {
        law_common_interval(rest);
        assert forall|i: int| 0 <= i < rest.len() implies rest[i] == intervals[i] by {}
        if forall|i: int| 0 <= i < intervals.len() ==> #[trigger] intervals[i] == intervals[0] {
            assert forall|i: int| 0 <= i < rest.len() implies #[trigger] rest[i] == rest[0] by {
                assert(intervals[i] == intervals[0]);
            }
            assert(intervals[intervals.len() - 1] == intervals[0]);
        }
        if common_interval(intervals) is Ok {
            assert forall|i: int| 0 <= i < intervals.len() implies #[trigger] intervals[i]
                == intervals[0] by {
                if i < rest.len() {
                    assert(rest[i] == rest[0]);
                }
            }
        }
    } else {
        assert(common_interval(rest) == Ok::<u64, Seq<char>>(0));
    }
}

proof fn lemma_name_position(devices: Seq<HardwareDeviceState>, d: int, j: int)
    requires
        0 <= d < devices.len(),
        0 <= j < devices[d].names().len(),
    ensures
        all_names(devices.take(d)).len() + devices[d].names().len() <= all_names(devices).len(),
        all_names(devices)[all_names(devices.take(d)).len() + j] == devices[d].names()[j],
    decreases devices.len(),
{
    let rest = devices.drop_last();
    if d == devices.len() - 1 {
        assert(devices.take(d) =~= rest);
    } else {
        assert(rest.take(d) =~= devices.take(d));
        lemma_name_position(rest, d, j);
    }
}

proof fn lemma_name_offsets(devices: Seq<HardwareDeviceState>, d: int, e: int)
    requires
        0 <= d < e <= devices.len(),
    ensures
        all_names(devices.take(d)).len() + devices[d].names().len() <= all_names(
            devices.take(e),
        ).len(),
    decreases e - d,
{
    assert(devices.take(d + 1).drop_last() =~= devices.take(d));
    assert(devices.take(d + 1).last() == devices[d]);
    if d + 1 < e {
        lemma_name_offsets(devices, d + 1, e);
    }
}

/// The position of a virtual device's alias among the names of its device.
pub open spec fn name_index(state: HardwareDeviceState, output: bool, index: int) -> int {
    if output {
        1 + state.input_ports@.len() + index
    } else {
        1 + index
    }
}

proof fn lemma_port_name(state: HardwareDeviceState, output: bool, index: int)
    requires
        state.has_port(output, index),
    ensures
        0 <= name_index(state, output, index) < state.names().len(),
        state.names()[name_index(state, output, index)] == state.port(output, index).alias,
{
    let views = state.port_views();
    let i = name_index(state, output, index) - 1;
    assert(views[i] == state.port(output, index));
    assert(state.names()[i + 1] == views.map_values(|p: PortStateView| p.alias)[i]);
}

proof fn lemma_port_index(state: HardwareDeviceState, output: bool, index: int)
    requires
        state.has_port(output, index),
    ensures
        index as usize == index,
{
    assert(state.input_ports.len() == state.input_ports@.len());
    assert(state.output_ports.len() == state.output_ports@.len());
}

/// Every virtual device has an address and an alias of its own: two different ones share neither.
/// Addresses run from 1 to the number of virtual devices.
pub proof fn law_virtual_devices_are_distinct(
    universe: UniverseState,
    d: int,
    output_d: bool,
    i: int,
    e: int,
    output_e: bool,
    j: int,
)
    requires
        universe.wf(),
        0 <= d < universe.devices@.len(),
        0 <= e < universe.devices@.len(),
        universe.devices@[d].has_port(output_d, i),
        universe.devices@[e].has_port(output_e, j),
        d != e || output_d != output_e || i != j,
    ensures
        universe.devices@[d].port(output_d, i).address != universe.devices@[e].port(
            output_e,
            j,
        ).address,
        universe.devices@[d].port(output_d, i).alias != universe.devices@[e].port(
            output_e,
            j,
        ).alias,
        1 <= universe.devices@[d].port(output_d, i).address <= universe.port_count(),
{
    let devices = universe.devices@;
    assert(devices[d].port(output_d, i).address != devices[e].port(output_e, j).address) by {
        assert(universe.devices.len() == devices.len());
        lemma_port_index(devices[d], output_d, i);
        lemma_port_index(devices[e], output_e, j);
        let route_d = universe.route(devices[d].port(output_d, i).address);
        let route_e = universe.route(devices[e].port(output_e, j).address);
        assert(route_d.device == d && route_d.output == output_d && route_d.index == i);
        assert(route_e.device == e && route_e.output == output_e && route_e.index == j);
    }
    lemma_port_name(devices[d], output_d, i);
    lemma_port_name(devices[e], output_e, j);
    let m = name_index(devices[d], output_d, i);
    let n = name_index(devices[e], output_e, j);
    lemma_name_position(devices, d, m);
    lemma_name_position(devices, e, n);
    if d < e {
        lemma_name_offsets(devices, d, e);
    }
    if e < d {
        lemma_name_offsets(devices, e, d);
    }
}

/// The outputs of all devices.
pub open spec fn outputs_views(universe: UniverseState) -> Seq<OutputsView> {
    Seq::new(universe.devices@.len(), |d: int| outputs_of(universe.devices@[d].device))
}

/// Outputs after a value was set.
pub open spec fn output_set(outputs: OutputsView, port: int, value: OutputValue) -> OutputsView {
    OutputsView {
        values: outputs.values.update(port, value),
        dirty: outputs.dirty || value != outputs.values[port],
        ..outputs
    }
}

/// The outputs of all devices after a value was set at an address. Addresses that are not those of
/// outputs change nothing.
pub open spec fn with_value(
    universe: UniverseState,
    outputs: Seq<OutputsView>,
    address: Address,
    value: OutputValue,
) -> Seq<OutputsView> {
    if universe.is_output_address(address) {
        let route = universe.route(address);
        let d = route.device as int;
        outputs.update(
            d,
            output_set(outputs[d], port_at(universe.devices@, route).port as int, value),
        )
    } else {
        outputs
    }
}

/// Whether two universes differ in nothing but their outputs.
pub open spec fn only_outputs_changed(before: UniverseState, after: UniverseState) -> bool {
    &&& after.version == before.version
    &&& after.aliases == before.aliases
    &&& after.routes == before.routes
    &&& after.devices@.len() == before.devices@.len()
    &&& forall|d: int|
        0 <= d < before.devices@.len() ==> {
            let old_state = #[trigger] before.devices@[d];
            let new_state = after.devices@[d];
            &&& new_state.alias == old_state.alias
            &&& new_state.tags == old_state.tags
            &&& new_state.input_ports == old_state.input_ports
            &&& new_state.output_ports == old_state.output_ports
            &&& new_state.device.same_setup(old_state.device)
            &&& new_state.device.inputs() == old_state.device.inputs()
        }
}

/// If nothing but outputs changed twice, nothing else changed at all.
pub proof fn lemma_changes_add_up(a: UniverseState, b: UniverseState, c: UniverseState)
    requires
        only_outputs_changed(a, b),
        only_outputs_changed(b, c),
    ensures
        only_outputs_changed(a, c),
{
    assert forall|d: int| 0 <= d < a.devices@.len() implies {
        let old_state = #[trigger] a.devices@[d];
        let new_state = c.devices@[d];
        &&& new_state.alias == old_state.alias
        &&& new_state.tags == old_state.tags
        &&& new_state.input_ports == old_state.input_ports
        &&& new_state.output_ports == old_state.output_ports
        &&& new_state.device.same_setup(old_state.device)
        &&& new_state.device.inputs() == old_state.device.inputs()
    } by {
        let middle = b.devices@[d];
    }
}

/// Setting one more value, after some were set already, does what `with_value` says.
pub proof fn lemma_one_more_value(
    start: UniverseState,
    before: UniverseState,
    after: UniverseState,
    address: Address,
    value: OutputValue,
)
    requires
        start.wf(),
        before.wf(),
        only_outputs_changed(start, before),
        errors_kept(start, before),
        before.is_output_address(address) ==> value_set(before, after, address, value),
        !before.is_output_address(address) ==> after == before,
    ensures
        start.is_output_address(address) == before.is_output_address(address),
        only_outputs_changed(start, after),
        errors_kept(start, after),
        outputs_views(after) == with_value(start, outputs_views(before), address, value),
{
    if before.is_output_address(address) {
        let route = before.route_seq()[address - 1];
        let d = route.device as int;
        assert(leads_to_port(before.devices@, route));
        assert(start.devices@[d].output_ports == before.devices@[d].output_ports);
        let port = port_at(before.devices@, route).port as int;
        assert(port_at(start.devices@, route) == port_at(before.devices@, route));
        assert forall|e: int| 0 <= e < start.devices@.len() implies {
            let old_state = #[trigger] start.devices@[e];
            let new_state = after.devices@[e];
            &&& new_state.alias == old_state.alias
            &&& new_state.tags == old_state.tags
            &&& new_state.input_ports == old_state.input_ports
            &&& new_state.output_ports == old_state.output_ports
            &&& new_state.device.same_setup(old_state.device)
            &&& new_state.device.inputs() == old_state.device.inputs()
        } by {
            let middle = before.devices@[e];
            if e != d {
                assert(after.devices@[e] == middle);
            }
        }
        assert forall|e: int| 0 <= e < start.devices@.len() implies outputs_of(
            (#[trigger] after.devices@[e]).device,
        ).last_error == outputs_of(start.devices@[e].device).last_error by {
            let middle = before.devices@[e];
            assert(outputs_of(middle.device).last_error == outputs_of(
                start.devices@[e].device,
            ).last_error);
            if e != d {
                assert(after.devices@[e] == middle);
            }
        }
        assert(outputs_views(after) =~= with_value(
            start,
            outputs_views(before),
            address,
            value,
        )) by {
            assert forall|e: int| 0 <= e < before.devices@.len() && e != d implies after.devices@[e]
                == before.devices@[e] by {}
        }
    }
}

/// What was set is what will be written: after a value was set at an address, the buffer holds it,
/// and the values at all other addresses are as they were.
pub proof fn law_set_value_is_kept(
    before: UniverseState,
    after: UniverseState,
    address: Address,
    value: OutputValue,
    other: Address,
)
    requires
        before.wf(),
        before.is_output_address(address),
        value_set(before, after, address, value),
    ensures
        after.buffered(address) == value,
        before.is_output_address(other) && other != address ==> after.buffered(other)
            == before.buffered(other),
{
    let route = before.route_seq()[address - 1];
    let devices = before.devices@;
    assert(leads_to_port(devices, route) && port_at(devices, route).address == address);
    let d = route.device as int;
    let state = devices[d];
    assert(state.wf());
    assert(state.device.kind().is_output(state.output_ports@[route.index as int].port.port));
    if before.is_output_address(other) && other != address {
        let other_route = before.route_seq()[other - 1];
        assert(leads_to_port(devices, other_route) && port_at(devices, other_route).address
            == other);
        if other_route.device == route.device {
            assert(other_route.index != route.index);
            if other_route.index < route.index {
                assert(state.output_ports@[other_route.index as int].port.port
                    != state.output_ports@[route.index as int].port.port);
            } else {
                assert(state.output_ports@[route.index as int].port.port
                    != state.output_ports@[other_route.index as int].port.port);
            }
            assert(state.device.kind().is_output(
                state.output_ports@[other_route.index as int].port.port,
            ));
        } else {
            assert(after.devices@[other_route.device as int] == devices[other_route.device as int]);
        }
    }
}

proof fn lemma_notified(devices: Seq<HardwareDeviceState>, n: int, d: int)
    requires
        0 <= d < n <= devices.len(),
        d as usize == d,
        devices[d].device.kind() is MCP23017,
        outputs_of(devices[d].device).dirty,
    ensures
        to_notify(devices, n).contains(d as usize),
    decreases n,
{
    let before = to_notify(devices, n - 1);
    if d == n - 1 {
        assert(to_notify(devices, n).last() == d as usize);
    } else {
        lemma_notified(devices, n - 1, d);
        let i = choose|i: int| 0 <= i < before.len() && before[i] == d as usize;
        assert(to_notify(devices, n)[i] == d as usize);
    }
}

proof fn lemma_failure_told(devices: Seq<HardwareDeviceState>, n: int, d: int, message: Seq<char>)
    requires
        0 <= d < n <= devices.len(),
        outputs_of(devices[d].device).last_error == Some(message),
    ensures
        update_failures(devices, n).contains(update_failure(devices[d].alias@, message)),
    decreases n,
{
    let before = update_failures(devices, n - 1);
    let failure = update_failure(devices[d].alias@, message);
    if d == n - 1 {
        assert(update_failures(devices, n).last() == failure);
    } else {
        lemma_failure_told(devices, n - 1, d, message);
        let i = choose|i: int| 0 <= i < before.len() && before[i] == failure;
        assert(update_failures(devices, n)[i] == failure);
    }
}

/// A device that could not be updated is told of with the next update of all devices, under its
/// alias. After that there is nothing more to tell, as long as no other update fails.
pub proof fn law_failed_update_is_told_once(
    before: UniverseState,
    after: UniverseState,
    d: int,
    message: Seq<char>,
)
    requires
        0 <= d < before.devices@.len(),
        outputs_of(before.devices@[d].device).last_error == Some(message),
        outputs_views(after) == errors_retrieved(outputs_views(before)),
    ensures
        update_failures(before.devices@, before.devices@.len() as int).contains(
            update_failure(before.devices@[d].alias@, message),
        ),
        update_failures(after.devices@, after.devices@.len() as int).len() == 0,
{
    lemma_failure_told(before.devices@, before.devices@.len() as int, d, message);
    assert(outputs_views(after).len() == outputs_views(before).len());
    assert forall|e: int| 0 <= e < after.devices@.len() implies outputs_of(
        (#[trigger] after.devices@[e]).device,
    ).last_error is None by {
        assert(outputs_views(after)[e] == outputs_of(after.devices@[e].device));
    }
    lemma_no_failures(after.devices@, after.devices@.len() as int);
}

proof fn lemma_no_failures(devices: Seq<HardwareDeviceState>, n: int)
    requires
        0 <= n <= devices.len(),
        forall|d: int|
            0 <= d < n ==> outputs_of((#[trigger] devices[d]).device).last_error is None,
    ensures
        update_failures(devices, n) == Seq::<Seq<char>>::empty(),
    decreases n,
{
    if n > 0 {
        lemma_no_failures(devices, n - 1);
        assert(outputs_of(devices[n - 1].device).last_error is None);
    }
}

/// A port expander is flushed as soon as a new value is written: it is among the devices that are
/// told to update.
pub proof fn law_new_value_is_flushed(
    before: UniverseState,
    after: UniverseState,
    address: Address,
    value: OutputValue,
)
    requires
        before.wf(),
        before.is_output_address(address),
        before.device_at(address).device.kind() == DeviceKind::MCP23017,
        value_set(before, after, address, value),
        value != before.buffered(address),
    ensures
        to_notify(after.devices@, after.devices@.len() as int).contains(
            before.route(address).device,
        ),
{
    let route = before.route_seq()[address - 1];
    assert(leads_to_port(before.devices@, route));
    lemma_notified(after.devices@, after.devices@.len() as int, route.device as int);
}

proof fn lemma_current_event_is_told(ports: Seq<PortStateView>, i: int)
    requires
        0 <= i < ports.len(),
        ports[i].current_event() is Some,
    ensures
        current_events(ports).contains(ports[i].current_event()->0),
    decreases ports.len(),
{
    let rest = ports.drop_last();
    let event = ports[i].current_event()->0;
    if i < rest.len() {
        lemma_current_event_is_told(rest, i);
        let j = choose|j: int|
            0 <= j < current_events(rest).len() && current_events(rest)[j] == event;
        assert(current_events(ports)[j] == event);
    } else {
        assert(current_events(ports).last() == event);
    }
}

proof fn lemma_told_event_is_current(ports: Seq<PortStateView>, event: AddressedEventView)
    requires
        current_events(ports).contains(event),
    ensures
        exists|i: int|
            0 <= i < ports.len() && (#[trigger] ports[i]).current_event() == Some(event),
    decreases ports.len(),
{
    if ports.len() > 0 {
        let rest = ports.drop_last();
        let events = current_events(ports);
        let j = choose|j: int| 0 <= j < events.len() && events[j] == event;
        if j < current_events(rest).len() {
            assert(current_events(rest)[j] == event);
            lemma_told_event_is_current(rest, event);
            let i = choose|i: int|
                0 <= i < rest.len() && (#[trigger] rest[i]).current_event() == Some(event);
            assert(ports[i].current_event() == Some(event));
        } else {
            assert(ports[ports.len() - 1].current_event() == Some(event));
        }
    }
}

proof fn lemma_port_is_listed(devices: Seq<HardwareDeviceState>, d: int, output: bool, index: int)
    requires
        0 <= d < devices.len(),
        devices[d].has_port(output, index),
    ensures
        exists|i: int|
            0 <= i < all_ports(devices).len() && #[trigger] all_ports(devices)[i]
                == devices[d].port(output, index),
    decreases devices.len(),
{
    let rest = devices.drop_last();
    let port = devices[d].port(output, index);
    if d < rest.len() {
        lemma_port_is_listed(rest, d, output, index);
        let i = choose|i: int|
            0 <= i < all_ports(rest).len() && #[trigger] all_ports(rest)[i] == port;
        assert(all_ports(devices)[i] == port);
    } else {
        let state = devices[d];
        let j = if output {
            state.input_ports@.len() + index
        } else {
            index
        };
        assert(state.port_views()[j] == port);
        assert(all_ports(devices)[all_ports(rest).len() + j] == port);
    }
}

proof fn lemma_listed_port(devices: Seq<HardwareDeviceState>, i: int) -> (place: (int, bool, int))
    requires
        0 <= i < all_ports(devices).len(),
    ensures
        0 <= place.0 < devices.len(),
        devices[place.0].has_port(place.1, place.2),
        devices[place.0].port(place.1, place.2) == all_ports(devices)[i],
    decreases devices.len(),
{
    let rest = devices.drop_last();
    if i < all_ports(rest).len() {
        let place = lemma_listed_port(rest, i);
        assert(devices[place.0] == rest[place.0]);
        place
    } else {
        let state = devices.last();
        let j = i - all_ports(rest).len();
        let inputs = state.input_ports@.len();
        assert(state.port_views()[j] == all_ports(devices)[i]);
        if j < inputs {
            (devices.len() - 1, false, j)
        } else {
            (devices.len() - 1, true, j - inputs)
        }
    }
}

proof fn lemma_current_value_is_told(universe: UniverseState, address: Address, event: EventView)
    requires
        universe.wf(),
        universe.has_address(address),
        port_at(universe.devices@, universe.route(address)).current_event() == Some(
            AddressedEventView { address, event },
        ),
    ensures
        only_told(current_events(all_ports(universe.devices@)), address, event),
{
    let devices = universe.devices@;
    let route = universe.route_seq()[address - 1];
    assert(leads_to_port(devices, route) && port_at(devices, route).address == address);
    let port = port_at(devices, route);
    let ports = all_ports(devices);
    let told = current_events(ports);
    let expected = AddressedEventView { address, event };
    lemma_port_is_listed(devices, route.device as int, route.output, route.index as int);
    let i = choose|i: int| 0 <= i < ports.len() && #[trigger] ports[i] == port;
    lemma_current_event_is_told(ports, i);
    assert forall|i: int| 0 <= i < told.len() && (#[trigger] told[i]).address == address implies
        told[i] == expected by {
        assert(told.contains(told[i]));
        lemma_told_event_is_current(ports, told[i]);
        let j = choose|j: int|
            0 <= j < ports.len() && (#[trigger] ports[j]).current_event() == Some(told[i]);
        let (d, output, index) = lemma_listed_port(devices, j);
        assert(ports[j].address == address);
        let other = devices[d].port(output, index);
        assert(universe.route(other.address) == (Route {
            device: d as usize,
            output,
            index: index as usize,
        }));
        lemma_port_index(devices[d], output, index);
        assert(d as usize == d) by {
            assert(universe.devices.len() == devices.len());
        }
    }
}

/// Whether an event is told of an address, and no other one is.
pub open spec fn only_told(
    told: Seq<AddressedEventView>,
    address: Address,
    event: EventView,
) -> bool {
    &&& told.contains(AddressedEventView { address, event })
    &&& forall|i: int|
        0 <= i < told.len() && (#[trigger] told[i]).address == address ==> told[i].event == event
}

/// Once an event with a new value, or with an error, was picked up for an address, the current
/// value of that address is the one of the event, with its time. It does not matter what was
/// remembered before.
pub proof fn law_current_value_is_the_last_one(
    universe: UniverseState,
    address: Address,
    before: PortStateView,
    ts: Timestamp,
    value: Result<InputValue, Seq<char>>,
)
    requires
        universe.wf(),
        universe.has_address(address),
        port_at(universe.devices@, universe.route(address)) == before.after_event(
            EventView {
                timestamp: ts,
                inner: match value {
                    Ok(new_value) => Ok(EventKind::Update { new_value }),
                    Err(message) => Err(message),
                },
            },
        ),
    ensures
        only_told(
            current_events(all_ports(universe.devices@)),
            address,
            EventView {
                timestamp: ts,
                inner: match value {
                    Ok(new_value) => Ok(EventKind::Update { new_value }),
                    Err(message) => Err(message),
                },
            },
        ),
{
    let event = EventView {
        timestamp: ts,
        inner: match value {
            Ok(new_value) => Ok(EventKind::Update { new_value }),
            Err(message) => Err(message),
        },
    };
    let route = universe.route_seq()[address - 1];
    assert(leads_to_port(universe.devices@, route) && port_at(universe.devices@, route).address
        == address);
    lemma_current_value_is_told(universe, address, event);
}

/// After several events were picked up for an address, one after the other, its current value is
/// that of the last one among them that told a value or an error. Presses of buttons in between do
/// not change it.
pub proof fn law_current_value_after_events(
    universe: UniverseState,
    address: Address,
    before: PortStateView,
    events: Seq<EventView>,
    last: int,
)
    requires
        universe.wf(),
        universe.has_address(address),
        port_at(universe.devices@, universe.route(address)) == after_events(before, events),
        0 <= last < events.len(),
        !is_button_event(events[last]),
        forall|i: int| last < i < events.len() ==> is_button_event(#[trigger] events[i]),
    ensures
        only_told(current_events(all_ports(universe.devices@)), address, events[last]),
{
    law_last_event_is_remembered(before, events, last);
    let route = universe.route_seq()[address - 1];
    assert(leads_to_port(universe.devices@, route) && port_at(universe.devices@, route).address
        == address);
    lemma_current_value_is_told(universe, address, events[last]);
}

/// A new device is found under the addresses behind those that were given before: first its inputs,
/// then its outputs, in the order of their configurations, with their ports, and with the aliases
/// that were configured, in lower case.
pub proof fn law_added_device_has_its_ports(
    state: HardwareDeviceState,
    cfg: DeviceConfig,
    alias: Seq<char>,
    device: DeviceType,
    before: int,
    i: int,
)
    requires
        added_as_configured(state, cfg, alias, device, before),
        i >= 0,
    ensures
        state.alias@ == alias,
        (cfg.inputs matches Some(inputs) && i < inputs@.len()) ==> {
            let port = state.input_ports@[i].port@;
            &&& port.address == before + 1 + i
            &&& port.port == cfg.inputs->0@[i].base.port
            &&& port.last_value is None
            &&& cfg.inputs->0@[i].base.alias matches Some(name) ==> port.alias == lowercase_of(name@)
        },
        (cfg.outputs matches Some(outputs) && i < outputs@.len()) ==> {
            let port = state.output_ports@[i].port@;
            let inputs = match cfg.inputs {
                Some(inputs) => inputs@.len() as int,
                None => 0,
            };
            &&& port.address == before + inputs + 1 + i
            &&& port.port == cfg.outputs->0@[i].base.port
            &&& port.last_value is None
            &&& cfg.outputs->0@[i].base.alias matches Some(name) ==> port.alias == lowercase_of(
                name@,
            )
        },
{
}

/// Nothing but a new value of an output has to be written: to set the value that it has already
/// changes nothing, and other devices have nothing new to write either way.
pub proof fn law_same_value_is_not_written(
    before: UniverseState,
    after: UniverseState,
    address: Address,
    value: OutputValue,
    d: int,
)
    requires
        before.wf(),
        before.is_output_address(address),
        value_set(before, after, address, value),
        0 <= d < before.devices@.len(),
    ensures
        value == before.buffered(address) ==> outputs_of(after.devices@[d].device) == outputs_of(
            before.devices@[d].device,
        ),
        d != before.route(address).device ==> after.devices@[d] == before.devices@[d],
        outputs_of(after.devices@[d].device).scalings == outputs_of(
            before.devices@[d].device,
        ).scalings,
        outputs_of(after.devices@[d].device).last_error == outputs_of(
            before.devices@[d].device,
        ).last_error,
        outputs_of(before.devices@[d].device).dirty ==> outputs_of(after.devices@[d].device).dirty,
{
    let route = before.route_seq()[address - 1];
    assert(leads_to_port(before.devices@, route));
    let e = route.device as int;
    let outputs = outputs_of(before.devices@[e].device);
    let port = port_at(before.devices@, route).port as int;
    if value == before.buffered(address) {
        assert(before.devices@[e].wf());
        assert(before.devices@[e].device.kind().is_output(
            before.devices@[e].output_ports@[route.index as int].port.port,
        ));
        assert(outputs.values.update(port, value) =~= outputs.values);
    }
}

/// The devices that are told to update are exactly the port expanders with something to write, in
/// their order.
pub proof fn law_only_expanders_are_told(devices: Seq<HardwareDeviceState>, n: int, i: int)
    requires
        0 <= n <= devices.len() <= usize::MAX,
        0 <= i < to_notify(devices, n).len(),
    ensures
        to_notify(devices, n)[i] < n,
        devices[to_notify(devices, n)[i] as int].device is MCP23017,
        outputs_of(devices[to_notify(devices, n)[i] as int].device).dirty,
        i > 0 ==> to_notify(devices, n)[i - 1] < to_notify(devices, n)[i],
    decreases n,
{
    let before = to_notify(devices, n - 1);
    if i < before.len() {
        law_only_expanders_are_told(devices, n - 1, i);
    } else if i > 0 {
        law_only_expanders_are_told(devices, n - 1, i - 1);
    }
}

/// What is told of failed updates names the device and what went wrong with it, and nothing is told
/// of a device without a failure.
pub proof fn law_told_failures(devices: Seq<HardwareDeviceState>, n: int, i: int) -> (d: int)
    requires
        0 <= n <= devices.len(),
        0 <= i < update_failures(devices, n).len(),
    ensures
        0 <= d < n,
        outputs_of(devices[d].device).last_error is Some,
        update_failures(devices, n)[i] == "unable to update output device "@ + devices[d].alias@
            + ": "@ + outputs_of(devices[d].device).last_error->0,
    decreases n,
{
    let before = update_failures(devices, n - 1);
    if i < before.len() {
        law_told_failures(devices, n - 1, i)
    } else {
        n - 1
    }
}

/// Failed updates are told in the order of devices.
pub proof fn law_failures_are_told_in_order(
    devices: Seq<HardwareDeviceState>,
    n: int,
    i: int,
    j: int,
) -> (told: (int, int))
    requires
        0 <= n <= devices.len(),
        0 <= i < j < update_failures(devices, n).len(),
    ensures
        0 <= told.0 < told.1 < n,
        outputs_of(devices[told.0].device).last_error is Some,
        outputs_of(devices[told.1].device).last_error is Some,
        update_failures(devices, n)[i] == "unable to update output device "@
            + devices[told.0].alias@ + ": "@ + outputs_of(devices[told.0].device).last_error->0,
        update_failures(devices, n)[j] == "unable to update output device "@
            + devices[told.1].alias@ + ": "@ + outputs_of(devices[told.1].device).last_error->0,
    decreases n,
{
    let before = update_failures(devices, n - 1);
    if j < before.len() {
        law_failures_are_told_in_order(devices, n - 1, i, j)
    } else {
        let first = law_told_failures(devices, n - 1, i);
        (first, n - 1)
    }
}

/// Errors are told, but nothing else of the outputs is changed by that.
pub proof fn law_errors_are_all_that_is_retrieved(outputs: Seq<OutputsView>, d: int)
    requires
        0 <= d < outputs.len(),
    ensures
        ({
            let after = errors_retrieved(outputs);
            &&& after.len() == outputs.len()
            &&& after[d].last_error is None
            &&& after[d].ports == outputs[d].ports
            &&& after[d].values == outputs[d].values
            &&& after[d].scalings == outputs[d].scalings
            &&& after[d].dirty == outputs[d].dirty
        }),
{
}

/// A device can have mappings only for the directions it has.
pub proof fn law_directions_are_checked(kind: DeviceKind, alias: Seq<char>, cfg: DeviceConfig)
    ensures
        ({
            let inputs = cfg.inputs matches Some(list) && list@.len() > 0;
            let outputs = cfg.outputs matches Some(list) && list@.len() > 0;
            let only_inputs = forall|port: u8| !kind.is_output(port);
            let only_outputs = forall|port: u8| !kind.is_input(port);
            &&& direction_error(kind, alias, cfg) is None <==> !(only_inputs && outputs) && !(
            only_outputs && inputs)
            &&& only_inputs && outputs ==> direction_error(kind, alias, cfg) == Some(
                seq![
                    "unable to map input ports"@,
                    alias + " is an input device but output port mappings were supplied"@,
                ],
            )
            &&& only_outputs && inputs ==> direction_error(kind, alias, cfg) == Some(
                seq![
                    "unable to map output ports"@,
                    alias + " is an output device but input port mappings were supplied"@,
                ],
            )
        }),
{
    law_every_port_has_one_direction(kind, 0);
    let input = alias + " is an input device but output port mappings were supplied"@;
    let output = alias + " is an output device but input port mappings were supplied"@;
    assert(within("unable to map input ports"@, failed(input)) =~= seq![
        "unable to map input ports"@,
        input,
    ]);
    assert(within("unable to map output ports"@, failed(output)) =~= seq![
        "unable to map output ports"@,
        output,
    ]);
}

/// Every device is in exactly one group, which is the one of its bus. Buses are not told apart by
/// upper and lower case.
pub proof fn law_every_device_is_in_its_group(
    groups: Seq<SyncGroup>,
    buses: Seq<String>,
    i: int,
)
    requires
        are_groups(groups, normalized(buses), buses.len() as int),
        0 <= i < buses.len() <= usize::MAX,
    ensures
        exists|g: int|
            0 <= g < groups.len() && (#[trigger] groups[g]).members@.contains(i as usize)
                && groups[g].bus@ == lowercase_of(buses[i]@),
        forall|g: int|
            0 <= g < groups.len() && (#[trigger] groups[g]).members@.contains(i as usize)
                ==> groups[g].bus@ == lowercase_of(buses[i]@),
        forall|g: int, h: int|
            0 <= g < h < groups.len() ==> (#[trigger] groups[g]).bus@ != (#[trigger] groups[h]).bus@,
{
    let names = normalized(buses);
    let bus = lowercase_of(buses[i]@);
    assert(names[i] == bus);
    assert(group_buses(groups).contains(names[i]));
    let g = choose|g: int| 0 <= g < group_buses(groups).len() && group_buses(groups)[g] == bus;
    assert(groups[g].bus@ == bus);
    lemma_position(names, bus, names.len() as int, i);
    assert forall|g: int|
        0 <= g < groups.len() && (#[trigger] groups[g]).members@.contains(i as usize) implies
        groups[g].bus@ == bus by {
        let members = groups[g].members@;
        let k = choose|k: int| 0 <= k < members.len() && members[k] == i as usize;
        lemma_positions_have_the_bus(names, groups[g].bus@, names.len() as int, k);
    }
    assert forall|g: int, h: int| 0 <= g < h < groups.len() implies (#[trigger] groups[g]).bus@ != (
    #[trigger] groups[h]).bus@ by {
        assert(group_buses(groups)[g] != group_buses(groups)[h]);
    }
}

/// Within a group devices keep their order, and none of them occurs twice.
pub proof fn law_groups_keep_the_order(
    groups: Seq<SyncGroup>,
    buses: Seq<String>,
    g: int,
    i: int,
    j: int,
)
    requires
        are_groups(groups, normalized(buses), buses.len() as int),
        buses.len() <= usize::MAX,
        0 <= g < groups.len(),
        0 <= i < j < groups[g].members@.len(),
    ensures
        groups[g].members@[i] < groups[g].members@[j] < buses.len(),
{
    lemma_positions_in_order(normalized(buses), groups[g].bus@, buses.len() as int, i, j);
}

proof fn lemma_positions_in_order(buses: Seq<Seq<char>>, bus: Seq<char>, n: int, i: int, j: int)
    requires
        0 <= n <= buses.len() <= usize::MAX,
        0 <= i < j < positions_of(buses, bus, n).len(),
    ensures
        positions_of(buses, bus, n)[i] < positions_of(buses, bus, n)[j] < n,
    decreases n,
{
    let before = positions_of(buses, bus, n - 1);
    if j < before.len() {
        lemma_positions_in_order(buses, bus, n - 1, i, j);
    } else {
        lemma_positions_have_the_bus(buses, bus, n - 1, i);
    }
}

proof fn lemma_position(buses: Seq<Seq<char>>, bus: Seq<char>, n: int, i: int)
    requires
        0 <= i < n <= buses.len(),
        buses[i] == bus,
    ensures
        positions_of(buses, bus, n).contains(i as usize),
    decreases n,
{
    let now = positions_of(buses, bus, n);
    if i == n - 1 {
        assert(now.last() == i as usize);
    } else {
        lemma_position(buses, bus, n - 1, i);
        let before = positions_of(buses, bus, n - 1);
        let k = choose|k: int| 0 <= k < before.len() && before[k] == i as usize;
        assert(now[k] == i as usize);
    }
}

proof fn lemma_positions_have_the_bus(buses: Seq<Seq<char>>, bus: Seq<char>, n: int, k: int)
    requires
        0 <= n <= buses.len() <= usize::MAX,
        0 <= k < positions_of(buses, bus, n).len(),
    ensures
        positions_of(buses, bus, n)[k] < n,
        buses[positions_of(buses, bus, n)[k] as int] == bus,
    decreases n,
{
    if k < positions_of(buses, bus, n - 1).len() {
        lemma_positions_have_the_bus(buses, bus, n - 1, k);
    }
}

/// Why the devices of a group have no common interval: the first device that spoils it has none, or
/// another one than those before it.
pub proof fn law_why_there_is_no_common_interval(intervals: Seq<u64>, next: u64)
    requires
        intervals.len() > 0,
        common_interval(intervals) is Ok,
    ensures
        next == 0 ==> common_interval(intervals.push(next)) == Err::<u64, Seq<char>>(
            "synchronized PCA9685 needs update_interval_millis != 0"@,
        ),
        next != 0 && next != intervals[0] ==> common_interval(intervals.push(next)) == Err::<
            u64,
            Seq<char>,
        >("synchronized PCA9685 need to have the same update interval"@),
{
    law_common_interval(intervals);
    assert(intervals.push(next).drop_last() =~= intervals);
}

/// Virtual devices are listed in the order of devices, and of each of them first its inputs, then
/// its outputs.
pub proof fn law_virtual_devices_in_order(
    devices: Seq<HardwareDeviceState>,
    next: HardwareDeviceState,
)
    ensures
        all_ports(devices.push(next)) == all_ports(devices) + Seq::new(
            next.input_ports@.len(),
            |i: int| next.input_ports@[i].port@,
        ) + Seq::new(next.output_ports@.len(), |i: int| next.output_ports@[i].port@),
        all_ports(Seq::empty()).len() == 0,
{
    assert(devices.push(next).drop_last() =~= devices);
    assert(all_ports(devices.push(next)) =~= all_ports(devices) + Seq::new(
        next.input_ports@.len(),
        |i: int| next.input_ports@[i].port@,
    ) + Seq::new(next.output_ports@.len(), |i: int| next.output_ports@[i].port@));
}

/// Current values are told in the order in which virtual devices are listed.
pub proof fn law_current_values_in_order(ports: Seq<PortStateView>, more: Seq<PortStateView>)
    ensures
        current_events(ports + more) == current_events(ports) + current_events(more),
        current_events(ports).len() <= ports.len(),
    decreases more.len(), ports.len(),
{
    if more.len() > 0 {
        let all = ports + more;
        assert(all.drop_last() =~= ports + more.drop_last());
        assert(all.last() == more.last());
        law_current_values_in_order(ports, more.drop_last());
        assert(current_events(all) =~= current_events(ports) + current_events(more));
    } else {
        assert(ports + more =~= ports);
        assert(current_events(ports) + current_events(more) =~= current_events(ports));
        if ports.len() > 0 {
            law_current_values_in_order(ports.drop_last(), more);
        }
    }
}

/// To set outputs changes neither the addresses of virtual devices nor what is known of their
/// values.
pub proof fn law_setting_outputs_tells_nothing(before: UniverseState, after: UniverseState)
    requires
        only_outputs_changed(before, after),
    ensures
        current_events(all_ports(after.devices@)) == current_events(all_ports(before.devices@)),
        after.names() == before.names(),
        forall|address: Address| #[trigger]
            after.is_output_address(address) == before.is_output_address(address),
{
    lemma_same_ports(before.devices@, after.devices@);
}

proof fn lemma_same_ports(a: Seq<HardwareDeviceState>, b: Seq<HardwareDeviceState>)
    requires
        a.len() == b.len(),
        forall|d: int|
            0 <= d < a.len() ==> (#[trigger] a[d]).input_ports == b[d].input_ports
                && a[d].output_ports == b[d].output_ports,
    ensures
        all_ports(a) == all_ports(b),
    decreases a.len(),
{
    if a.len() > 0 {
        let (x, y) = (a.drop_last(), b.drop_last());
        assert forall|d: int| 0 <= d < x.len() implies (#[trigger] x[d]).input_ports
            == y[d].input_ports && x[d].output_ports == y[d].output_ports by {
            assert(a[d].input_ports == b[d].input_ports);
        }
        lemma_same_ports(x, y);
        assert(a[a.len() - 1].input_ports == b[a.len() - 1].input_ports);
    }
}

/// Clients see a virtual device under the address, the alias, the port and the type that it has.
pub proof fn law_devices_are_shown_to_clients(
    config: PublicDeviceConfig,
    state: HardwareDeviceState,
    i: int,
)
    requires
        shows_device(config, state),
    ensures
        config.alias@ == state.alias@,
        config.inputs@.len() == state.input_ports@.len(),
        config.outputs@.len() == state.output_ports@.len(),
        0 <= i < config.inputs@.len() ==> {
            let shown = config.inputs@[i];
            let port = state.input_ports@[i];
            &&& shown.address == port.port.address
            &&& shown.alias@ == port.port.alias@
            &&& shown.port == port.port.port
            &&& shown.input_type == port.value_type
            &&& texts(shown.tags@) == texts(port.port.tags@)
        },
        0 <= i < config.outputs@.len() ==> {
            let shown = config.outputs@[i];
            let port = state.output_ports@[i];
            &&& shown.address == port.port.address
            &&& shown.alias@ == port.port.alias@
            &&& shown.port == port.port.port
            &&& texts(shown.tags@) == texts(port.port.tags@)
        },
{
    if 0 <= i < config.inputs@.len() {
        assert(shows_input(config.inputs@[i], state.input_ports@[i]));
    }
    if 0 <= i < config.outputs@.len() {
        assert(shows_output(config.outputs@[i], state.output_ports@[i]));
    }
}

/// Whether a mapping is in order: its port exists and goes in the given direction, and no alias and
/// no port is used twice.
pub open spec fn is_right(
    kind: DeviceKind,
    input: bool,
    alias: Seq<char>,
    taken: Seq<Seq<char>>,
    bases: Seq<BaseMappingConfig>,
    k: int,
) -> bool {
    let name = mapped_alias(alias, kind, bases[k]);
    &&& bases[k].port < kind.port_count()
    &&& input ==> kind.is_input(bases[k].port)
    &&& !input ==> kind.is_output(bases[k].port)
    &&& !taken.contains(name)
    &&& forall|j: int|
        0 <= j < k ==> mapped_alias(alias, kind, #[trigger] bases[j]) != name && bases[j].port
            != bases[k].port
}

proof fn lemma_right_mappings(
    kind: DeviceKind,
    input: bool,
    alias: Seq<char>,
    taken: Seq<Seq<char>>,
    bases: Seq<BaseMappingConfig>,
)
    ensures
        all_mappable(kind, input, alias, taken, bases) <==> forall|k: int|
            0 <= k < bases.len() ==> #[trigger] is_right(kind, input, alias, taken, bases, k),
{
    assert forall|k: int| 0 <= k < bases.len() implies (#[trigger] mapping_error(
        kind,
        input,
        alias,
        taken,
        bases,
        k,
    ) is None <==> is_right(kind, input, alias, taken, bases, k)) by {
        law_what_can_be_mapped(kind, input, alias, taken, bases, k);
    }
    if all_mappable(kind, input, alias, taken, bases) {
        assert forall|k: int| 0 <= k < bases.len() implies #[trigger] is_right(
            kind,
            input,
            alias,
            taken,
            bases,
            k,
        ) by {
            assert(mapping_error(kind, input, alias, taken, bases, k) is None);
        }
    }
}

/// A device can be added exactly if each of its mappings is in order. The aliases of outputs must
/// differ from those of inputs, and all from those that are in use and from the alias of the device.
pub proof fn law_what_devices_fit(
    kind: DeviceKind,
    alias: Seq<char>,
    names: Seq<Seq<char>>,
    cfg: DeviceConfig,
    inputs: Seq<BaseMappingConfig>,
    outputs: Seq<BaseMappingConfig>,
    used: Seq<Seq<char>>,
)
    requires
        used == names.push(alias) + inputs.map_values(
            |base: BaseMappingConfig| mapped_alias(alias, kind, base),
        ),
        match cfg.inputs {
            Some(configs) => inputs == configs@.map_values(|c: InputMappingConfig| c.base),
            None => inputs.len() == 0,
        },
        match cfg.outputs {
            Some(configs) => outputs == configs@.map_values(|c: OutputMappingConfig| c.base),
            None => outputs.len() == 0,
        },
    ensures
        device_fits(kind, alias, names, cfg) <==> {
            &&& forall|k: int|
                0 <= k < inputs.len() ==> #[trigger] is_right(
                    kind,
                    true,
                    alias,
                    names.push(alias),
                    inputs,
                    k,
                )
            &&& forall|k: int|
                0 <= k < outputs.len() ==> #[trigger] is_right(
                    kind,
                    false,
                    alias,
                    used,
                    outputs,
                    k,
                )
        },
{
    let taken = names.push(alias);
    assert(inputs =~= input_bases(configured_inputs(cfg)));
    assert(outputs =~= output_bases(configured_outputs(cfg)));
    assert(used =~= names_with_inputs(kind, alias, names, cfg));
    lemma_right_mappings(kind, true, alias, taken, inputs);
    lemma_right_mappings(kind, false, alias, used, outputs);
    if forall|k: int|
        0 <= k < inputs.len() ==> #[trigger] is_right(kind, true, alias, taken, inputs, k) {
        if inputs.len() > 0 {
            assert(is_right(kind, true, alias, taken, inputs, 0));
        }
    }
    if forall|k: int|
        0 <= k < outputs.len() ==> #[trigger] is_right(kind, false, alias, used, outputs, k) {
        if outputs.len() > 0 {
            assert(is_right(kind, false, alias, used, outputs, 0));
        }
    }
}

/// What is said of a device that does not fit tells whether its inputs or its outputs were tried.
/// Inputs come first.
pub proof fn law_what_is_said_of_a_device(
    kind: DeviceKind,
    alias: Seq<char>,
    names: Seq<Seq<char>>,
    cfg: DeviceConfig,
    error: MapErrorView,
)
    requires
        direction_error(kind, alias, cfg) is None,
        device_fails(kind, alias, names, cfg, error),
    ensures
        error matches MapErrorView::Failed(chain) ==> chain.len() >= 2 && chain[0] == (
        if inputs_fit(kind, alias, names, cfg) {
            "unable to map output ports"@
        } else {
            "unable to map input ports"@
        }),
        error matches MapErrorView::PortMappedTwice(port) ==> {
            ||| exists|i: int, j: int|
                0 <= i < j < configured_inputs(cfg).len() && (#[trigger] configured_inputs(
                    cfg,
                )[i]).base.port == port && (#[trigger] configured_inputs(cfg)[j]).base.port == port
            ||| exists|i: int, j: int|
                0 <= i < j < configured_outputs(cfg).len() && (#[trigger] configured_outputs(
                    cfg,
                )[i]).base.port == port && (#[trigger] configured_outputs(cfg)[j]).base.port
                    == port
        },
{
    let inputs = input_bases(configured_inputs(cfg));
    let outputs = output_bases(configured_outputs(cfg));
    if !inputs_fit(kind, alias, names, cfg) {
        let (k, cause) = choose|k: int, cause: MapErrorView| #[trigger]
            first_unmappable(kind, true, alias, names.push(alias), inputs, k, cause) && error
                == cause.within(mapping_inputs());
        if cause is PortMappedTwice {
            let i = choose|i: int| 0 <= i < k && (#[trigger] inputs[i]).port == inputs[k].port;
            assert(configured_inputs(cfg)[i].base.port == configured_inputs(cfg)[k].base.port);
        }
    } else {
        let (k, cause) = choose|k: int, cause: MapErrorView| #[trigger]
            first_unmappable(
                kind,
                false,
                alias,
                names_with_inputs(kind, alias, names, cfg),
                outputs,
                k,
                cause,
            ) && error == cause.within(mapping_outputs());
        if cause is PortMappedTwice {
            let i = choose|i: int| 0 <= i < k && (#[trigger] outputs[i]).port == outputs[k].port;
            assert(configured_outputs(cfg)[i].base.port == configured_outputs(cfg)[k].base.port);
        }
    }
}

} // verus!
