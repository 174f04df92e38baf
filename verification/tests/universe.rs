use submarine::config::{
    AggregatedConfig, BaseMappingConfig, ConfigFile, DeviceConfig, DeviceConfigFile,
    HardwareDeviceConfig, InputMappingConfig, OutputMappingConfig, ProgramConfig, ValueScaling,
};
use submarine::device::{DeviceType, PublicDeviceType};
use submarine::dht22::DHT22Config;
use submarine::event::{address_event, new_publishers};
use submarine::factory::{check_device_config, create_device_type, device_bus, BusChoice};
use submarine::failure::Failure;
use submarine::fan_heater::FanHeaterConfig;
use submarine::gpio::{GpioConfig, PullUpDown};
use submarine::http::{
    handle_set_requests, result_to_response, set_status, SetRequest, SetRequestTarget,
};
use submarine::mapping::{
    all_tags, create_input_port_mappings, create_output_port_mappings, MapError,
};
use submarine::mcp23017::MCP23017Config;
use submarine::mcp23017_input::MCP23017InputConfig;
use submarine::pca9685::PCA9685Config;
use submarine::tcp::{
    event_step, handle_incoming_message, handle_request, APIRequest, APIResult, AddressRequest,
    BufferStep, EventStep, GreedyBuffer, InnerPoll, Message, MessageStep, Received, Subscriptions,
};
use submarine::universe::{group_by_bus, synchronize_pcas, UniverseState};
use submarine::value::{Event, EventKind, InputValue, Timestamp};

const TS: Timestamp = Timestamp { seconds: 3, nanos: 0 };

fn tags(tags: &[&str]) -> Option<Vec<String>> {
    Some(tags.iter().map(|t| t.to_string()).collect())
}

fn base(port: u8, alias: Option<&str>) -> BaseMappingConfig {
    BaseMappingConfig { port, alias: alias.map(|a| a.to_string()), tags: None }
}

fn input(port: u8, alias: Option<&str>) -> InputMappingConfig {
    InputMappingConfig { base: base(port, alias) }
}

fn output(port: u8, alias: Option<&str>) -> OutputMappingConfig {
    OutputMappingConfig { base: base(port, alias), scaling: None, default: None }
}

fn mcp_hardware() -> HardwareDeviceConfig {
    HardwareDeviceConfig::MCP23017 {
        config: MCP23017Config { i2c_bus: String::new(), i2c_slave_address: 32 },
    }
}

fn fan_hardware() -> HardwareDeviceConfig {
    HardwareDeviceConfig::FanHeater {
        config: FanHeaterConfig {
            i2c_bus: "/dev/i2c-1".to_string(),
            update_interval_seconds: 1,
        },
    }
}

fn dht_hardware() -> HardwareDeviceConfig {
    HardwareDeviceConfig::DHT22 {
        config: DHT22Config {
            bcm_pin: 4,
            adjust_priority: false,
            use_experimental_implementation: true,
            readout_interval_seconds: 2,
        },
    }
}

fn pca_hardware(bus: &str, interval: u64, synchronized: bool) -> HardwareDeviceConfig {
    let config = PCA9685Config {
        i2c_bus: bus.to_string(),
        i2c_slave_address: 64,
        use_external_clock: false,
        inverted: false,
        output_driver_totem_pole: true,
        update_interval_millis: interval,
        prescale: 3,
        sleep_after_millis: None,
    };
    if synchronized {
        HardwareDeviceConfig::PCA9685Synchronized { config }
    } else {
        HardwareDeviceConfig::PCA9685 { config }
    }
}

fn device(
    alias: &str,
    hardware_device_config: HardwareDeviceConfig,
    inputs: Option<Vec<InputMappingConfig>>,
    outputs: Option<Vec<OutputMappingConfig>>,
) -> DeviceConfig {
    DeviceConfig {
        alias: alias.to_string(),
        tags: tags(&["all"]),
        inputs,
        outputs,
        hardware_device_config,
    }
}

fn add(universe: &mut UniverseState, cfg: &DeviceConfig) -> Result<(), MapError> {
    let alias = universe
        .begin_device(&cfg.alias)
        .map_err(|message| MapError::Failed(Failure::new(message)))?;
    let device = create_device_type(&cfg.hardware_device_config, alias.clone(), 0);
    universe.add_device(cfg, alias, device)
}

fn failure(result: Result<(), MapError>) -> String {
    match result {
        Err(MapError::Failed(failure)) => failure.report(),
        other => panic!("unexpected result {:?}", other),
    }
}

/// Two inputs of a sensor (addresses 1 and 2), two outputs of an expander (3 and 4), and an input
/// and an output of the fan boards (5 and 6).
fn universe() -> UniverseState {
    let mut universe = UniverseState::new();
    let dht = device("DHT", dht_hardware(), Some(vec![input(0, None), input(1, Some("Wet"))]), None);
    add(&mut universe, &dht).unwrap();
    let mut lamp = output(0, Some("lamp"));
    lamp.default = Some(7);
    lamp.scaling = Some(ValueScaling::Logarithmic);
    lamp.base.tags = tags(&["light", "all"]);
    let mcp = device("mcp", mcp_hardware(), None, Some(vec![lamp, output(9, None)]));
    add(&mut universe, &mcp).unwrap();
    let fan = device("fan", fan_hardware(), Some(vec![input(6, None)]), Some(vec![output(2, None)]));
    add(&mut universe, &fan).unwrap();
    universe
}

#[test]
fn addresses_and_aliases_are_given_in_order() {
    let config = universe().to_alloy_universe_config();
    assert_eq!(config.version, 1);
    let mut ports = Vec::new();
    for device in &config.devices {
        for port in &device.inputs {
            ports.push((port.address, port.port, port.alias.as_str()));
        }
        for port in &device.outputs {
            ports.push((port.address, port.port, port.alias.as_str()));
        }
    }
    assert_eq!(
        ports,
        vec![
            (1, 0, "dht-temperature"),
            (2, 1, "wet"),
            (3, 0, "lamp"),
            (4, 9, "mcp-b-1"),
            (5, 6, "fan-heater-disabled"),
            (6, 2, "fan-heater-level"),
        ]
    );
    assert_eq!(config.devices[0].alias, "dht");
    assert_eq!(config.devices[0].device_type, PublicDeviceType::DHT22);
    assert_eq!(config.devices[1].outputs[0].tags, vec!["light", "all"]);
}

#[test]
fn devices_and_ports_need_their_own_aliases() {
    let mut universe = universe();
    assert_eq!(universe.begin_device("Lamp").unwrap_err(), "duplicate alias: lamp");
    assert_eq!(universe.begin_device("NEW").unwrap(), "new");
    let twice = device("x", mcp_hardware(), None, Some(vec![output(0, Some("WET"))]));
    assert_eq!(
        failure(add(&mut universe, &twice)),
        "unable to map output ports\n\nCaused by:\n    duplicate alias: wet"
    );
    let own = device("x", mcp_hardware(), None, Some(vec![output(0, Some("X"))]));
    assert_eq!(
        failure(add(&mut universe, &own)),
        "unable to map output ports\n\nCaused by:\n    duplicate alias: x"
    );
    let same = device("x", mcp_hardware(), None, Some(vec![output(3, None), output(3, None)]));
    assert_eq!(
        failure(add(&mut universe, &same)),
        "unable to map output ports\n\nCaused by:\n    duplicate alias: x-a-3"
    );
    let same = device(
        "x",
        mcp_hardware(),
        None,
        Some(vec![output(3, None), output(3, Some("other"))]),
    );
    assert!(matches!(add(&mut universe, &same), Err(MapError::PortMappedTwice(3))));
    assert_eq!(universe.devices.len(), 3);
}

#[test]
fn mappings_have_to_fit_their_devices() {
    let mut universe = UniverseState::new();
    let cfg = device("d", dht_hardware(), None, Some(vec![output(0, None)]));
    assert_eq!(
        failure(add(&mut universe, &cfg)),
        "unable to map input ports\n\nCaused by:\n    d is an input device but output port mappings were supplied"
    );
    let cfg = device("d", mcp_hardware(), Some(vec![input(0, None)]), None);
    assert_eq!(
        failure(add(&mut universe, &cfg)),
        "unable to map output ports\n\nCaused by:\n    d is an output device but input port mappings were supplied"
    );
    let cfg = device("d", dht_hardware(), Some(vec![input(2, None)]), Some(vec![]));
    assert_eq!(
        failure(add(&mut universe, &cfg)),
        "unable to map input ports\n\nCaused by:\n    0: unable to generate port alias\n    \
         1: DHT22 has two ports: temperature and humidity"
    );
    let cfg = device("d", fan_hardware(), Some(vec![input(0, None)]), None);
    assert_eq!(
        failure(add(&mut universe, &cfg)),
        "unable to map input ports\n\nCaused by:\n    0: unable to map input port d:0\n    \
         1: Fan/Heater boards have two readonly ports: 5=>fan-i2c-disabled, 6=>heater-disabled"
    );
    let cfg = device("d", fan_hardware(), None, Some(vec![output(5, None)]));
    assert_eq!(
        failure(add(&mut universe, &cfg)),
        "unable to map output ports\n\nCaused by:\n    0: unable to map input port d:5\n    \
         1: Fan/Heater boards have 5 I/O ports"
    );
    let cfg = device("d", fan_hardware(), None, Some(vec![output(7, None)]));
    assert_eq!(
        failure(add(&mut universe, &cfg)),
        "unable to map output ports\n\nCaused by:\n    0: unable to generate port alias\n    \
         1: Fan/Heater boards have 7 ports"
    );
    let unknown_port = |universe: &mut UniverseState, synchronized| {
        let hardware = pca_hardware("", 5, synchronized);
        failure(add(universe, &device("d", hardware, None, Some(vec![output(16, None)]))))
    };
    assert!(unknown_port(&mut universe, false).ends_with("1: PCA9685 has 16 ports only"));
    assert!(unknown_port(&mut universe, true).ends_with("1: invalid port number"));
}

/// Updates all devices, and yields those that are to be told so, and what is to be logged.
fn updated(universe: &mut UniverseState) -> (Vec<usize>, Vec<String>) {
    let (result, updates) = universe.update();
    assert_eq!(result, Ok(()));
    (updates.notify, updates.failures)
}

#[test]
fn values_are_set_by_address() {
    let mut universe = universe();
    universe.set_address(4, 99).unwrap();
    match &universe.devices[1].device {
        DeviceType::MCP23017(mcp) => {
            assert_eq!((mcp.core.buffered_values[0], mcp.core.buffered_values[9]), (7, 99));
            assert_eq!(mcp.core.scalings[0], ValueScaling::Logarithmic);
        }
        other => panic!("unexpected device {:?}", other),
    }
    assert_eq!(universe.set_address(1, 5).unwrap_err(), "invalid address: 1");
    assert_eq!(universe.set_address(0, 5).unwrap_err(), "invalid address: 0");
    assert_eq!(universe.set_address(7, 5).unwrap_err(), "invalid address: 7");
    assert_eq!(updated(&mut universe), (vec![1], vec![]));
    universe.get_event_stream(6).unwrap();
    assert_eq!(universe.get_event_stream(7).unwrap_err(), "invalid address");
}

#[test]
fn new_values_are_flushed() {
    let mut universe = universe();
    if let DeviceType::MCP23017(mcp) = &mut universe.devices[1].device {
        let values = mcp.begin_update().unwrap();
        mcp.finish_update(values, Ok(()), TS);
    }
    assert_eq!(updated(&mut universe), (vec![], vec![]));
    universe.set_address(3, 7).unwrap();
    assert_eq!(updated(&mut universe), (vec![], vec![]));
    universe.set_address(3, 8).unwrap();
    assert_eq!(updated(&mut universe), (vec![1], vec![]));
    // The fan boards are looked after regularly.
    universe.set_address(6, 8).unwrap();
    assert_eq!(updated(&mut universe), (vec![1], vec![]));
}

#[test]
fn events_are_picked_up_by_address() {
    let mut universe = universe();
    assert!(universe.poll_event(4).is_none());
    assert!(universe.get_update_events_for_current_values().is_empty());
    if let DeviceType::MCP23017(mcp) = &mut universe.devices[1].device {
        let values = mcp.begin_update().unwrap();
        mcp.finish_update(values, Ok(()), TS);
        mcp.finish_update(vec![0; 16], Err("nak".to_string()), TS);
    }
    let event = universe.poll_event(3).unwrap();
    assert_eq!(event.address, 3);
    assert_eq!(
        event.event.inner,
        Ok(EventKind::Update { new_value: InputValue::Continuous(7) })
    );
    let current = universe.get_update_events_for_current_values();
    assert_eq!(current.len(), 1);
    assert_eq!(
        current[0].event.inner,
        Ok(EventKind::Update { new_value: InputValue::Continuous(7) })
    );
    universe.poll_event(3).unwrap();
    assert!(universe.poll_event(3).is_none());
    universe.poll_event(4).unwrap();
    let current = universe.get_update_events_for_current_values();
    assert_eq!(current.iter().map(|e| e.address).collect::<Vec<_>>(), vec![3, 4]);
    assert_eq!(current[0].event.inner, Err("nak".to_string()));
    if let DeviceType::FanHeater(fan) = &mut universe.devices[2].device {
        fan.finish_cycle(&Err("off".to_string()), TS);
    }
    assert_eq!(universe.poll_event(5).unwrap().event.inner, Err("off".to_string()));
    assert_eq!(universe.poll_event(6).unwrap().event.inner, Err("off".to_string()));
}

fn set(address: u16, value: u16) -> SetRequest {
    SetRequest { target: SetRequestTarget::Address(address), value }
}

fn buffered(universe: &UniverseState) -> (u16, u16) {
    match &universe.devices[1].device {
        DeviceType::MCP23017(mcp) => (mcp.core.buffered_values[0], mcp.core.buffered_values[9]),
        other => panic!("unexpected device {:?}", other),
    }
}

#[test]
fn last_request_wins() {
    let mut universe = universe();
    let requests = vec![set(3, 1), set(4, 2), set(3, 3)];
    let (result, updates) = handle_set_requests(&mut universe, &requests);
    assert_eq!((result, updates.notify), (Ok(()), vec![1]));
    assert_eq!(buffered(&universe), (3, 2));
}

#[test]
fn failed_requests_are_collected() {
    let mut universe = universe();
    let requests = vec![set(1, 1), set(4, 2), set(70, 3)];
    let (result, updates) = handle_set_requests(&mut universe, &requests);
    assert_eq!(set_status(&result), 400);
    assert_eq!(
        result.unwrap_err(),
        "unable to set one or more outputs: \
         \"unable to set address\\n\\nCaused by:\\n    invalid address: 1; \
         unable to set address\\n\\nCaused by:\\n    invalid address: 70\""
    );
    assert_eq!(updates.notify, vec![1]);
    assert_eq!(buffered(&universe), (7, 2));
    let alias = SetRequest { target: SetRequestTarget::Alias("lamp".to_string()), value: 9 };
    let requests = vec![set(3, 5), alias, set(3, 6)];
    let (result, updates) = handle_set_requests(&mut universe, &requests);
    assert_eq!(result.unwrap_err(), "alias targets not supported at the moment");
    assert!(updates.notify.is_empty());
    assert_eq!(buffered(&universe), (5, 2));
    assert_eq!(set_status(&Ok(())), 200);
    assert_eq!(result_to_response(Err(404)), 404);
    assert_eq!(result_to_response(Ok(200)), 200);
}

/// Lets the updates of the expander and of the fan boards fail.
fn fail_updates(universe: &mut UniverseState) {
    if let DeviceType::MCP23017(mcp) = &mut universe.devices[1].device {
        let values = mcp.begin_update().unwrap();
        mcp.finish_update(values, Err("nak".to_string()), TS);
    }
    if let DeviceType::FanHeater(fan) = &mut universe.devices[2].device {
        fan.finish_cycle(&Err("off".to_string()), TS);
    }
}

#[test]
fn failed_updates_are_told_once() {
    let failures = vec![
        "unable to update output device mcp: nak".to_string(),
        "unable to update output device fan: off".to_string(),
    ];
    let mut universe = universe();
    fail_updates(&mut universe);
    assert_eq!(updated(&mut universe), (vec![1], failures.clone()));
    assert_eq!(updated(&mut universe), (vec![1], vec![]));

    fail_updates(&mut universe);
    let (result, updates) = handle_set_requests(&mut universe, &vec![set(4, 2)]);
    assert_eq!((result, updates.notify, updates.failures), (Ok(()), vec![1], failures.clone()));
    assert_eq!(buffered(&universe), (7, 2));
    let (result, updates) = handle_set_requests(&mut universe, &vec![set(4, 3)]);
    assert_eq!((result, updates.failures), (Ok(()), vec![]));

    fail_updates(&mut universe);
    let mut subscriptions: Subscriptions<u8> = Subscriptions::new(&universe);
    let mut request = |value| {
        let values = vec![AddressRequest { address: 4, value }];
        handle_request(&mut universe, &mut subscriptions, APIRequest::SetValues(values), TS)
    };
    let handled = request(9);
    assert_eq!(handled.result, Ok(APIResult::ValuesSet));
    assert_eq!((handled.updates.notify, handled.updates.failures), (vec![1], failures));
    assert!(request(9).updates.failures.is_empty());
    assert_eq!(buffered(&universe), (7, 9));
}

#[test]
fn mappings_before_a_failure_stay() {
    let known = vec!["taken".to_string()];
    let mut device = create_device_type(&fan_hardware(), "fan".to_string(), 0);
    let mut names = vec!["fan".to_string()];
    let configs = vec![input(5, None), input(6, Some("Taken"))];
    let result =
        create_input_port_mappings(&known, &mut names, 1, "fan", &None, &configs, &mut device);
    assert_eq!(failure(result.map(|_| ())), "duplicate alias: taken");
    assert_eq!(names, vec!["fan", "fan-fan-i2c-disabled"]);
    let mut outputs = vec![output(2, Some("level")), output(5, Some("wrong"))];
    outputs[0].default = Some(9);
    let result =
        create_output_port_mappings(&known, &mut names, 1, "fan", &None, &outputs, &mut device);
    assert!(result.is_err());
    // The alias is claimed before the port is looked at.
    assert_eq!(names, vec!["fan", "fan-fan-i2c-disabled", "level", "wrong"]);
    match device {
        DeviceType::FanHeater(mut fan) => {
            assert_eq!(fan.core.buffered_values, vec![0, 0, 9, 0, 0]);
            assert!(fan.core.dirty);
            assert!(fan.core.read_core.poll_events(2).is_none());
            assert!(fan.read_core.poll_events(0).is_none());
        }
        other => panic!("unexpected device {:?}", other),
    }
}

#[test]
fn errors_tell_their_causes() {
    let error = Failure::new("it\nbroke".to_string());
    assert_eq!(error.report(), "it\nbroke");
    let error = error.within("inner");
    assert_eq!(error.report(), "inner\n\nCaused by:\n    it\n    broke");
    let error = error.within("outer");
    assert_eq!(
        error.report(),
        "outer\n\nCaused by:\n    0: inner\n    1: it\n       broke"
    );
    let mut many = Failure::new("end".to_string());
    for _ in 0..11 {
        many = many.within("step");
    }
    assert!(many.report().ends_with("\n    9: step\n   10: end"));
}

#[test]
fn devices_are_created_as_configured() {
    for invert in [false, true] {
        let config = GpioConfig {
            bcm_pin: 4,
            pull: PullUpDown::Up,
            readout_interval_milliseconds: 10,
            invert,
        };
        let cfg = HardwareDeviceConfig::Gpio { config };
        match create_device_type(&cfg, "pin".to_string(), 5) {
            DeviceType::Gpio(pin) => {
                assert_eq!(pin.invert, invert);
                assert_eq!(pin.core.alias(), "pin");
            }
            other => panic!("unexpected device {:?}", other),
        }
    }
    let config = MCP23017InputConfig {
        i2c_bus: String::new(),
        i2c_slave_address: 34,
        polling_interval_millis: 1,
        enable_pullups: true,
        invert: false,
    };
    let cfg = HardwareDeviceConfig::MCP23017Input { config };
    match create_device_type(&cfg, "buttons".to_string(), 5) {
        DeviceType::MCP23017Input(buttons) => {
            assert_eq!((buttons.down, buttons.down_secs), ([5; 16], [0; 16]));
            assert_eq!(buttons.core.alias(), "buttons");
        }
        other => panic!("unexpected device {:?}", other),
    }
    match create_device_type(&fan_hardware(), "fan".to_string(), 5) {
        DeviceType::FanHeater(fan) => {
            assert_eq!(fan.core.read_core.alias(), "fan");
            assert_eq!(fan.read_core.alias(), "fan");
            assert_eq!(fan.core.last_error, None);
        }
        other => panic!("unexpected device {:?}", other),
    }
}

#[test]
fn clients_are_answered() {
    let mut universe = universe();
    let mut subscriptions: Subscriptions<&str> = Subscriptions::new(&universe);
    assert_eq!(subscriptions.filters.len(), 6);
    let mut ask = |request| handle_request(&mut universe, &mut subscriptions, request, TS);
    assert_eq!(ask(APIRequest::Ping).result, Ok(APIResult::Ping));
    assert_eq!(ask(APIRequest::SystemTime).result, Ok(APIResult::SystemTime(TS)));
    let values = vec![
        AddressRequest { address: 3, value: 1 },
        AddressRequest { address: 9, value: 1 },
        AddressRequest { address: 4, value: 1 },
    ];
    let failed = ask(APIRequest::SetValues(values));
    assert_eq!(
        failed.result.unwrap_err(),
        "unable to set address\n\nCaused by:\n    invalid address: 9"
    );
    assert!(failed.updates.notify.is_empty());
    let done = ask(APIRequest::SetValues(vec![AddressRequest { address: 4, value: 5 }]));
    assert_eq!((done.result, done.updates.notify), (Ok(APIResult::ValuesSet), vec![1]));
    let first = ask(APIRequest::Subscribe { address: 2, filter: "any" });
    assert_eq!((first.result, first.watch), (Ok(APIResult::Subscribed), Some(2)));
    let second = ask(APIRequest::Subscribe { address: 2, filter: "none" });
    assert_eq!((second.result, second.watch), (Ok(APIResult::Subscribed), None));
    let wrong = ask(APIRequest::Subscribe { address: 7, filter: "any" });
    assert_eq!(wrong.result.unwrap_err(), "invalid address: 7");
    assert_eq!(subscriptions.filters[1], Some("none"));
    assert_eq!(buffered(&universe), (1, 5));
}

#[test]
fn messages_and_events_are_sorted() {
    let request: Message<u8> = Message::Request { id: 4, inner: APIRequest::Ping };
    assert!(matches!(
        handle_incoming_message(request),
        MessageStep::Handle { id: 4, request: APIRequest::Ping }
    ));
    for message in [Message::<u8>::Version, Message::Events, Message::Response, Message::Config] {
        assert!(matches!(handle_incoming_message(message), MessageStep::ShutDown));
    }
    assert_eq!(event_step(Received::Event { filter: Some(true) }), EventStep::Send);
    assert_eq!(event_step(Received::Event { filter: Some(false) }), EventStep::Skip);
    assert_eq!(event_step(Received::Event { filter: None }), EventStep::ShutDown);
    assert_eq!(event_step(Received::Lagged(3)), EventStep::CountDropped(3));
    assert_eq!(event_step(Received::Closed), EventStep::ShutDown);
    let mut publishers = new_publishers(&vec![3, 1, 3]);
    publishers.sort();
    assert_eq!(publishers, vec![1, 3]);
    let event = Event { timestamp: TS, inner: Err("x".to_string()) };
    assert_eq!(address_event(9, event).address, 9);
}

#[test]
fn buffers_lose_nothing() {
    let mut buffer = GreedyBuffer::new(3);
    let mut passed: Vec<Vec<i32>> = Vec::new();
    for i in 0..7 {
        assert!(matches!(buffer.poll(), BufferStep::PollInner));
        if let BufferStep::Ready(items) = buffer.polled(InnerPoll::Item(i)) {
            passed.push(items);
        }
        if i == 4 {
            match buffer.polled(InnerPoll::Pending) {
                BufferStep::Ready(items) => passed.push(items),
                other => panic!("unexpected step {:?}", other),
            }
            assert!(matches!(buffer.polled(InnerPoll::Pending), BufferStep::Pending));
        }
    }
    match buffer.polled(InnerPoll::Closed) {
        BufferStep::Ready(items) => passed.push(items),
        other => panic!("unexpected step {:?}", other),
    }
    assert!(matches!(buffer.poll(), BufferStep::End));
    assert_eq!(passed, vec![vec![0, 1, 2], vec![3, 4], vec![5, 6]]);
    let mut empty: GreedyBuffer<u8> = GreedyBuffer::new(1);
    assert!(matches!(empty.polled(InnerPoll::Closed), BufferStep::End));
}

#[test]
fn configs_are_aggregated() {
    let main = || ConfigFile { config: ProgramConfig::default() };
    let file = |aliases: &[&str]| DeviceConfigFile {
        devices: Some(aliases.iter().map(|a| device(a, mcp_hardware(), None, None)).collect()),
    };
    let files = vec![file(&["a", "b"]), DeviceConfigFile { devices: None }, file(&["c"])];
    let cfg = AggregatedConfig::aggregate_from(main(), files).unwrap();
    let aliases: Vec<_> = cfg.devices.iter().map(|d| d.alias.as_str()).collect();
    assert_eq!(aliases, vec!["a", "b", "c"]);
    assert_eq!(cfg.program.tcp_server_listen_address, "localhost:3030");
    assert_eq!(cfg.program.prometheus_listen_address, "0.0.0.0:6969");
    assert!(cfg.program.log_to_file && cfg.program.device_configs.is_none());
    let files = vec![file(&["a", "b"]), file(&["c", "b", "a"])];
    assert_eq!(
        AggregatedConfig::aggregate_from(main(), files).unwrap_err(),
        "duplicate device alias b"
    );
}

#[test]
fn tags_are_joined() {
    let mut joined = all_tags(&tags(&["a", "b", "a"]), &tags(&["c", "b"]));
    joined.sort();
    assert_eq!(joined, vec!["a", "b", "c"]);
    assert!(all_tags(&None, &None).is_empty());
}

#[test]
fn buses_are_chosen() {
    assert!(matches!(device_bus(&mcp_hardware()), BusChoice::Mock));
    assert!(matches!(device_bus(&dht_hardware()), BusChoice::NoBus));
    match device_bus(&pca_hardware("/DEV/i2c-1", 5, true)) {
        BusChoice::Path(path) => assert_eq!(path, "/dev/i2c-1"),
        other => panic!("unexpected bus {:?}", other),
    }
    match device_bus(&pca_hardware("/DEV/i2c-1", 5, false)) {
        BusChoice::Path(path) => assert_eq!(path, "/DEV/i2c-1"),
        other => panic!("unexpected bus {:?}", other),
    }
    check_device_config(&pca_hardware("", 5, false)).unwrap();
    assert_eq!(
        check_device_config(&pca_hardware("", 0, false)).unwrap_err(),
        "update_interval_millis must be > 0"
    );
    check_device_config(&pca_hardware("", 0, true)).unwrap();
    let created = create_device_type(&pca_hardware("", 5, true), "pca".to_string(), 0);
    assert!(matches!(created, DeviceType::PCA9685(_)));
}

#[test]
fn synchronized_generators_are_grouped() {
    let buses = ["/dev/i2c-1", "", "/DEV/I2C-1"].iter().map(|b| b.to_string()).collect();
    let groups = group_by_bus(&buses);
    assert!(groups.iter().all(|g| !g.members.is_empty()));
    assert!(group_by_bus(&vec![]).is_empty());
    assert_eq!(groups.len(), 2);
    assert_eq!((groups[0].bus.as_str(), &groups[0].members), ("/dev/i2c-1", &vec![0, 2]));
    assert_eq!((groups[1].bus.as_str(), &groups[1].members), ("", &vec![1]));
    assert_eq!(synchronize_pcas(&vec![5, 5]), Ok(5));
    assert_eq!(
        synchronize_pcas(&vec![5, 0]).unwrap_err(),
        "synchronized PCA9685 needs update_interval_millis != 0"
    );
    assert_eq!(
        synchronize_pcas(&vec![5, 6]).unwrap_err(),
        "synchronized PCA9685 need to have the same update interval"
    );
}
