use submarine::button_expander::{
    compute_checksum, try_decode_transmissions, BoardEvent, ButtonExpanderBoard,
    ButtonExpanderData, ButtonExpanderError, ButtonExpanderRun, ButtonExpanderSetup,
    SetupStep as ButtonSetupStep,
};
use submarine::dht22_expander::{
    readout_sensors, DHT22Expander, DHT22ExpanderConfig, ExpanderError as DhtExpanderError,
    ExpanderRun, ExpanderSensorError, RunAction, RunEvent,
};
use submarine::ds18b20_expander::{
    DS18B20Expander, DS18B20ExpanderConfig, ReadoutOutcome, SensorToPortMapping,
};
use submarine::ds18b20_expander_lib::{
    parse_device_id_results, parse_temperature, parse_temperature_results, validate_crc,
    DeviceScan, Ds18b20Expander, ExpanderError, ReadoutAction, ScanStep, SensorError,
};
use submarine::fan_heater::{
    states_from_output_values, BoardReadings, CycleCounter, CycleStep, FanHeater, FanHeaterBoard,
    FanHeaterConfig, FanHeaterCycle, FanHeaterError, FanHeaterSetup, SetupStep,
};
use submarine::i2c::I2cRequest;
use submarine::mcp23017::{
    compute_port_alias, compute_registers, gpio_word, MCP23017Config, MCP23017,
};
use submarine::mcp23017_input::{
    set_up_inputs, swap_bytes, InputCommand, InputOutcome, MCP23017Input, MCP23017InputConfig,
};
use submarine::mcp23s17::MCP23S17;
use submarine::value::{EventKind, InputValue, Quantity, Timestamp};

const TS: Timestamp = Timestamp { seconds: 3, nanos: 0 };

fn written(request: I2cRequest) -> (u8, Vec<u8>) {
    match request {
        I2cRequest::Write { address, bytes } => (address, bytes),
        other => panic!("unexpected request {:?}", other),
    }
}

fn read_len(request: I2cRequest) -> (u8, usize) {
    match request {
        I2cRequest::WriteRead { address, bytes, len } => {
            assert_eq!(bytes, vec![0]);
            (address, len)
        }
        other => panic!("unexpected request {:?}", other),
    }
}

#[test]
fn crc_is_the_one_of_the_sensors() {
    let mut registers = vec![0, 0, 0, 0xa1];
    registers.extend_from_slice(b"123456789");
    assert!(validate_crc(&registers).is_ok());
    registers[3] = 0xa2;
    assert!(matches!(validate_crc(&registers), Err(ExpanderError::CrcMismatch)));
}

#[test]
fn expander_temperatures_are_parsed() {
    assert_eq!(parse_temperature(0x0191), Ok(401));
    assert_eq!(parse_temperature(0xf010), Ok(-16));
    assert_eq!(parse_temperature(0xf320), Ok(-800));
    assert_eq!(parse_temperature(0xf321), Err(SensorError::SuspiciousValue));
    assert_eq!(parse_temperature(0x5000), Err(SensorError::Checksum));
    assert_eq!(parse_temperature(0xa800), Err(SensorError::DeviceNotFound));
    assert_eq!(parse_temperature(0x0550), Err(SensorError::SuspiciousValue));
    assert_eq!(parse_temperature(0x1000), Err(SensorError::SuspiciousValue));
    assert_eq!(
        parse_temperature_results(&[0x91, 0x01, 0x00, 0xa8]).unwrap(),
        vec![Ok(401), Err(SensorError::DeviceNotFound)]
    );
    assert_eq!(
        parse_temperature_results(&[1]).unwrap_err().text(),
        "BadExpander(\"invalid length\")"
    );
}

#[test]
fn expander_ids_are_parsed() {
    assert_eq!(
        parse_device_id_results(&[0x28, 1, 2, 3, 4, 5, 6, 7]).unwrap(),
        vec![0x2801020304050607]
    );
    assert_eq!(
        parse_device_id_results(&[1, 2]).unwrap_err().message(),
        "Expander misbehaved: invalid length"
    );
}

#[test]
fn readouts_are_tried_again() {
    let mut expander = Ds18b20Expander::new(0x3f);
    expander.num_sensors = 2;
    let good = || Ok(vec![0, 0, 0, 0x44, 4, 0x91, 0x01, 0x5e, 0xff]);
    let mut readout = expander.read_temperatures(2);
    match readout.action() {
        ReadoutAction::Send(request) => assert_eq!(written(request), (0x3f, vec![0, 0x10])),
        other => panic!("unexpected action {:?}", other),
    }
    assert!(readout.replied(Ok(vec![])).is_none());
    assert!(matches!(readout.action(), ReadoutAction::Delay(2000)));
    readout.delayed();
    match readout.action() {
        ReadoutAction::Send(request) => assert_eq!(read_len(request), (0x3f, 9)),
        other => panic!("unexpected action {:?}", other),
    }
    assert!(readout.replied(Err("nak".to_string())).is_none());
    assert!(matches!(readout.action(), ReadoutAction::Delay(100)));
    readout.delayed();
    let data = readout.replied(good()).unwrap().unwrap();
    assert_eq!(data, vec![0x91, 0x01, 0x5e, 0xff]);
    assert!(matches!(readout.action(), ReadoutAction::Nothing));

    let mut failing = expander.read_temperatures(2);
    failing.replied(Ok(vec![]));
    failing.delayed();
    assert!(failing.replied(Ok(vec![0, 0, 0, 1, 0])).is_none());
    failing.delayed();
    let error = failing.replied(Err("nak".to_string())).unwrap().unwrap_err();
    assert_eq!(error.text(), "MaxRetriesExceeded(Bus(\"nak\"))");
    assert_eq!(
        error.message(),
        "Max retries exceeded. Last error: I2C operation failed: nak"
    );
}

#[test]
fn all_buses_are_scanned() {
    let mut expander = Ds18b20Expander::new(0x3f);
    let mut scan = DeviceScan::new();
    for bus in 0..3 {
        assert_eq!(scan.bus(), bus);
        let readout = expander.scan_bus_for_devices(bus, 1);
        assert_eq!(readout.command, 1 << bus);
        assert_eq!(readout.data_len, 240);
        let data = if bus == 1 { vec![0, 0, 0, 0, 0, 0, 0, 5] } else { vec![] };
        assert!(matches!(scan.bus_scanned(&mut expander, Ok(data)), ScanStep::NextBus));
    }
    match scan.bus_scanned(&mut expander, Ok(vec![0, 0, 0, 0, 0, 0, 1, 0])) {
        ScanStep::Finished(Ok(ids)) => assert_eq!(ids, vec![5, 256]),
        other => panic!("unexpected step {:?}", other),
    }
    assert_eq!(expander.num_sensors, 2);
    let mut scan = DeviceScan::new();
    assert!(matches!(
        scan.bus_scanned(&mut expander, Err(ExpanderError::CrcMismatch)),
        ScanStep::Finished(Err(ExpanderError::CrcMismatch))
    ));
}

fn expander_config(sensor_ids: Vec<SensorToPortMapping>) -> DS18B20ExpanderConfig {
    DS18B20ExpanderConfig {
        i2c_bus: String::new(),
        readout_interval_seconds: 2,
        i2c_slave_address: 0x3f,
        sensor_ids,
        readout_retries: 1,
    }
}

fn mapping(sensor_id: u64, port: u8) -> SensorToPortMapping {
    SensorToPortMapping { sensor_id, port }
}

#[test]
fn sensor_mappings_are_checked() {
    let check = |config: &DS18B20ExpanderConfig| {
        DS18B20Expander::check_config(config).map_err(|failure| failure.report())
    };
    let checked = |mappings| check(&expander_config(mappings));
    assert_eq!(checked(vec![mapping(1, 0), mapping(2, 49)]), Ok(0x3f));
    assert_eq!(
        checked(vec![mapping(1, 50)]).unwrap_err(),
        "invalid sensor<->port mappings\n\nCaused by:\n    invalid port"
    );
    assert_eq!(
        checked(vec![mapping(1, 0), mapping(1, 1)]).unwrap_err(),
        "invalid sensor<->port mappings\n\nCaused by:\n    duplicate sensor ID 1"
    );
    assert_eq!(
        checked(vec![mapping(1, 4), mapping(2, 4)]).unwrap_err(),
        "invalid sensor<->port mappings\n\nCaused by:\n    duplicate port 4"
    );
    let mut config = expander_config(vec![]);
    config.i2c_slave_address = 0x3e;
    assert_eq!(check(&config).unwrap_err(), "invalid address");
    config.readout_retries = 0;
    assert_eq!(
        check(&config).unwrap_err(),
        "readout_retries must be > 0"
    );
    config.readout_interval_seconds = 1;
    assert_eq!(
        check(&config).unwrap_err(),
        "readout_interval_seconds must be at least 2"
    );
}

#[test]
fn readings_go_to_their_ports() {
    let config = expander_config(vec![mapping(0xb, 7), mapping(0xa, 3)]);
    let missing = DS18B20Expander::new("x".to_string(), &config, vec![0xa]).unwrap_err();
    assert_eq!(missing, "did not find sensor with ID 000000000000000b on the bus");
    let mut device = DS18B20Expander::new("x".to_string(), &config, vec![0xa, 0xb, 0xc]).unwrap();
    device.get_input_port(3).unwrap();
    device.get_input_port(7).unwrap();
    assert_eq!(
        device.get_input_port(4).unwrap_err(),
        "port 4 not configured via sensor<->port mappings"
    );
    assert_eq!(device.get_input_port(50).unwrap_err(), "DS18B20 expander has 50 ports");
    let readings = vec![Ok(16), Err(SensorError::Checksum), Ok(32)];
    assert_eq!(device.process_readout(&Ok(readings), TS), ReadoutOutcome::Success);
    match device.poll_events(3).unwrap().inner {
        Ok(EventKind::Update { new_value }) => {
            assert_eq!(new_value, InputValue::Temperature(Quantity::Sixteenths(16)))
        }
        other => panic!("unexpected event {:?}", other),
    }
    assert!(device.poll_events(3).is_none());
    assert_eq!(device.poll_events(7).unwrap().inner.unwrap_err(), "Checksum");
    let failed = [
        (ExpanderError::Bus("nak".to_string()), ReadoutOutcome::I2cError),
        (ExpanderError::CrcMismatch, ReadoutOutcome::CrcMismatch),
        (ExpanderError::BadExpander("no".to_string()), ReadoutOutcome::BadExpander),
        (
            ExpanderError::MaxRetriesExceeded(Box::new(ExpanderError::CrcMismatch)),
            ReadoutOutcome::CrcMismatch,
        ),
    ];
    for (error, counted) in failed {
        let text = error.text();
        assert_eq!(device.process_readout(&Err(error), TS), counted);
        assert_eq!(device.poll_events(3).unwrap().inner.unwrap_err(), text);
    }
    assert_eq!(DS18B20Expander::port_alias(9).unwrap(), "ds18b20-9-temperature");
}

#[test]
fn fan_and_heater_levels_are_limited() {
    let outputs = states_from_output_values(&vec![7, 3, 31, 0, 9]);
    assert_eq!(
        (outputs.air_in, outputs.air_out, outputs.heater_level, outputs.relay_1, outputs.relay_2),
        (6, 3, 30, false, true)
    );
    assert_eq!(
        written(FanHeaterBoard::write_heater_state(30, true, true)),
        (0x23, vec![1, 0b1101_1110])
    );
    assert_eq!(written(FanHeaterBoard::write_fan_state(6, 4)), (0x22, vec![1, 6, 4]));
}

#[test]
fn board_states_are_decoded() {
    let fan = FanHeaterBoard::read_fan_state(&Ok(vec![0x03, 6, 4])).unwrap();
    assert!(fan.i2c_disabled && !fan.watchdog_reset);
    assert_eq!((fan.air_in, fan.air_out), (6, 4));
    let text = |result: Result<_, FanHeaterError>| result.map(|_: ()| ()).unwrap_err().text();
    assert_eq!(
        text(FanHeaterBoard::read_fan_state(&Ok(vec![2, 7, 0])).map(|_| ())),
        "BadFanBoard(\"bad air in level: 7\")"
    );
    assert_eq!(
        text(FanHeaterBoard::read_fan_state(&Ok(vec![2, 0, 5])).map(|_| ())),
        "BadFanBoard(\"bad air out level: 5\")"
    );
    assert_eq!(
        text(FanHeaterBoard::read_heater_state(&Ok(vec![2, 31])).map(|_| ())),
        "BadHeaterBoard(\"bad heater level: 31\")"
    );
    assert_eq!(
        text(FanHeaterBoard::read_heater_state(&Err("a \"b\"".to_string())).map(|_| ())),
        "Bus(\"I2C operation failed: a \\\"b\\\"\")"
    );
    let heater = FanHeaterBoard::read_heater_state(&Ok(vec![0x02, 0b1101_1110])).unwrap();
    assert_eq!(heater.heater_level, 30);
    assert!(heater.relay_1 && heater.relay_2 && !heater.heater_disabled);
}

#[test]
fn sticky_watchdogs_are_given_up() {
    let mut setup = FanHeaterSetup::new();
    let mut steps = 0;
    let error = loop {
        steps += 1;
        let reply = match setup.request() {
            I2cRequest::WriteRead { .. } => Ok(vec![0, 0, 0]),
            I2cRequest::Write { address, bytes } => {
                assert_eq!((address, bytes), (0x22, vec![0, 2]));
                Ok(vec![])
            }
        };
        match setup.replied(reply) {
            SetupStep::Next(next) => setup = next,
            SetupStep::Done(result) => break result.unwrap_err(),
        }
    };
    assert_eq!((steps, error.as_str()), (5, "fan board has sticky watchdog reset?"));

    let heater = match FanHeaterSetup::new().replied(Ok(vec![2, 0, 0])) {
        SetupStep::Next(next) => next,
        other => panic!("unexpected step {:?}", other),
    };
    assert_eq!(read_len(heater.request()), (0x23, 2));
    assert!(matches!(heater.replied(Ok(vec![2, 0])), SetupStep::Done(Ok(()))));
}

fn run_cycle(
    device: &FanHeater,
    replies: Vec<Result<Vec<u8>, String>>,
) -> (CycleCounter, Result<BoardReadings, String>) {
    let mut cycle = device.begin_cycle();
    for reply in replies {
        match cycle.replied(reply) {
            CycleStep::Next(next) => cycle = next,
            CycleStep::Done { counter, result } => return (counter, result),
        }
    }
    panic!("cycle is not over: {:?}", cycle)
}

#[test]
fn cycles_write_and_read_the_boards() {
    let mut device = FanHeater::new("fan".to_string());
    device.get_output_port(2, None).unwrap();
    device.get_input_port(6).unwrap();
    device.core.set(2, 12);
    let cycle = device.begin_cycle();
    assert_eq!(written(cycle.request()), (0x22, vec![1, 0, 0]));
    let done = |heater: u8| {
        vec![Ok(vec![]), Ok(vec![]), Ok(vec![2, 0, 0]), Ok(vec![3, heater])]
    };
    let (counter, result) = run_cycle(&device, done(12));
    assert_eq!(counter, CycleCounter::Success);
    device.finish_cycle(&result, TS);
    match device.core.read_core.poll_events(2).unwrap().inner {
        Ok(EventKind::Update { new_value }) => assert_eq!(new_value, InputValue::Continuous(12)),
        other => panic!("unexpected event {:?}", other),
    }
    match device.read_core.poll_events(1).unwrap().inner {
        Ok(EventKind::Update { new_value }) => assert_eq!(new_value, InputValue::Binary(true)),
        other => panic!("unexpected event {:?}", other),
    }

    let (counter, result) = run_cycle(&device, vec![Err("nak".to_string())]);
    assert_eq!(counter, CycleCounter::I2cError);
    assert_eq!(
        result.unwrap_err(),
        "unable to write/read values: Bus(\"I2C operation failed: nak\")"
    );
    let (counter, _) = run_cycle(&device, done(31));
    assert_eq!(counter, CycleCounter::BadHeaterBoard);
    let reset = vec![
        Ok(vec![]),
        Ok(vec![]),
        Ok(vec![0, 0, 0]),
        Ok(vec![2, 0]),
        Err("ignored".to_string()),
    ];
    let (counter, result) = run_cycle(&device, reset);
    assert_eq!(counter, CycleCounter::FanBoardWatchdogReset);
    assert_eq!(result.unwrap_err(), "fan board watchdog reset");
    let reset = vec![Ok(vec![]), Ok(vec![]), Ok(vec![2, 0, 0]), Ok(vec![0, 0]), Ok(vec![])];
    let (counter, result) = run_cycle(&device, reset);
    assert_eq!(counter, CycleCounter::HeaterBoardWatchdogReset);
    device.finish_cycle(&result, TS);
    assert!(device.core.dirty);
    let bad_fan = vec![Ok(vec![]), Ok(vec![]), Ok(vec![2, 9, 0])];
    assert_eq!(run_cycle(&device, bad_fan).0, CycleCounter::BadFanBoard);
    assert!(matches!(device.begin_cycle(), FanHeaterCycle::WriteFan { .. }));
}

#[test]
fn fan_heater_ports_are_checked() {
    let mut device = FanHeater::new("fan".to_string());
    assert_eq!(
        device.get_output_port(5, None).unwrap_err(),
        "Fan/Heater boards have 5 I/O ports"
    );
    assert_eq!(
        device.get_input_port(4).unwrap_err(),
        "Fan/Heater boards have two readonly ports: 5=>fan-i2c-disabled, 6=>heater-disabled"
    );
    assert_eq!(FanHeater::port_alias(6).unwrap(), "heater-disabled");
    assert_eq!(FanHeater::port_alias(7).unwrap_err(), "Fan/Heater boards have 7 ports");
    let config = FanHeaterConfig { i2c_bus: String::new(), update_interval_seconds: 0 };
    assert_eq!(
        FanHeater::check_config(&config).unwrap_err(),
        "update_interval_seconds must be at least 1"
    );
}

fn dht_registers(status: u8) -> Vec<u8> {
    let mut registers = vec![0; 97];
    registers[0] = status;
    for sensor in 0..16 {
        registers[1 + 6 * sensor + 5] = 1;
    }
    registers
}

#[test]
fn dht_expander_registers_are_decoded() {
    let mut registers = dht_registers(0x02);
    registers[1..7].copy_from_slice(&[2, 140, 1, 95, 238, 0]);
    registers[7..13].copy_from_slice(&[2, 140, 1, 95, 239, 0]);
    registers[13..19].copy_from_slice(&[3, 233, 0, 0, 236, 0]);
    registers[24] = 2;
    let readings = readout_sensors(Ok(registers.clone())).unwrap();
    assert_eq!(readings.len(), 16);
    assert_eq!(readings[0].unwrap().humidity_tenths, 652);
    assert_eq!(readings[1], Err(ExpanderSensorError::Checksum));
    assert_eq!(readings[2], Err(ExpanderSensorError::SuspiciousValue));
    assert_eq!(readings[3], Err(ExpanderSensorError::Timeout));
    assert_eq!(readings[4], Err(ExpanderSensorError::NoStartCondition));
    registers[96] = 7;
    assert_eq!(
        readout_sensors(Ok(registers)).unwrap_err().text(),
        "BadExpander(\"invalid DHT status byte\")"
    );
    assert_eq!(
        readout_sensors(Ok(dht_registers(0x03))).unwrap_err().text(),
        "ExpanderReadoutNotFinished"
    );
    assert_eq!(
        readout_sensors(Ok(dht_registers(0x00))).unwrap_err().text(),
        "ExpanderWatchdogReset"
    );
}

fn dht_config(every: Option<u16>, off: Option<u8>) -> DHT22ExpanderConfig {
    DHT22ExpanderConfig {
        i2c_bus: String::new(),
        readout_interval_seconds: 2,
        i2c_slave_address: 0x3d,
        power_cycle_every_n_readouts: every,
        power_cycle_power_off_seconds: off,
    }
}

fn transacted(run: &ExpanderRun) -> I2cRequest {
    match run.action() {
        RunAction::Transact(request) => request,
        other => panic!("unexpected action {:?}", other),
    }
}

#[test]
fn dht_sensors_are_power_cycled() {
    let config = dht_config(Some(2), Some(3));
    assert_eq!(DHT22Expander::check_config(&config), Ok(0x3d));
    let mut run = ExpanderRun::new(0x3d, &config);
    assert_eq!(run.interval_seconds(2), 2);
    run.begin();
    assert_eq!(written(transacted(&run)), (0x3d, vec![0, 1]));
    assert!(matches!(run.replied(Ok(vec![])), RunEvent::Quiet));
    assert!(matches!(run.action(), RunAction::SleepMillis(500)));
    run.slept();
    assert_eq!(read_len(transacted(&run)), (0x3d, 97));
    match run.replied(Ok(dht_registers(0x00))) {
        RunEvent::Readout(Err(DhtExpanderError::ExpanderWatchdogReset)) => {}
        other => panic!("unexpected event {:?}", other),
    }
    assert_eq!(written(transacted(&run)), (0x3d, vec![0, 2]));
    run.replied(Ok(vec![]));
    assert!(matches!(run.action(), RunAction::Rest));

    run.begin();
    assert_eq!(written(transacted(&run)), (0x3d, vec![0, 0x0c]));
    run.replied(Ok(vec![]));
    assert!(matches!(run.action(), RunAction::SleepMillis(3000)));
    run.slept();
    assert_eq!(written(transacted(&run)), (0x3d, vec![0, 0]));
    assert!(matches!(run.replied(Ok(vec![])), RunEvent::PowerCycled));
    assert_eq!(run.interval_seconds(2), 7);
    run.begin();
    assert_eq!(run.interval_seconds(2), 2);
    match run.replied(Err("nak".to_string())) {
        RunEvent::InitFailed(error) => {
            assert_eq!(error.text(), "Bus(\"I2C operation failed: nak\")")
        }
        other => panic!("unexpected event {:?}", other),
    }
    run.begin();
    assert!(matches!(run.replied(Err("nak".to_string())), RunEvent::PowerCycleFailed(_)));
}

#[test]
fn dht_expander_configs_are_checked() {
    let error = |config| DHT22Expander::check_config(&config).unwrap_err();
    assert_eq!(
        error(dht_config(Some(0), Some(1))),
        "power_cycle_every_n_readouts must be greater zero, or not specified to disable power cycling"
    );
    assert_eq!(
        error(dht_config(Some(1), None)),
        "power_cycle_power_off_seconds must be set if power cycling is enabled"
    );
    let mut config = dht_config(None, None);
    config.i2c_slave_address = 1;
    assert_eq!(error(config), "invalid address");
}

#[test]
fn dht_expander_ports_get_their_readings() {
    let mut device = DHT22Expander::new("dht".to_string());
    device.get_input_port(2).unwrap();
    device.get_input_port(3).unwrap();
    let mut registers = dht_registers(0x02);
    registers[7..13].copy_from_slice(&[2, 140, 128, 101, 115, 0]);
    let result = readout_sensors(Ok(registers));
    device.process_readout(&result, TS);
    let value = |device: &mut DHT22Expander, port| match device.core.poll_events(port).unwrap().inner
    {
        Ok(EventKind::Update { new_value }) => Ok(new_value),
        Ok(other) => panic!("unexpected event {:?}", other),
        Err(message) => Err(message),
    };
    assert_eq!(
        value(&mut device, 2),
        Ok(InputValue::Temperature(Quantity::Tenths { negative: true, magnitude: 101 }))
    );
    assert_eq!(
        value(&mut device, 3),
        Ok(InputValue::Humidity(Quantity::Tenths { negative: false, magnitude: 652 }))
    );
    // Only the humidity has changed, but both are reported.
    let mut registers = dht_registers(0x02);
    registers[7..13].copy_from_slice(&[2, 141, 128, 101, 116, 0]);
    device.process_readout(&readout_sensors(Ok(registers)), TS);
    assert_eq!(
        value(&mut device, 2),
        Ok(InputValue::Temperature(Quantity::Tenths { negative: true, magnitude: 101 }))
    );
    assert_eq!(
        value(&mut device, 3),
        Ok(InputValue::Humidity(Quantity::Tenths { negative: false, magnitude: 653 }))
    );
    device.process_readout(&readout_sensors(Ok(dht_registers(0x02))), TS);
    assert_eq!(value(&mut device, 2), Err("NoStartCondition".to_string()));
    device.process_readout(&Err(DhtExpanderError::ExpanderReadoutNotFinished), TS);
    assert_eq!(value(&mut device, 2), Err("ExpanderReadoutNotFinished".to_string()));
    assert_eq!(DHT22Expander::port_alias(3).unwrap(), "dht-1-humidity");
    assert_eq!(
        DHT22Expander::port_alias(32).unwrap_err(),
        "DHT22Expander has 32 ports: 16 groups of temperature and humidity"
    );
}

/// What the board sends when only the button at pin 0 is pressed.
const PIN_0_PRESSED: [u8; 9] = [254, 126, 143, 247, 243, 124, 191, 159, 227];

#[test]
fn one_good_transmission_is_enough() {
    assert_eq!(compute_checksum(254, 127), 207);
    let pressed = ButtonExpanderData::Pins { pin_a: 0, pin_b: 0b1000_0000 };
    for good in 0..3 {
        let mut received = PIN_0_PRESSED;
        for (place, byte) in received.iter_mut().enumerate() {
            if place / 3 != good {
                *byte ^= 0x55;
            }
        }
        assert_eq!(try_decode_transmissions(&received), pressed);
    }
    let mut bad = PIN_0_PRESSED;
    for byte in bad.iter_mut() {
        *byte ^= 0x55;
    }
    assert_eq!(try_decode_transmissions(&bad), ButtonExpanderData::ChecksumError);
    // The inverted pins 12 and 13.
    let b1 = 0xff;
    let b2 = 0xff;
    let cs = compute_checksum(b1, b2);
    assert_eq!(
        try_decode_transmissions(&[b1, b2, cs, 0, 0, 1, 0, 0, 1]),
        ButtonExpanderData::Pins { pin_a: 0b0000_1100, pin_b: 0 }
    );
}

#[test]
fn button_board_is_read() {
    let mut registers = vec![0x02];
    registers.extend_from_slice(&PIN_0_PRESSED);
    let mut run = ButtonExpanderRun::new();
    assert_eq!(read_len(run.request()), (0x3e, 10));
    match run.replied(Ok(registers.clone())) {
        BoardEvent::Pins(vals) => assert_eq!(vals, 1 << 7),
        other => panic!("unexpected event {:?}", other),
    }
    let mut checksum = registers.clone();
    for byte in checksum[1..].iter_mut() {
        *byte ^= 0x55;
    }
    assert!(matches!(run.replied(Ok(checksum)), BoardEvent::ChecksumError));
    registers[0] = 0;
    assert!(matches!(run.replied(Ok(registers.clone())), BoardEvent::WatchdogReset));
    assert_eq!(written(run.request()), (0x3e, vec![0, 2]));
    run.replied(Err("nak".to_string()));
    assert_eq!(written(run.request()), (0x3e, vec![0, 2]));
    run.replied(Ok(vec![]));
    run.replied(Ok(registers.clone()));
    assert_eq!(written(run.request()), (0x3e, vec![0, 2]));
    run.replied(Ok(vec![]));
    registers[0] = 2;
    run.replied(Ok(registers));
    assert_eq!(read_len(run.request()), (0x3e, 10));
}

#[test]
fn dead_button_boards_are_reported() {
    let mut board = ButtonExpanderBoard::new("buttons".to_string(), 0);
    board.get_input_port(7).unwrap();
    let mut run = ButtonExpanderRun::new();
    for i in 1..=10_001 {
        let event = run.replied(Err("nak".to_string()));
        match &event {
            BoardEvent::BusError { dead, .. } => assert_eq!(*dead, i >= 10_000),
            other => panic!("unexpected event {:?}", other),
        }
        board.handle_event(&event, i, TS);
    }
    let expected = "\"I2C operation failed: nak\"";
    for _ in 0..2 {
        assert_eq!(board.core.poll_events(7).unwrap().inner.unwrap_err(), expected);
    }
    assert!(board.core.poll_events(7).is_none());
    board.handle_event(&BoardEvent::Pins(1 << 7), 20_000, TS);
    assert!(board.core.poll_events(7).is_some());
    assert_eq!(board.get_input_port(16).unwrap_err(), "button expander has 16 ports only");
    assert_eq!(
        ButtonExpanderError::i2c_error("nak").message(),
        "I2C error: \"I2C operation failed: nak\""
    );
}

#[test]
fn button_boards_are_started() {
    let mut registers = vec![0; 10];
    let mut setup = ButtonExpanderSetup::new();
    let mut steps = 0;
    let error = loop {
        steps += 1;
        let reply = match setup.request() {
            I2cRequest::WriteRead { .. } => Ok(registers.clone()),
            I2cRequest::Write { .. } => Ok(vec![]),
        };
        match setup.replied(reply) {
            ButtonSetupStep::Next(next) => setup = next,
            ButtonSetupStep::Done(result) => break result.unwrap_err().report(),
        }
    };
    assert_eq!((steps, error.as_str()), (5, "board has sticky watchdog reset?"));
    registers[0] = 2;
    assert!(matches!(
        ButtonExpanderSetup::new().replied(Ok(registers)),
        ButtonSetupStep::Done(Ok(()))
    ));
    match ButtonExpanderSetup::new().replied(Err("nak".to_string())) {
        ButtonSetupStep::Done(result) => assert_eq!(
            result.unwrap_err().report(),
            "unable to read expander state\n\nCaused by:\n    I2C error: \"I2C operation failed: nak\""
        ),
        other => panic!("unexpected step {:?}", other),
    }
}

#[test]
fn port_expander_registers_are_computed() {
    let mut values = [0; 16];
    values[0] = 1;
    values[9] = 65535;
    assert_eq!(compute_registers(&values), (0b10, 0b1));
    assert_eq!(gpio_word(&values), 0x0201);
    assert_eq!(compute_registers(&[]), (0, 0));
    assert_eq!(compute_registers(&[0, 7, 1]), (0, 0b110));
    assert_eq!(compute_registers(&[1; 9]), (0b1, 0xff));
    assert_eq!(compute_port_alias(7).unwrap(), "a-7");
    assert_eq!(compute_port_alias(8).unwrap(), "b-0");
    assert_eq!(compute_port_alias(16).unwrap_err(), "MCP23017 has 16 ports only");
    for address in 0..=255 {
        let valid = (32..=39).contains(&address);
        assert_eq!(MCP23017Config::slave_address(address).is_ok(), valid);
    }
}

#[test]
fn port_expander_is_written_when_dirty() {
    let mut device = MCP23017::new("mcp".to_string());
    device.get_output_port(4, None).unwrap();
    assert_eq!(device.update(), (true, Ok(())));
    let values = device.begin_update().unwrap();
    assert_eq!(device.update(), (false, Ok(())));
    assert!(device.begin_update().is_none());
    device.finish_update(values.clone(), Err("nak".to_string()), TS);
    device.begin_update().unwrap();
    device.finish_update(values, Ok(()), TS);
    assert_eq!(device.update(), (false, Err("nak".to_string())));
    assert_eq!(device.update(), (false, Ok(())));
    assert!(device.core.read_core.poll_events(4).unwrap().inner.is_err());
    assert!(device.core.read_core.poll_events(4).unwrap().inner.is_ok());
}

#[test]
fn port_expander_inputs_are_read() {
    assert_eq!(swap_bytes(0x0180), 0x8001);
    let mut device = MCP23017Input::new("mcp".to_string(), 0);
    device.get_input_port(8).unwrap();
    assert_eq!(device.handle_readout(&Ok(0xffff), 1, TS), InputOutcome::SuspiciousValue);
    assert!(device.core.poll_events(8).is_none());
    assert_eq!(device.handle_readout(&Ok(0x0001), 2, TS), InputOutcome::Success);
    match device.core.poll_events(8).unwrap().inner {
        Ok(EventKind::Update { new_value }) => assert_eq!(new_value, InputValue::Binary(true)),
        other => panic!("unexpected event {:?}", other),
    }
    assert_eq!(
        device.handle_readout(&Err("nak".to_string()), 3, TS),
        InputOutcome::I2cError
    );
    assert_eq!(device.core.poll_events(8).unwrap().inner.unwrap_err(), "nak");
    let mut config = MCP23017InputConfig {
        i2c_bus: String::new(),
        i2c_slave_address: 34,
        polling_interval_millis: 0,
        enable_pullups: true,
        invert: true,
    };
    assert_eq!(
        MCP23017Input::check_config(&config).unwrap_err(),
        "polling interval must be greater than zero"
    );
    config.i2c_slave_address = 40;
    assert_eq!(MCP23017Input::check_config(&config).unwrap_err(), "invalid address");
}

#[test]
fn port_expander_inputs_are_set_up() {
    let config = MCP23017InputConfig {
        i2c_bus: String::new(),
        i2c_slave_address: 34,
        polling_interval_millis: 1,
        enable_pullups: true,
        invert: false,
    };
    let commands = set_up_inputs(&config);
    assert_eq!(commands.len(), 33);
    for pin in 0..16 {
        let i = pin as usize;
        assert_eq!(commands[i], InputCommand::PullUp { pin, enabled: true });
        assert_eq!(commands[16 + i], InputCommand::InvertPolarity { pin, inverted: false });
    }
    assert_eq!(commands[32], InputCommand::AllInputs);
}

#[test]
fn spi_expander_is_addressed() {
    assert_eq!(MCP23S17::new(true, false, true).read_command(), [0x4b, 0x12]);
    assert_eq!(MCP23S17::new(false, true, false).read_command(), [0x45, 0x12]);
    assert_eq!(MCP23S17::read_gpio([0x12, 0x34]), 0x1234);
}
