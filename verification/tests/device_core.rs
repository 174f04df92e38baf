use submarine::bme280::{
    BME280Config, BmeEvent, BmeRun, MeasureError, MeasureErrorKind, Measurement, RunPhase, BME280,
};
use submarine::buttons::update_buttons;
use submarine::config::ValueScaling;
use submarine::device_core::{DeviceRWCore, DeviceReadCore};
use submarine::ds18::{parse_millidegrees, DS18Config, MeasurementOutcome, DS18};
use submarine::gpio::{Gpio, GpioConfig, PullUpDown};
use submarine::i2c_mock::I2cMock;
use submarine::poll::{calculate_sleep_duration, delay_nanos, desync_delay, poll_loop_end};
use submarine::text::{join, numbered, push_hexadecimal};
use submarine::value::{
    ButtonEvent, EventKind, InputValue, InputValueType, Quantity, Timestamp,
};

const TS: Timestamp = Timestamp { seconds: 7, nanos: 5 };

fn updates(core: &mut DeviceReadCore, port: usize) -> Vec<Result<EventKind, String>> {
    let mut events = Vec::new();
    while let Some(event) = core.poll_events(port) {
        events.push(event.inner);
    }
    events
}

fn update(value: InputValue) -> Result<EventKind, String> {
    Ok(EventKind::Update { new_value: value })
}

#[test]
fn changes_are_reported_once() {
    let mut core = DeviceReadCore::uniform("core".to_string(), InputValueType::Binary, 2);
    assert_eq!(core.get_input_port(0), Ok(InputValueType::Binary));
    let on = || Ok(InputValue::Binary(true));
    core.update_value_and_generate_events(TS, 0, on(), false, false);
    core.update_value_and_generate_events(TS, 0, on(), false, false);
    core.update_value_and_generate_events(TS, 0, Ok(InputValue::Binary(false)), false, true);
    core.update_value_and_generate_events(TS, 0, on(), false, false);
    core.update_value_and_generate_events(TS, 0, on(), true, false);
    assert_eq!(
        updates(&mut core, 0),
        vec![
            update(InputValue::Binary(true)),
            update(InputValue::Binary(true)),
            update(InputValue::Binary(true)),
        ]
    );
    assert!(core.is_waiting(0));
    core.update_value_and_generate_events(TS, 0, on(), false, false);
    assert!(!core.is_waiting(0));
}

#[test]
fn errors_are_always_reported() {
    let mut core = DeviceReadCore::uniform("core".to_string(), InputValueType::Binary, 1);
    core.get_input_port(0).unwrap();
    core.set_error_on_all_ports(TS, "broken");
    core.set_error_on_all_ports(TS, "broken");
    assert_eq!(
        updates(&mut core, 0),
        vec![Err("broken".to_string()), Err("broken".to_string())]
    );
    assert_eq!(core.last_value(0), Some(Err("broken".to_string())));
}

#[test]
fn unlistened_ports_stay_as_they_are() {
    let mut core = DeviceReadCore::uniform("core".to_string(), InputValueType::Binary, 1);
    core.update_value_and_generate_events(TS, 0, Ok(InputValue::Binary(true)), true, false);
    assert_eq!(core.last_value(0), None);
    assert!(!core.is_set_up(0));
}

#[test]
fn ports_are_checked() {
    let mut core = DeviceReadCore::uniform("core".to_string(), InputValueType::Binary, 2);
    assert_eq!(core.get_input_port(2).unwrap_err(), "invalid port: 2");
    assert_eq!(core.set_up_events(9).unwrap_err(), "invalid index: 9");
    core.set_up_events(1).unwrap();
    assert_eq!(core.set_up_events(1).unwrap_err(), "events already set up for index 1");
    assert_eq!(core.port_alias(1).unwrap(), "port-1");
    assert_eq!(core.port_alias(2).unwrap_err(), "invalid port number");
    assert_eq!(core.alias(), "core");
}

#[test]
fn outputs_are_buffered_and_reported() {
    let mut core = DeviceRWCore::new("out".to_string(), 2, ValueScaling::default());
    core.get_output_port(0, Some(ValueScaling::Logarithmic)).unwrap();
    assert!(!core.dirty);
    core.set(0, 0);
    assert!(!core.dirty);
    core.set(0, 12);
    let (values, scalings, dirty) = core.take_values();
    assert_eq!(values, vec![12, 0]);
    assert_eq!(
        scalings,
        vec![ValueScaling::Logarithmic, ValueScaling::Linear { from: 0, to: 65535 }]
    );
    assert!(dirty && !core.dirty);
    core.finish_update(Ok(values), TS, false, false);
    assert_eq!(updates(&mut core.read_core, 0), vec![update(InputValue::Continuous(12))]);
    assert_eq!(core.update(), Ok(()));
    core.finish_update(Err("bus".to_string()), TS, false, false);
    assert!(core.dirty);
    assert_eq!(updates(&mut core.read_core, 0), vec![Err("bus".to_string())]);
    core.finish_update(Ok(vec![12, 0]), TS, false, false);
    assert_eq!(core.update(), Err("bus".to_string()));
    assert_eq!(core.update(), Ok(()));
    assert_eq!(core.get_output_port(2, None).unwrap_err(), "invalid port: 2");
}

#[test]
fn presses_become_clicks_and_long_presses() {
    let second = 1_000_000_000;
    let mut core = DeviceReadCore::uniform("buttons".to_string(), InputValueType::Binary, 16);
    core.get_input_port(3).unwrap();
    let mut down = [0; 16];
    let mut secs = [0; 16];
    let mut at = |core: &mut DeviceReadCore, now: u64, vals: u16| {
        update_buttons(core, now, TS, vals, &mut down, &mut secs);
        updates(core, 3)
    };
    let button = |event| Ok(EventKind::Button(event));
    assert_eq!(at(&mut core, 0, 0), vec![update(InputValue::Binary(false))]);
    assert_eq!(
        at(&mut core, second, 8),
        vec![button(ButtonEvent::Down), update(InputValue::Binary(true))]
    );
    assert_eq!(at(&mut core, second + 1, 8), vec![]);
    assert_eq!(
        at(&mut core, 2 * second, 8),
        vec![button(ButtonEvent::LongPress { seconds: 1 })]
    );
    assert_eq!(at(&mut core, 2 * second + 5, 8), vec![]);
    assert_eq!(
        at(&mut core, 3 * second + 7, 0),
        vec![
            button(ButtonEvent::Up),
            button(ButtonEvent::Clicked { duration_nanos: 2 * second + 7 }),
            update(InputValue::Binary(false)),
        ]
    );
    assert_eq!(at(&mut core, 4 * second, 0), vec![]);
}

#[test]
fn mock_bus_remembers_registers() {
    let mut mock = I2cMock::new();
    mock.write(0x20, &[254, 1, 2, 3]).unwrap();
    let mut buffer = [9; 4];
    mock.write_read(0x20, &[254], &mut buffer).unwrap();
    assert_eq!(buffer[0..2], [1, 2]);
    let mut other = [9; 1];
    mock.write_read(0x20, &[100], &mut other).unwrap();
    assert_eq!(other, [0]);
}

#[test]
fn loops_keep_their_rhythm() {
    assert_eq!(calculate_sleep_duration(100, 50, 110), (40, 0));
    assert_eq!(calculate_sleep_duration(100, 50, 150), (0, 0));
    assert_eq!(calculate_sleep_duration(100, 50, 170), (0, 20));
    assert_eq!(delay_nanos(0), 0);
    assert_eq!(delay_nanos(999), 999_000_000);
    for _ in 0..100 {
        let delay = desync_delay();
        assert!(delay < 1_000_000_000 && delay % 1_000_000 == 0);
    }
    let mut seen: Vec<u64> = (0..50).map(|_| desync_delay()).collect();
    seen.sort();
    seen.dedup();
    assert!(seen.len() > 1);
}

#[test]
fn rounds_end_with_a_report() {
    let mut core = DeviceRWCore::new("out".to_string(), 1, ValueScaling::default());
    core.get_output_port(0, None).unwrap();
    let slept = poll_loop_end(&mut core, Ok(()), vec![3], TS, 10, 5, 12);
    assert_eq!(slept, (3, 0));
    assert_eq!(updates(&mut core.read_core, 0), vec![update(InputValue::Continuous(3))]);
    poll_loop_end(&mut core, Err("no".to_string()), vec![3], TS, 10, 5, 12);
    assert!(core.dirty);
    assert_eq!(core.update(), Err("no".to_string()));
}

#[test]
fn texts_are_put_together() {
    assert_eq!(numbered("n=", 0), "n=0");
    assert_eq!(numbered("n=", u64::MAX), "n=18446744073709551615");
    let parts = vec!["a".to_string(), "b".to_string(), "c".to_string()];
    assert_eq!(join(&parts, "; "), "a; b; c");
    assert_eq!(join(&Vec::new(), "; "), "");
    let mut text = String::new();
    push_hexadecimal(&mut text, 0x28ff_0a00, 16);
    assert_eq!(text, "0000000028ff0a00");
}

#[test]
fn quantities_compare_as_numbers() {
    let zero = Quantity::Tenths { negative: false, magnitude: 0 };
    let minus_zero = Quantity::Tenths { negative: true, magnitude: 0 };
    assert!(zero.same(minus_zero));
    let nan = Quantity::Double { bits: f64::NAN.to_bits() };
    assert!(!nan.same(nan));
    let a = Quantity::Double { bits: 0.0_f64.to_bits() };
    let b = Quantity::Double { bits: (-0.0_f64).to_bits() };
    assert!(a.same(b));
    assert!(!a.same(Quantity::Double { bits: 1.0_f64.to_bits() }));
    assert!(Quantity::Sixteenths(-8).same(Quantity::Sixteenths(-8)));
    assert!(!Quantity::Thousandths(1).same(Quantity::Thousandths(2)));
}

#[test]
fn kernel_files_are_parsed() {
    assert_eq!(parse_millidegrees(b"23437\n".to_vec()), Ok(23437));
    assert_eq!(parse_millidegrees(b"-1250\n".to_vec()), Ok(-1250));
    assert_eq!(parse_millidegrees("\u{2003}+7 \t".as_bytes().to_vec()), Ok(7));
    assert_eq!(
        parse_millidegrees(b"\n".to_vec()).unwrap_err(),
        "unable to parse: ParseIntError { kind: Empty }"
    );
    assert_eq!(
        parse_millidegrees(b"12x".to_vec()).unwrap_err(),
        "unable to parse: ParseIntError { kind: InvalidDigit }"
    );
    assert_eq!(
        parse_millidegrees(b"9223372036854775808".to_vec()).unwrap_err(),
        "unable to parse: ParseIntError { kind: PosOverflow }"
    );
    let broken = parse_millidegrees(vec![0xff]).unwrap_err();
    assert!(broken.starts_with("unable to parse: FromUtf8Error"));
}

#[test]
fn one_wire_sensor_reports_temperatures() {
    let mut device = DS18::new("ds".to_string());
    device.get_input_port(0).unwrap();
    assert_eq!(
        device.handle_readout(Ok(b"1500\n".to_vec()), TS),
        MeasurementOutcome::Success
    );
    assert_eq!(device.handle_readout(Ok(b"x".to_vec()), TS), MeasurementOutcome::ConversionError);
    assert_eq!(
        device.handle_readout(Err("gone".to_string()), TS),
        MeasurementOutcome::Error
    );
    assert_eq!(
        updates(&mut device.core, 0),
        vec![
            update(InputValue::Temperature(Quantity::Thousandths(1500))),
            Err("unable to parse: ParseIntError { kind: InvalidDigit }".to_string()),
            Err("unable to read: gone".to_string()),
        ]
    );
    assert_eq!(device.get_input_port(1).unwrap_err(), "DS18 has only one port");
    let short = DS18Config { id: "28-1".to_string(), readout_interval_seconds: 1 };
    assert_eq!(
        DS18::check_config(&short).unwrap_err(),
        "readout_interval_seconds must be at least 2"
    );
}

#[test]
fn pins_can_be_inverted() {
    let mut plain = Gpio::new("pin".to_string(), false);
    plain.get_input_port(0).unwrap();
    plain.handle_level(true, TS);
    assert_eq!(updates(&mut plain.core, 0), vec![update(InputValue::Binary(true))]);
    let mut inverted = Gpio::new("pin".to_string(), true);
    inverted.get_input_port(0).unwrap();
    inverted.handle_level(true, TS);
    assert_eq!(updates(&mut inverted.core, 0), vec![update(InputValue::Binary(false))]);
    assert_eq!(inverted.get_input_port(1).unwrap_err(), "GPIO has one port only");
    let config = GpioConfig {
        bcm_pin: 4,
        pull: PullUpDown::Up,
        readout_interval_milliseconds: 0,
        invert: false,
    };
    assert_eq!(
        Gpio::check_config(&config).unwrap_err(),
        "readout_interval_milliseconds must be > 0"
    );
}

fn measurement(pressure: f64) -> Measurement {
    Measurement {
        temperature_bits: 20.0_f64.to_bits(),
        humidity_bits: 40.0_f64.to_bits(),
        pressure_bits: pressure.to_bits(),
    }
}

#[test]
fn pressure_jumps_force_a_reset() {
    let config = BME280Config {
        i2c_bus: String::new(),
        i2c_slave_address: 0x76,
        readout_interval_seconds: 5,
        reset_every_n_readouts: Some(2),
    };
    BME280::check_config(&config).unwrap();
    let mut run = BmeRun::new(&config);
    // The first measurement has nothing to be held against.
    assert!(matches!(run.measured(Ok(measurement(1.0)), true), BmeEvent::Measured(_)));
    assert_eq!(run.phase, RunPhase::Resting);
    run.begin();
    assert!(matches!(run.measured(Ok(measurement(9.0)), true), BmeEvent::SuspiciousValue));
    assert_eq!(run.phase, RunPhase::ForcedReset);
    run.reset_tried(false);
    assert_eq!(run.phase, RunPhase::ForcedReset);
    run.reset_tried(true);
    assert_eq!(run.phase, RunPhase::Measure);
    assert!(matches!(run.measured(Ok(measurement(9.0)), true), BmeEvent::Measured(_)));
    assert_eq!(run.phase, RunPhase::RegularReset);
    assert_eq!(run.readout_count, 2);
    run.reset_tried(true);
    assert_eq!((run.phase, run.readout_count), (RunPhase::Resting, 0));
}

#[test]
fn weather_sensor_reports_measurements() {
    let mut device = BME280::new("bme".to_string());
    for port in 0..3 {
        device.get_input_port(port).unwrap();
    }
    device.handle_event(&BmeEvent::SuspiciousValue, TS);
    device.handle_event(&BmeEvent::Measured(measurement(1000.0)), TS);
    let error = MeasureError {
        kind: MeasureErrorKind::InvalidData,
        description: "InvalidData".to_string(),
    };
    device.handle_event(&BmeEvent::Failed(error), TS);
    assert_eq!(
        updates(&mut device.core, 2),
        vec![
            update(InputValue::Pressure(Quantity::Double { bits: 1000.0_f64.to_bits() })),
            Err("InvalidData".to_string()),
        ]
    );
    assert_eq!(BME280::port_alias(2).unwrap(), "pressure");
    assert_eq!(
        BME280::port_alias(3).unwrap_err(),
        "BME280 has three ports: temperature, humidity, and pressure"
    );
}
