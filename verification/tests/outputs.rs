use submarine::config::ValueScaling;
use submarine::pca9685::{
    calculate_on_off_values, check_config, map_linear, prepare_write, set_up_device,
    PCA9685Config, Pca9685Device, SetupCommand, UpdateStep, PCA9685,
};
use submarine::tasmota_relay_expander::{
    base_url, build_command, build_request, TasmotaRelayExpander, TasmotaRelayExpanderConfig,
};
use submarine::value::{EventKind, InputValue, Timestamp};

const TS: Timestamp = Timestamp { seconds: 3, nanos: 0 };

fn pca_config() -> PCA9685Config {
    PCA9685Config {
        i2c_bus: String::new(),
        i2c_slave_address: 64,
        use_external_clock: true,
        inverted: true,
        output_driver_totem_pole: false,
        update_interval_millis: 5,
        prescale: 3,
        sleep_after_millis: Some(2),
    }
}

#[test]
fn generator_is_set_up_in_order() {
    let mut config = pca_config();
    assert_eq!(
        set_up_device(&config),
        vec![
            SetupCommand::SetOutputLogicState { inverted: true },
            SetupCommand::SetOutputDriver { totem_pole: false },
            SetupCommand::UseExternalClock,
            SetupCommand::Enable,
            SetupCommand::SetPrescale(3),
        ]
    );
    config.use_external_clock = false;
    assert_eq!(set_up_device(&config).len(), 4);
    assert_eq!(check_config(&config), Ok(64));
    config.update_interval_millis = 0;
    assert_eq!(check_config(&config).unwrap_err(), "update_interval_millis must be > 0");
    config.i2c_slave_address = 128;
    assert_eq!(check_config(&config).unwrap_err(), "invalid address");
    config.i2c_slave_address = 63;
    assert_eq!(check_config(&config).unwrap_err(), "invalid address");
}

#[test]
fn linear_scaling_rounds_down() {
    assert_eq!(map_linear(0, 65535, 1234), 1234);
    assert_eq!(map_linear(100, 200, 0), 100);
    assert_eq!(map_linear(100, 200, 65535), 200);
    assert_eq!(map_linear(100, 200, 32767), 149);
    assert_eq!(map_linear(200, 100, 32767), 150);
    assert_eq!(map_linear(200, 100, 1), 199);
    for v in [0, 1, 7, 655, 6553, 32768, 65534, 65535] {
        let expected = (100.0 + (60000.0 - 100.0) * v as f64 / 65535.0).floor() as u16;
        assert_eq!(map_linear(100, 60000, v), expected);
        let expected = (60000.0 + (100.0 - 60000.0) * v as f64 / 65535.0).floor() as u16;
        assert_eq!(map_linear(60000, 100, v), expected);
    }
}

#[test]
fn values_become_pulse_widths() {
    let mut values = vec![0; 16];
    let mut scalings = vec![ValueScaling::default(); 16];
    let logarithmic = vec![77; 16];
    values[1] = 65535;
    values[2] = 0x1234;
    values[3] = 0x1234;
    scalings[3] = ValueScaling::Logarithmic;
    values[4] = 65535;
    scalings[4] = ValueScaling::Logarithmic;
    scalings[5] = ValueScaling::Logarithmic;
    scalings[6] = ValueScaling::Linear { from: 160, to: 320 };
    let on_off = calculate_on_off_values(&values, &scalings, &logarithmic);
    assert_eq!(on_off.len(), 32);
    assert_eq!(on_off[0..14], [0, 0, 0, 4095, 0, 0x123, 0, 77, 0, 4095, 0, 0, 0, 10]);
    let write = prepare_write(&values, &scalings, &logarithmic);
    assert_eq!(write.on, [0; 16]);
    assert_eq!(write.off[0..7], [0, 4095, 0x123, 77, 4095, 0, 10]);
    let few = vec![0, 65535, 4096, 65535];
    let on_off = calculate_on_off_values(
        &few,
        &vec![
            ValueScaling::Logarithmic,
            ValueScaling::Logarithmic,
            ValueScaling::default(),
            ValueScaling::default(),
        ],
        &vec![0; 4],
    );
    assert_eq!(on_off, vec![0, 0, 0, 4095, 0, 256, 0, 4095]);
    // What has no scaling is left out.
    let on_off = calculate_on_off_values(&few, &vec![ValueScaling::default(); 2], &vec![0; 2]);
    assert_eq!(on_off, vec![0, 0, 0, 4095]);
}

#[test]
fn brighter_is_never_shorter() {
    let scalings = vec![
        ValueScaling::default(),
        ValueScaling::Logarithmic,
        ValueScaling::Linear { from: 100, to: 9000 },
    ];
    let logarithmic =
        |v: u16| 2_f64.powf(4095_f64.log2() * (v as f64 + 1.0) / 65536.0).floor() as u16;
    let mut before = vec![0; 6];
    for v in (0..=65535).step_by(97) {
        let on_off = calculate_on_off_values(&vec![v; 3], &scalings, &vec![logarithmic(v); 3]);
        assert_eq!((on_off[0], on_off[2], on_off[4]), (0, 0, 0));
        for i in 0..6 {
            assert!(before[i] <= on_off[i] && on_off[i] <= 4095);
        }
        before = on_off;
    }
}

#[test]
fn idle_generators_sleep() {
    let mut device = Pca9685Device::new(&pca_config(), 1_000_000);
    assert_eq!(device.begin_update(false, 3_000_000), UpdateStep::Finished);
    assert_eq!(device.begin_update(false, 3_000_001), UpdateStep::Sleep);
    assert_eq!(device.step_done(UpdateStep::Sleep, 3_000_001), UpdateStep::Finished);
    assert_eq!(device.begin_update(false, 9_000_000), UpdateStep::Finished);
    assert_eq!(device.begin_update(true, 9_000_000), UpdateStep::Restart);
    assert_eq!(device.step_done(UpdateStep::Restart, 9_000_000), UpdateStep::Write);
    assert_eq!(device.step_done(UpdateStep::Write, 9_000_500), UpdateStep::Finished);
    assert_eq!(device.last_change, 9_000_500);
    assert_eq!(device.begin_update(true, 9_000_600), UpdateStep::Write);
    let failed = |step: UpdateStep| step.failed("nak".to_string());
    assert_eq!(failed(UpdateStep::Sleep), "unable to put PCA to sleep\n\nCaused by:\n    nak");
    assert_eq!(failed(UpdateStep::Restart), "unable to restart PCA\n\nCaused by:\n    nak");
    assert_eq!(failed(UpdateStep::Write), "unable to update PCA\n\nCaused by:\n    nak");
    let mut generator = PCA9685::new("pca".to_string(), false);
    assert_eq!(generator.get_output_port(16, None).unwrap_err(), "PCA9685 has 16 ports only");
    assert_eq!(generator.port_alias(15).unwrap(), "port-15");
    assert_eq!(generator.port_alias(16).unwrap_err(), "PCA9685 has 16 ports only");
    let mut synchronized = PCA9685::new("pca".to_string(), true);
    assert_eq!(synchronized.port_alias(15).unwrap(), "port-15");
    assert_eq!(synchronized.port_alias(16).unwrap_err(), "invalid port number");
    assert_eq!(synchronized.get_output_port(16, None).unwrap_err(), "invalid port: 16");
    assert_eq!(generator.core.scalings[0], ValueScaling::Logarithmic);
    generator.core.finish_update(Err("nak".to_string()), TS, false, false);
    assert_eq!(generator.update(), Err("nak".to_string()));
    assert_eq!(generator.update(), Ok(()));
}

#[test]
fn relay_commands_are_built() {
    assert_eq!(
        build_command(&vec![(0, true), (12, false)]),
        "backlog0; power1 on; power13 off"
    );
    assert_eq!(build_command(&vec![]), "backlog0; ");
    let config = TasmotaRelayExpanderConfig { device_host: "relays.local".to_string() };
    let base = base_url(&config).unwrap();
    assert_eq!(base, "http://relays.local/cm");
    assert_eq!(
        build_request(&base, "backlog0; power1 on").unwrap(),
        "http://relays.local/cm?cmnd=backlog0;%20power1%20on"
    );
    let missing = TasmotaRelayExpanderConfig { device_host: String::new() };
    assert_eq!(base_url(&missing).unwrap_err().report(), "device_host must be set");
    let broken = TasmotaRelayExpanderConfig { device_host: "a b".to_string() };
    let error = base_url(&broken).unwrap_err();
    assert_eq!((error.message.as_str(), error.causes.len()), ("unable to build device base URL", 1));
    assert_eq!(build_request("no url", "status").unwrap_err(), "relative URL without a base");
}

#[test]
fn relays_in_use_are_updated() {
    let mut device = TasmotaRelayExpander::new("relays".to_string());
    device.get_output_port(1, None).unwrap();
    device.get_output_port(12, None).unwrap();
    device.core.set(12, 5);
    device.core.set(3, 5);
    let (values, result) = device.update();
    let values = values.unwrap();
    assert_eq!(values, vec![(1, false), (12, true)]);
    assert_eq!(result, Ok(()));
    assert_eq!(device.update(), (None, Ok(())));
    device.finish_update(&values, Ok(()), TS);
    match device.core.read_core.poll_events(12).unwrap().inner {
        Ok(EventKind::Update { new_value }) => {
            assert_eq!(new_value, InputValue::Continuous(65535))
        }
        other => panic!("unexpected event {:?}", other),
    }
    device.finish_update(&values, Err("timeout".to_string()), TS);
    assert!(device.core.dirty);
    assert_eq!(device.update(), (Some(values), Err("timeout".to_string())));
    assert_eq!(device.update(), (None, Ok(())));
    assert_eq!(TasmotaRelayExpander::port_alias(12).unwrap(), "12");
    assert_eq!(
        device.get_output_port(13, None).unwrap_err(),
        "TasmotaRelayExpander has 13 ports only"
    );
}
