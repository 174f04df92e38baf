use submarine::device_core::DeviceReadCore;
use submarine::dht22::{MeasurementOutcome, DHT22};
use submarine::dht22_lib::{
    compute_checksum, decode, decode_pulses, decode_reading, pulses_from_transitions, CounterStep,
    PulseCounter, Reading, ReadingError, RecorderStep, TransitionRecorder,
};
use submarine::value::{EventKind, InputValue, Quantity, Timestamp};

fn tenths(quantity: Quantity) -> f32 {
    match quantity {
        Quantity::Tenths { negative, magnitude } => {
            let value = magnitude as f32 / 10.0;
            if negative {
                -value
            } else {
                value
            }
        }
        other => panic!("unexpected notation {:?}", other),
    }
}

#[test]
fn from_spec_positive_temp() {
    let arr = [
        80, // initial 80us low period
        80, // initial 80us high period
        // humidity
        50, 26, 50, 26, 50, 26, 50, 26, 50, 26, 50, 26, 50, 70, 50, 26, 50, 70, 50, 26, 50, 26, 50,
        26, 50, 70, 50, 70, 50, 26, 50, 26, // temp
        50, 26, 50, 26, 50, 26, 50, 26, 50, 26, 50, 26, 50, 26, 50, 70, 50, 26, 50, 70, 50, 26, 50,
        70, 50, 70, 50, 70, 50, 70, 50, 70, // checksum
        50, 70, 50, 70, 50, 70, 50, 26, 50, 70, 50, 70, 50, 70, 50, 26,
    ];

    let x = decode(&arr).unwrap();
    assert_eq!(tenths(x.humidity()), 65.2);
    assert_eq!(tenths(x.temperature()), 35.1);
}

#[test]
fn from_spec_negative_temp() {
    let arr = [
        80, // initial 80us low period
        80, // initial 80us high period
        // humidity
        50, 26, 50, 26, 50, 26, 50, 26, 50, 26, 50, 26, 50, 70, 50, 26, 50, 70, 50, 26, 50, 26, 50,
        26, 50, 70, 50, 70, 50, 26, 50, 26, // temp
        50, 70, 50, 26, 50, 26, 50, 26, 50, 26, 50, 26, 50, 26, 50, 26, 50, 26, 50, 70, 50, 70, 50,
        26, 50, 26, 50, 70, 50, 26, 50, 70, // checksum
        50, 26, 50, 70, 50, 70, 50, 70, 50, 26, 50, 26, 50, 70, 50, 70,
    ];

    let x = decode(&arr).unwrap();
    assert_eq!(tenths(x.humidity()), 65.2);
    assert_eq!(tenths(x.temperature()), -10.1);
}

#[test]
fn checksum() {
    let arr = [
        80, // initial 80us low period
        80, // initial 80us high period
        // humidity
        50, 26, 50, 26, 50, 26, 50, 26, 50, 70, 50, 26, 50, 70, 50, 26, 50, 70, 50, 26, 50, 26, 50,
        26, 50, 70, 50, 70, 50, 26, 50, 26, // temp
        50, 70, 50, 26, 50, 26, 50, 26, 50, 26, 50, 26, 50, 26, 50, 26, 50, 26, 50, 70, 50, 70, 50,
        26, 50, 26, 50, 70, 50, 26, 50, 70, // checksum
        50, 26, 50, 70, 50, 70, 50, 70, 50, 26, 50, 26, 50, 70, 50, 70,
    ];

    match decode(&arr) {
        Ok(_) => {
            panic!("should have failed");
        }
        Err(e) => {
            match e {
                ReadingError::Checksum => {
                    // ok
                }
                _ => {
                    panic!("should have Checksum, got {:?} instead", e);
                }
            }
        }
    }
}

#[test]
fn sample1() {
    let arr = [
        458, // initial 80us low period
        328, // initial 80us high period
        // humidity
        320, 101, 249, 153, 314, 153, 320, 154, 317, 153, 316, 153, 321, 431, 320, 147, 397, 154,
        315, 435, 316, 154, 320, 431, 320, 430, 319, 431, 320, 431, 320, 426, // temperature
        401, 148, 319, 154, 316, 154, 320, 150, 320, 154, 315, 154, 320, 149, 320, 148, 397, 154,
        319, 430, 321, 430, 321, 431, 320, 429, 318, 432, 320, 150, 320, 147, // checksum
        379, 434, 316, 434, 317, 153, 320, 431, 317, 435, 316, 435, 317, 153, 320, 425,
    ];

    let x = decode(&arr).unwrap();
    assert_eq!(tenths(x.humidity()), 60.7);
    assert_eq!(tenths(x.temperature()), 12.4);
}

/// The pulses that a sensor sends for five bytes, in microseconds.
fn sent(bytes: [u8; 5]) -> Vec<u16> {
    let mut pulses = Vec::new();
    for byte in bytes {
        for bit in (0..8).rev() {
            pulses.push(50);
            pulses.push(if byte & (1 << bit) != 0 { 70 } else { 26 });
        }
    }
    pulses
}

/// The transitions of a pin that is pulled low and high by a sensor.
fn recording(pulses: &[u16]) -> Vec<u64> {
    let mut now = 1_000_000;
    let mut transitions = vec![now];
    for pulse in pulses {
        now += *pulse as u64 * 1000;
        transitions.push(now);
    }
    transitions
}

#[test]
fn decoding_undoes_sending() {
    let bytes = [2, 140, 1, 95, compute_checksum(2, 140, 1, 95)];
    assert_eq!(bytes[4], 238);
    assert_eq!(
        decode_pulses(&sent(bytes)).unwrap(),
        Reading { temperature_negative: false, temperature_tenths: 351, humidity_tenths: 652 }
    );
}

#[test]
fn bad_bytes_are_detected() {
    for place in 0..5 {
        let mut bytes = [2, 140, 1, 95, 238];
        bytes[place] ^= 0x10;
        assert!(matches!(decode_pulses(&sent(bytes)), Err(ReadingError::Checksum)));
    }
}

#[test]
fn readings_are_decoded_from_bytes() {
    assert_eq!(
        decode_reading(0x02, 0x8c, 0x80, 0x65),
        Reading { temperature_negative: true, temperature_tenths: 101, humidity_tenths: 652 }
    );
    assert!(decode_reading(0x03, 0xe9, 0, 0).is_suspicious());
    assert!(!decode_reading(0x03, 0xe8, 0, 0).is_suspicious());
}

#[test]
fn short_recordings_time_out() {
    assert!(matches!(pulses_from_transitions(&vec![0; 81]), Err(ReadingError::Timeout)));
}

#[test]
fn blurred_pulses_are_repaired() {
    // Three pulses blurred into one: what is left are 82 transitions.
    let good = sent([2, 140, 1, 95, 238]);
    let mut blurred = vec![80, 80];
    blurred.extend_from_slice(&good);
    let merged: u16 = blurred[10] + blurred[11] + blurred[12];
    assert_eq!(merged, 126);
    blurred[10] = merged;
    blurred.remove(12);
    blurred.remove(11);
    blurred.push(50);
    let transitions = recording(&blurred);
    assert_eq!(transitions.len(), 82);
    let pulses = pulses_from_transitions(&transitions).unwrap();
    assert_eq!(pulses.len(), 81);
    assert_eq!(pulses[8..11], [50, 27, 50]);
    assert_eq!(decode_pulses(&pulses).unwrap().humidity_tenths, 652);
}

#[test]
fn recorder_collects_transitions() {
    let mut recorder = TransitionRecorder::new();
    assert!(!recorder.is_transition(true));
    assert_eq!(recorder.sample(true, 0), RecorderStep::SampleUnlessTimedOut);
    assert!(recorder.is_transition(false));
    let mut high = true;
    for i in 0..83u64 {
        high = !high;
        assert_eq!(recorder.sample(high, i * 50_000), RecorderStep::Sample);
    }
    assert_eq!(recorder.sample(!high, 83 * 50_000), RecorderStep::Finished);
    assert_eq!(recorder.pulses().unwrap(), vec![50; 81]);
}

#[test]
fn counter_times_out() {
    let mut counter = PulseCounter::new();
    for _ in 0..32_000 {
        assert_eq!(counter.sample(true), CounterStep::Sample);
    }
    assert_eq!(counter.sample(true), CounterStep::TimedOut);
    assert!(matches!(counter.reading(), Err(ReadingError::Timeout)));

    let mut counter = PulseCounter::new();
    counter.sample(false);
    for _ in 0..32_000 {
        assert_eq!(counter.sample(false), CounterStep::Sample);
    }
    assert_eq!(counter.sample(false), CounterStep::TimedOut);
    assert!(matches!(counter.reading(), Err(ReadingError::Timeout)));
}

#[test]
fn counter_counts_pulses() {
    let mut counter = PulseCounter::new();
    let mut pulses = vec![80, 80];
    pulses.extend_from_slice(&sent([2, 140, 1, 95, 238]));
    // The first sample of each pulse ends the one before.
    let mut high = false;
    for pulse in pulses {
        for _ in 0..=pulse {
            assert_eq!(counter.sample(high), CounterStep::Sample);
        }
        high = !high;
    }
    assert_eq!(counter.sample(high), CounterStep::Finished);
    assert_eq!(
        counter.reading().unwrap(),
        Reading { temperature_negative: false, temperature_tenths: 351, humidity_tenths: 652 }
    );
}

const TS: Timestamp = Timestamp { seconds: 1, nanos: 0 };

fn next_value(core: &mut DeviceReadCore, port: usize) -> Result<InputValue, String> {
    match core.poll_events(port).unwrap().inner {
        Ok(EventKind::Update { new_value }) => Ok(new_value),
        Ok(other) => panic!("unexpected event {:?}", other),
        Err(message) => Err(message),
    }
}

#[test]
fn sensor_device_reports_readings() {
    let mut device = DHT22::new("dht".to_string());
    device.get_input_port(0).unwrap();
    device.get_input_port(1).unwrap();
    let reading = Reading { temperature_negative: true, temperature_tenths: 5, humidity_tenths: 400 };
    assert_eq!(device.handle_reading(&Ok(reading), TS), MeasurementOutcome::Success);
    assert_eq!(
        next_value(&mut device.core, 0),
        Ok(InputValue::Temperature(Quantity::Tenths { negative: true, magnitude: 5 }))
    );
    assert_eq!(
        next_value(&mut device.core, 1),
        Ok(InputValue::Humidity(Quantity::Tenths { negative: false, magnitude: 400 }))
    );

    let wet = Reading { humidity_tenths: 1001, ..reading };
    assert_eq!(device.handle_reading(&Ok(wet), TS), MeasurementOutcome::SuspiciousValue);
    assert!(device.core.poll_events(0).is_none());

    let failed = [
        (ReadingError::Timeout, MeasurementOutcome::TimeoutError, "Timeout"),
        (ReadingError::Checksum, MeasurementOutcome::ChecksumError, "Checksum"),
        (ReadingError::Gpio("Io".to_string()), MeasurementOutcome::GpioError, "Gpio(Io)"),
    ];
    for (error, counted, text) in failed {
        assert_eq!(device.handle_reading(&Err(error), TS), counted);
        assert_eq!(next_value(&mut device.core, 0), Err(text.to_string()));
    }
    assert_eq!(
        device.get_input_port(2).unwrap_err(),
        "DHT22 has two ports: temperature and humidity"
    );
    assert_eq!(DHT22::port_alias(1).unwrap(), "humidity");
}
