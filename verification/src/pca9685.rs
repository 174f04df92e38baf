//! The PCA9685, which drives sixteen outputs by pulse-width modulation.
use vstd::prelude::*;

use crate::config::ValueScaling;
use crate::device_core::{retrieved, DeviceRWCore, PortView};
use crate::failure::{failed, law_report_of_one_cause, report_of, within, Failure};
use crate::text::{decimal, numbered};
use crate::value::{nanos_between, outcome, InputValueType, OutputValue, HIGH, LOW};

verus! {

/// The number of outputs.
pub const CHANNEL_COUNT: usize = 16;

/// The highest value of an output, at which it is always on.
pub const MAX_DUTY: u16 = 4095;

/// Configuration for the device.
#[derive(Debug)]
pub struct PCA9685Config {
    pub i2c_bus: String,
    pub i2c_slave_address: u8,
    pub use_external_clock: bool,
    pub inverted: bool,
    pub output_driver_totem_pole: bool,
    pub update_interval_millis: u64,
    pub prescale: u8,
    pub sleep_after_millis: Option<u64>,
}

impl PCA9685Config {
    /// Checks the address. One bit of it is fixed, and six are free.
    pub fn slave_address(&self) -> (result: Result<u8, String>)
        ensures
            outcome(result) == (if 64 <= self.i2c_slave_address <= 127 {
                Ok(self.i2c_slave_address)
            } else {
                Err("invalid address"@)
            }),
    {
        let addr: u8 = self.i2c_slave_address;
        assert(((addr >> 6u8) ^ 0b01u8 == 0) == (64 <= addr <= 127)) by (bit_vector);
        if (addr >> 6u8) ^ 0b01 == 0 {
            Ok(addr)
        } else {
            Err("invalid address".to_owned())
        }
    }
}

/// A command of the driver.
#[derive(Clone, Copy, Debug, PartialEq, Eq, Structural)]
pub enum SetupCommand {
    /// Sets whether the outputs are inverted.
    SetOutputLogicState { inverted: bool },
    /// Sets whether the outputs have a totem pole structure or an open drain.
    SetOutputDriver { totem_pole: bool },
    UseExternalClock,
    Enable,
    SetPrescale(u8),
}

/// The commands that set up the device, in their order. The prescale value comes after the device
/// was enabled.
pub open spec fn setup_commands(config: PCA9685Config) -> Seq<SetupCommand> {
    let outputs = seq![
        SetupCommand::SetOutputLogicState { inverted: config.inverted },
        SetupCommand::SetOutputDriver { totem_pole: config.output_driver_totem_pole },
    ];
    let clocked = if config.use_external_clock {
        outputs.push(SetupCommand::UseExternalClock)
    } else {
        outputs
    };
    clocked + seq![SetupCommand::Enable, SetupCommand::SetPrescale(config.prescale)]
}

/// Checks a configuration, and yields the address of the device.
pub fn check_config(config: &PCA9685Config) -> (result: Result<u8, String>)
    ensures
        outcome(result) == (if !(64 <= config.i2c_slave_address <= 127) {
            Err("invalid address"@)
        } else if config.update_interval_millis == 0 {
            Err("update_interval_millis must be > 0"@)
        } else {
            Ok(config.i2c_slave_address)
        }),
{
    match config.slave_address() {
        Err(message) => Err(message),
        Ok(address) => if config.update_interval_millis == 0 {
            Err("update_interval_millis must be > 0".to_owned())
        } else {
            Ok(address)
        },
    }
}

/// The commands that set up the device.
pub fn set_up_device(config: &PCA9685Config) -> (commands: Vec<SetupCommand>)
    ensures
        commands@ == setup_commands(*config),
{
    let mut commands: Vec<SetupCommand> = Vec::new();
    commands.push(SetupCommand::SetOutputLogicState { inverted: config.inverted });
    commands.push(SetupCommand::SetOutputDriver { totem_pole: config.output_driver_totem_pole });
    if config.use_external_clock {
        commands.push(SetupCommand::UseExternalClock);
    }
    commands.push(SetupCommand::Enable);
    commands.push(SetupCommand::SetPrescale(config.prescale));
    assert(commands@ =~= setup_commands(*config));
    commands
}

/// A value that was mapped from the full range to the range from `from` to `to`, rounded down.
pub open spec fn linear_scaled(from: u16, to: u16, v: u16) -> int {
    from + ((to - from) * v) / 65535
}

/// Maps a value from the full range to the range from `from` to `to`.
pub fn map_linear(from: u16, to: u16, v: u16) -> (scaled: u16)
    ensures
        scaled == linear_scaled(from, to, v),
{
    proof {
        lemma_linear_in_range(from, to, v);
    }
    if to >= from {
        let slope: u32 = (to - from) as u32;
        assert(slope * v <= 65535 * 65535) by (nonlinear_arith)
            requires
                slope <= 65535,
                v <= 65535,
        ;
        (from as u32 + slope * v as u32 / 65535) as u16
    } else {
        let slope: u32 = (from - to) as u32;
        assert(0 <= slope * v <= 65535 * 65535) by (nonlinear_arith)
            requires
                0 <= slope <= 65535,
                0 <= v <= 65535,
        ;
        assert((to - from) * v == -(slope * v)) by (nonlinear_arith)
            requires
                to - from == -slope,
        ;
        let product: u32 = slope * v as u32;
        // The quotient is rounded up, because it is subtracted.
        let quotient: u32 = if product % 65535 == 0 {
            product / 65535
        } else {
            product / 65535 + 1
        };
        assert((-product) / 65535 == -quotient);
        (from as u32 - quotient) as u16
    }
}

proof fn lemma_linear_in_range(from: u16, to: u16, v: u16)
    ensures
        from <= to ==> from <= linear_scaled(from, to, v) <= to,
        to <= from ==> to <= linear_scaled(from, to, v) <= from,
{
    let product = (to - from) * v;
    if from <= to {
        assert(0 <= product <= (to - from) * 65535) by (nonlinear_arith)
            requires
                product == (to - from) * v,
                0 <= v <= 65535,
                0 <= to - from,
        ;
    } else {
        assert((to - from) * 65535 <= product <= 0) by (nonlinear_arith)
            requires
                product == (to - from) * v,
                0 <= v <= 65535,
                to - from <= 0,
        ;
    }
}

/// The pulse width of an output: twelve bits. `logarithmic` is the logarithmic scaling of the
/// value; it is asked only for values between the lowest and the highest one.
pub open spec fn duty(v: OutputValue, scaling: ValueScaling, logarithmic: u16) -> int {
    match scaling {
        ValueScaling::Linear { from, to } => if from == LOW && to == HIGH {
            v as int / 16
        } else {
            linear_scaled(from, to, v) / 16
        },
        ValueScaling::Logarithmic => if v == 0 {
            0
        } else if v == 65535 {
            MAX_DUTY as int
        } else {
            logarithmic as int
        },
    }
}

proof fn lemma_duty_in_range(v: OutputValue, scaling: ValueScaling, logarithmic: u16)
    ensures
        0 <= duty(v, scaling, logarithmic) <= 65535,
{
    match scaling {
        ValueScaling::Linear { from, to } => {
            lemma_linear_in_range(from, to, v);
        },
        ValueScaling::Logarithmic => {},
    }
}

fn scale(v: OutputValue, scaling: ValueScaling, logarithmic: u16) -> (scaled: u16)
    ensures
        scaled == duty(v, scaling, logarithmic),
{
    match scaling {
        ValueScaling::Linear { from, to } => {
            let mapped: u16 = if from == LOW && to == HIGH {
                v
            } else {
                map_linear(from, to, v)
            };
            assert(mapped >> 4u16 == mapped / 16) by (bit_vector);
            mapped >> 4u16
        },
        ValueScaling::Logarithmic => if v == u16::MIN {
            u16::MIN
        } else if v == u16::MAX {
            MAX_DUTY
        } else {
            logarithmic
        },
    }
}

/// How many outputs have both a value and a scaling.
pub open spec fn scaled_count(values: Seq<OutputValue>, scalings: Seq<ValueScaling>) -> nat {
    if values.len() <= scalings.len() {
        values.len()
    } else {
        scalings.len()
    }
}

/// When each output that has a value and a scaling goes on and off, one after the other.
pub open spec fn on_off_values(
    values: Seq<OutputValue>,
    scalings: Seq<ValueScaling>,
    logarithmic: Seq<u16>,
) -> Seq<u16> {
    Seq::new(
        2 * scaled_count(values, scalings),
        |k: int|
            if k % 2 == 0 {
                0
            } else {
                duty(values[k / 2], scalings[k / 2], logarithmic[k / 2]) as u16
            },
    )
}

/// Calculates when each output goes on and off. All go on at the start of the cycle.
///
/// `logarithmic` holds the logarithmic scaling of each value, which takes floating-point
/// arithmetic.
pub fn calculate_on_off_values(
    values: &Vec<OutputValue>,
    scalings: &Vec<ValueScaling>,
    logarithmic: &Vec<u16>,
) -> (on_off: Vec<u16>)
    requires
        logarithmic@.len() >= scaled_count(values@, scalings@),
    ensures
        on_off@ == on_off_values(values@, scalings@, logarithmic@),
{
    let mut on_off: Vec<u16> = Vec::new();
    let mut i: usize = 0;
    while i < values.len() && i < scalings.len()
        invariant
            i <= scaled_count(values@, scalings@),
            logarithmic@.len() >= scaled_count(values@, scalings@),
            on_off@.len() == 2 * i,
            forall|k: int|
                0 <= k < 2 * i ==> #[trigger] on_off@[k] == on_off_values(
                    values@,
                    scalings@,
                    logarithmic@,
                )[k],
        decreases values.len() - i,
    {
        on_off.push(0);
        on_off.push(scale(values[i], scalings[i], logarithmic[i]));
        i += 1;
    }
    assert(on_off@ =~= on_off_values(values@, scalings@, logarithmic@));
    on_off
}

/// The times at which the outputs go on, and those at which they go off.
#[derive(Clone, Copy, Debug, PartialEq, Eq)]
pub struct OnOff {
    pub on: [u16; 16],
    pub off: [u16; 16],
}

/// Parts the times at which outputs go on from those at which they go off.
pub fn split_on_off(on_off: &Vec<u16>) -> (split: OnOff)
    requires
        on_off@.len() == 32,
    ensures
        forall|i: int| 0 <= i < 16 ==> #[trigger] split.on@[i] == on_off@[2 * i],
        forall|i: int| 0 <= i < 16 ==> #[trigger] split.off@[i] == on_off@[2 * i + 1],
{
    let mut on: [u16; 16] = [0; 16];
    let mut off: [u16; 16] = [0; 16];
    let mut i: usize = 0;
    while i < CHANNEL_COUNT
        invariant
            i <= 16,
            on_off@.len() == 32,
            forall|j: int| 0 <= j < i ==> #[trigger] on@[j] == on_off@[2 * j],
            forall|j: int| 0 <= j < i ==> #[trigger] off@[j] == on_off@[2 * j + 1],
        decreases 16 - i,
    {
        on[i] = on_off[2 * i];
        off[i] = on_off[2 * i + 1];
        i += 1;
    }
    OnOff { on, off }
}

/// What to send to the device for the given values.
pub fn prepare_write(
    values: &Vec<OutputValue>,
    scalings: &Vec<ValueScaling>,
    logarithmic: &Vec<u16>,
) -> (write: OnOff)
    requires
        values@.len() == CHANNEL_COUNT,
        scalings@.len() == CHANNEL_COUNT,
        logarithmic@.len() == CHANNEL_COUNT,
    ensures
        forall|i: int| 0 <= i < 16 ==> #[trigger] write.on@[i] == 0,
        forall|i: int|
            0 <= i < 16 ==> #[trigger] write.off@[i] == duty(
                values@[i],
                scalings@[i],
                logarithmic@[i],
            ),
        forall|i: int|
            0 <= i < 16 ==> match scalings@[i] {
                ValueScaling::Linear { from, to } => (16 * (#[trigger] write.off@[i]) - from)
                    * 65535 <= (to - from) * values@[i] < (16 * write.off@[i] + 16 - from) * 65535,
                ValueScaling::Logarithmic => write.off@[i] == (if values@[i] == 0 {
                    0
                } else if values@[i] == 65535 {
                    4095
                } else {
                    logarithmic@[i]
                }),
            },
{
    let on_off = calculate_on_off_values(values, scalings, logarithmic);
    proof {
        assert forall|i: int| 0 <= i < 16 implies on_off@[2 * i + 1] == #[trigger] duty(
            values@[i],
            scalings@[i],
            logarithmic@[i],
        ) by {
            lemma_duty_in_range(values@[i], scalings@[i], logarithmic@[i]);
        }
    }
    let write = split_on_off(&on_off);
    proof {
        assert forall|i: int| 0 <= i < 16 implies match scalings@[i] {
            ValueScaling::Linear { from, to } => (16 * (#[trigger] write.off@[i]) - from) * 65535
                <= (to - from) * values@[i] < (16 * write.off@[i] + 16 - from) * 65535,
            ValueScaling::Logarithmic => write.off@[i] == (if values@[i] == 0 {
                0
            } else if values@[i] == 65535 {
                4095
            } else {
                logarithmic@[i]
            }),
        } by {
            match scalings@[i] {
                ValueScaling::Linear { from, to } => {
                    law_pulse_width_follows_the_line(from, to, values@[i], logarithmic@[i]);
                },
                ValueScaling::Logarithmic => {},
            }
        }
    }
    write
}

/// Whether the device is awake, and since when nothing has changed.
#[derive(Clone, Copy, Debug, PartialEq, Eq, Structural)]
pub struct Pca9685Device {
    pub last_change: u64,
    pub device_enabled: bool,
    pub sleep_after: Option<u64>,
}

/// What an update asks of the device next.
#[derive(Clone, Copy, Debug, PartialEq, Eq, Structural)]
pub enum UpdateStep {
    /// Nothing; the update is done.
    Finished,
    /// Puts the device to sleep, in a way that allows a restart.
    Sleep,
    /// Wakes the device up.
    Restart,
    /// Sends the new values.
    Write,
}

impl Pca9685Device {
    /// What an update begins with. A device that has been left alone for long enough is put to
    /// sleep. It is woken up when there is something to write.
    pub open spec fn first_step(self, dirty: bool, now: u64) -> UpdateStep {
        if dirty {
            if self.device_enabled {
                UpdateStep::Write
            } else {
                UpdateStep::Restart
            }
        } else {
            match self.sleep_after {
                Some(nanos) => if self.device_enabled && nanos_between(self.last_change, now)
                    > nanos {
                    UpdateStep::Sleep
                } else {
                    UpdateStep::Finished
                },
                None => UpdateStep::Finished,
            }
        }
    }

    /// The device after a step that succeeded.
    pub open spec fn after_step(self, step: UpdateStep, now: u64) -> Pca9685Device {
        match step {
            UpdateStep::Finished => self,
            UpdateStep::Sleep => Pca9685Device { device_enabled: false, ..self },
            UpdateStep::Restart => Pca9685Device { device_enabled: true, ..self },
            UpdateStep::Write => Pca9685Device { last_change: now, ..self },
        }
    }

    /// What comes after a step that succeeded.
    pub open spec fn next_step(step: UpdateStep) -> UpdateStep {
        match step {
            UpdateStep::Restart => UpdateStep::Write,
            _ => UpdateStep::Finished,
        }
    }

    /// A device that was just set up.
    pub fn new(config: &PCA9685Config, now: u64) -> (device: Self)
        requires
            config.sleep_after_millis matches Some(millis) ==> millis * 1_000_000 <= u64::MAX,
        ensures
            device.last_change == now,
            device.device_enabled,
            device.sleep_after == (match config.sleep_after_millis {
                Some(millis) => Some((millis * 1_000_000) as u64),
                None => None,
            }),
    {
        let sleep_after: Option<u64> = match config.sleep_after_millis {
            Some(millis) => Some(millis * 1_000_000),
            None => None,
        };
        Pca9685Device { last_change: now, device_enabled: true, sleep_after }
    }

    /// Begins an update.
    pub fn begin_update(&self, dirty: bool, now: u64) -> (step: UpdateStep)
        ensures
            step == self.first_step(dirty, now),
    {
        if dirty {
            return if self.device_enabled {
                UpdateStep::Write
            } else {
                UpdateStep::Restart
            };
        }
        match self.sleep_after {
            Some(nanos) => {
                let idle: u64 = if now >= self.last_change {
                    now - self.last_change
                } else {
                    0
                };
                if self.device_enabled && idle > nanos {
                    UpdateStep::Sleep
                } else {
                    UpdateStep::Finished
                }
            },
            None => UpdateStep::Finished,
        }
    }

    /// Goes on after a step that succeeded.
    pub fn step_done(&mut self, step: UpdateStep, now: u64) -> (next: UpdateStep)
        ensures
            *final(self) == old(self).after_step(step, now),
            next == Self::next_step(step),
    {
        match step {
            UpdateStep::Finished => UpdateStep::Finished,
            UpdateStep::Sleep => {
                self.device_enabled = false;
                UpdateStep::Finished
            },
            UpdateStep::Restart => {
                self.device_enabled = true;
                UpdateStep::Write
            },
            UpdateStep::Write => {
                self.last_change = now;
                UpdateStep::Finished
            },
        }
    }
}

impl UpdateStep {
    /// What is said of a step that fails.
    pub open spec fn attempt(self) -> Seq<char> {
        match self {
            UpdateStep::Sleep => "unable to put PCA to sleep"@,
            UpdateStep::Restart => "unable to restart PCA"@,
            _ => "unable to update PCA"@,
        }
    }

    /// What is reported of an update in which this step failed.
    pub fn failed(self, message: String) -> (report: String)
        ensures
            report@ == report_of(within(self.attempt(), failed(message@))),
    {
        let cause = Failure::new(message);
        let failure = match self {
            UpdateStep::Sleep => cause.within("unable to put PCA to sleep"),
            UpdateStep::Restart => cause.within("unable to restart PCA"),
            _ => cause.within("unable to update PCA"),
        };
        failure.report()
    }
}

/// The device with its ports.
#[derive(Debug)]
pub struct PCA9685 {
    pub core: DeviceRWCore,
    /// Whether the device is updated together with the others on its bus.
    pub synchronized: bool,
}

impl PCA9685 {
    /// The device has all its ports.
    pub open spec fn wf(&self) -> bool {
        self.core.wf() && self.core.read_core@.len() == 16
    }

    /// Creates the device. All outputs are to be written once.
    pub fn new(alias: String, synchronized: bool) -> (device: Self)
        ensures
            device.wf(),
            device.synchronized == synchronized,
            device.core.read_core@ == Seq::new(
                16,
                |i: int| PortView::fresh(InputValueType::Continuous),
            ),
            device.core.buffered_values@ == Seq::new(16, |i: int| 0u16),
            device.core.scalings@ == Seq::new(16, |i: int| ValueScaling::Logarithmic),
            device.core.dirty,
            device.core.last_error is None,
            device.core.read_core.alias_text() == alias@,
    {
        PCA9685 {
            core: DeviceRWCore::new_dirty(alias, 16, ValueScaling::Logarithmic),
            synchronized,
        }
    }

    /// Retrieves the error of previous updates. There is nothing to trigger, as the device is
    /// updated regularly anyway.
    pub fn update(&mut self) -> (result: Result<(), String>)
        requires
            old(self).wf(),
        ensures
            final(self).wf(),
            final(self).synchronized == old(self).synchronized,
            outcome(result) == retrieved(old(self).core.error_text()),
            final(self).core.last_error is None,
            final(self).core.read_core == old(self).core.read_core,
            final(self).core.buffered_values == old(self).core.buffered_values,
            final(self).core.scalings == old(self).core.scalings,
            final(self).core.dirty == old(self).core.dirty,
    {
        self.core.update()
    }

    /// The generic alias of a port.
    pub fn port_alias(&self, port: u8) -> (result: Result<String, String>)
        requires
            self.wf(),
        ensures
            match result {
                Ok(alias) => port < 16 && alias@ == "port-"@ + decimal(port as nat),
                Err(message) => port >= 16 && message@ == (if self.synchronized {
                    "invalid port number"@
                } else {
                    "PCA9685 has 16 ports only"@
                }),
            },
    {
        if self.synchronized {
            return self.core.read_core.port_alias(port);
        }
        if port < 16 {
            Ok(numbered("port-", port as u64))
        } else {
            Err("PCA9685 has 16 ports only".to_owned())
        }
    }

    /// Starts to listen to an output, and sets its scaling, if one is given.
    pub fn get_output_port(&mut self, port: u8, scaling: Option<ValueScaling>) -> (result: Result<
        (),
        String,
    >)
        requires
            old(self).wf(),
            port < 16 ==> old(self).core.read_core@[port as int].events is None,
        ensures
            final(self).wf(),
            final(self).synchronized == old(self).synchronized,
            final(self).core.buffered_values == old(self).core.buffered_values,
            final(self).core.dirty == old(self).core.dirty,
            final(self).core.last_error == old(self).core.last_error,
            final(self).core.read_core.alias_text() == old(self).core.read_core.alias_text(),
            port < 16 ==> {
                &&& result is Ok
                &&& final(self).core.read_core@ == old(self).core.read_core@.update(
                    port as int,
                    old(self).core.read_core@[port as int].listened_to(),
                )
                &&& final(self).core.scalings@ == (match scaling {
                    Some(s) => old(self).core.scalings@.update(port as int, s),
                    None => old(self).core.scalings@,
                })
            },
            port >= 16 ==> {
                &&& outcome(result) == Err::<(), Seq<char>>(
                    if old(self).synchronized {
                        "invalid port: "@ + decimal(port as nat)
                    } else {
                        "PCA9685 has 16 ports only"@
                    },
                )
                &&& final(self).core.read_core@ == old(self).core.read_core@
                &&& final(self).core.scalings@ == old(self).core.scalings@
            },
    {
        if !self.synchronized && port >= 16 {
            return Err("PCA9685 has 16 ports only".to_owned());
        }
        self.core.get_output_port(port, scaling)
    }
}

/// Linear scaling hits both ends of its range, stays within it, and keeps the order of values: it
/// rises with them if the range does, and falls if the range does.
pub proof fn law_linear_scaling_is_monotone(from: u16, to: u16, v: u16, w: u16)
    requires
        v <= w,
    ensures
        linear_scaled(from, to, 0) == from,
        linear_scaled(from, to, 65535) == to,
        from <= to ==> from <= linear_scaled(from, to, v) <= linear_scaled(from, to, w) <= to,
        to <= from ==> to <= linear_scaled(from, to, w) <= linear_scaled(from, to, v) <= from,
{
    lemma_linear_in_range(from, to, v);
    lemma_linear_in_range(from, to, w);
    let a = (to - from) * v;
    let b = (to - from) * w;
    if from <= to {
        assert(a <= b) by (nonlinear_arith)
            requires
                a == (to - from) * v,
                b == (to - from) * w,
                v <= w,
                0 <= to - from,
        ;
    } else {
        assert(b <= a) by (nonlinear_arith)
            requires
                a == (to - from) * v,
                b == (to - from) * w,
                v <= w,
                to - from <= 0,
        ;
    }
}

/// A higher value never leads to a shorter pulse: no output gets darker when it is set brighter.
/// This holds for the logarithmic scaling, as far as that rises with the values between the lowest
/// and the highest one, and for all linear ones that rise, among them the default one. All outputs
/// go on at the start of the cycle.
pub proof fn law_brighter_is_never_shorter(
    a: Seq<OutputValue>,
    b: Seq<OutputValue>,
    scalings: Seq<ValueScaling>,
    logarithmic_a: Seq<u16>,
    logarithmic_b: Seq<u16>,
)
    requires
        a.len() == b.len(),
        logarithmic_a.len() >= scaled_count(a, scalings),
        logarithmic_b.len() >= scaled_count(b, scalings),
        forall|i: int| 0 <= i < a.len() ==> #[trigger] a[i] <= b[i],
        forall|i: int|
            0 <= i < scaled_count(a, scalings) ==> match #[trigger] scalings[i] {
                ValueScaling::Linear { from, to } => from <= to,
                ValueScaling::Logarithmic => {
                    &&& logarithmic_a[i] <= MAX_DUTY
                    &&& logarithmic_b[i] <= MAX_DUTY
                    &&& LOW < a[i] && b[i] < HIGH ==> logarithmic_a[i] <= logarithmic_b[i]
                },
            },
    ensures
        ({
            let x = on_off_values(a, scalings, logarithmic_a);
            let y = on_off_values(b, scalings, logarithmic_b);
            &&& x.len() == y.len() == 2 * scaled_count(a, scalings)
            &&& forall|k: int|
                0 <= k < x.len() ==> {
                    &&& #[trigger] x[k] <= #[trigger] y[k] <= MAX_DUTY
                    &&& k % 2 == 0 ==> x[k] == 0 && y[k] == 0
                }
        }),
{
    let x = on_off_values(a, scalings, logarithmic_a);
    let y = on_off_values(b, scalings, logarithmic_b);
    assert forall|k: int| 0 <= k < x.len() implies {
        &&& #[trigger] x[k] <= #[trigger] y[k] <= MAX_DUTY
        &&& k % 2 == 0 ==> x[k] == 0 && y[k] == 0
    } by {
        let i = k / 2;
        assert(a[i] <= b[i]);
        match scalings[i] {
            ValueScaling::Linear { from, to } => {
                law_linear_scaling_is_monotone(from, to, a[i], b[i]);
            },
            ValueScaling::Logarithmic => {},
        }
    }
}

/// Whatever the scaling, a pulse width fits into the twelve bits that the device has for it, as
/// long as the logarithmic scaling does. With the default scaling the lowest value switches an
/// output off, and the highest one switches it on.
pub proof fn law_duty_fits(v: OutputValue, scaling: ValueScaling, logarithmic: u16)
    requires
        logarithmic <= MAX_DUTY,
    ensures
        0 <= duty(v, scaling, logarithmic) <= MAX_DUTY,
        duty(LOW, ValueScaling::full_range(), logarithmic) == 0,
        duty(HIGH, ValueScaling::full_range(), logarithmic) == MAX_DUTY,
        duty(LOW, ValueScaling::Logarithmic, logarithmic) == 0,
        duty(HIGH, ValueScaling::Logarithmic, logarithmic) == MAX_DUTY,
{
    match scaling {
        ValueScaling::Linear { from, to } => {
            lemma_linear_in_range(from, to, v);
        },
        ValueScaling::Logarithmic => {},
    }
}

/// Values are written only to a device that is awake, and one that sleeps is woken up by the next
/// change.
pub proof fn law_only_awake_devices_are_written(device: Pca9685Device, dirty: bool, now: u64)
    ensures
        ({
            let first = device.first_step(dirty, now);
            let second = Pca9685Device::next_step(first);
            &&& first == UpdateStep::Write ==> device.device_enabled
            &&& second == UpdateStep::Write ==> device.after_step(first, now).device_enabled
            &&& dirty ==> first == UpdateStep::Write || second == UpdateStep::Write
            &&& !dirty ==> first != UpdateStep::Write && second != UpdateStep::Write
        }),
{
}

/// The pulse width of a linearly scaled value lies on the line from `from` to `to`: sixteen times
/// the width is the highest multiple of sixteen that does not exceed the value
/// `from + (to - from) * v / 65535`, whichever of both ends is the higher one. There is one such
/// width only.
pub proof fn law_pulse_width_follows_the_line(
    from: u16,
    to: u16,
    v: OutputValue,
    logarithmic: u16,
)
    ensures
        ({
            let width = duty(v, ValueScaling::Linear { from, to }, logarithmic);
            &&& (16 * width - from) * 65535 <= (to - from) * v
            &&& (to - from) * v < (16 * width + 16 - from) * 65535
            &&& forall|other: int|
                #![trigger 16 * other]
                (16 * other - from) * 65535 <= (to - from) * v < (16 * other + 16 - from) * 65535
                    ==> other == width
        }),
{
    let width = duty(v, ValueScaling::Linear { from, to }, logarithmic);
    let product = (to - from) * v;
    if from == 0 && to == 65535 {
        assert(product == 65535 * v) by (nonlinear_arith)
            requires
                product == (to - from) * v,
                from == 0,
                to == 65535,
        ;
    } else {
        let scaled = linear_scaled(from, to, v);
        assert((scaled - from) * 65535 <= product < (scaled - from + 1) * 65535);
        assert(16 * width <= scaled <= 16 * width + 15);
    }
}

/// With logarithmic scaling the lowest value switches an output off and the highest one switches
/// it on for the whole cycle of 4096 steps; any other value is scaled as given.
pub proof fn law_logarithmic_pulse_width(v: OutputValue, logarithmic: u16)
    ensures
        duty(v, ValueScaling::Logarithmic, logarithmic) == (if v == 0 {
            0
        } else if v == 65535 {
            4095
        } else {
            logarithmic as int
        }),
{
}

/// The times at which outputs go on and off alternate: each output goes on at the start of the
/// cycle, and off after its pulse width.
pub proof fn law_on_and_off_alternate(
    values: Seq<OutputValue>,
    scalings: Seq<ValueScaling>,
    logarithmic: Seq<u16>,
    i: int,
)
    requires
        values.len() == scalings.len() == logarithmic.len(),
        0 <= i < values.len(),
    ensures
        ({
            let on_off = on_off_values(values, scalings, logarithmic);
            &&& on_off.len() == 2 * values.len()
            &&& on_off[2 * i] == 0
            &&& on_off[2 * i + 1] == duty(values[i], scalings[i], logarithmic[i])
        }),
{
    lemma_duty_in_range(values[i], scalings[i], logarithmic[i]);
    assert((2 * i) % 2 == 0 && (2 * i + 1) % 2 == 1 && (2 * i + 1) / 2 == i);
}

/// A device sleeps once nothing has changed for longer than its configured time. A change wakes it
/// up, is written, and starts that time anew; sleeping and waking alone do not.
pub proof fn law_idle_device_sleeps(device: Pca9685Device, idle_for: u64, now: u64)
    requires
        device.last_change + idle_for == now,
    ensures
        device.first_step(false, now) == UpdateStep::Sleep <==> device.device_enabled && (
        device.sleep_after matches Some(nanos) && idle_for > nanos),
        device.first_step(false, now) != UpdateStep::Sleep ==> device.first_step(false, now)
            == UpdateStep::Finished,
        device.first_step(true, now) == UpdateStep::Write <==> device.device_enabled,
        device.first_step(true, now) == UpdateStep::Restart <==> !device.device_enabled,
        ({
            let asleep = device.after_step(UpdateStep::Sleep, now);
            let awake = asleep.after_step(UpdateStep::Restart, now);
            let written = awake.after_step(UpdateStep::Write, now);
            &&& !asleep.device_enabled
            &&& asleep.last_change == device.last_change
            &&& asleep.first_step(true, now) == UpdateStep::Restart
            &&& Pca9685Device::next_step(UpdateStep::Sleep) == UpdateStep::Finished
            &&& Pca9685Device::next_step(UpdateStep::Restart) == UpdateStep::Write
            &&& Pca9685Device::next_step(UpdateStep::Write) == UpdateStep::Finished
            &&& awake.device_enabled
            &&& awake.last_change == device.last_change
            &&& written.device_enabled
            &&& written.last_change == now
            &&& written.sleep_after == device.sleep_after
        }),
{
}

/// The commands that set up the device say how its outputs work before they enable it, and only
/// then how fast they are.
pub proof fn law_setup_enables_before_prescale(config: PCA9685Config)
    ensures
        ({
            let commands = setup_commands(config);
            let n = commands.len() as int;
            &&& n == (if config.use_external_clock {
                5
            } else {
                4int
            })
            &&& commands[0] == (SetupCommand::SetOutputLogicState { inverted: config.inverted })
            &&& commands[1] == (SetupCommand::SetOutputDriver {
                totem_pole: config.output_driver_totem_pole,
            })
            &&& config.use_external_clock ==> commands[2] == SetupCommand::UseExternalClock
            &&& commands[n - 2] == SetupCommand::Enable
            &&& commands[n - 1] == SetupCommand::SetPrescale(config.prescale)
        }),
{
}

/// What is reported of an update that failed says what was tried, and why that failed.
pub proof fn law_failed_steps_are_reported(step: UpdateStep, message: Seq<char>)
    requires
        !message.contains('\n'),
    ensures
        report_of(within(step.attempt(), failed(message))) == (match step {
            UpdateStep::Sleep => "unable to put PCA to sleep"@,
            UpdateStep::Restart => "unable to restart PCA"@,
            UpdateStep::Write => "unable to update PCA"@,
            UpdateStep::Finished => "unable to update PCA"@,
        }) + "\n\nCaused by:"@ + "\n    "@ + message,
{
    law_report_of_one_cause(step.attempt(), message);
}

} // verus!
