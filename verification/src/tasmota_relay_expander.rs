//! A relay board with Tasmota firmware, which is controlled by HTTP requests.
use vstd::prelude::*;
use vstd::string::StringExecFns;

use crate::config::ValueScaling;
use crate::device_core::{all_updated, retrieved, values_written, DeviceRWCore, PortView};
use crate::failure::{failed, within, Failure};
use crate::text::{
    concatenated, decimal, join, joined, law_joined_in_order, numbered, same_text, texts,
};
use crate::value::{outcome, InputValueType, OutputValue, Timestamp, HIGH, LOW};

verus! {

/// The number of relays.
pub const RELAY_COUNT: usize = 13;

/// The length of texts that can be put into URLs.
pub const MAX_TEXT_LEN: usize = 10_000_000;

/// Configuration for the board.
#[derive(Debug)]
pub struct TasmotaRelayExpanderConfig {
    pub device_host: String,
}

/// The serialization of a URL that was parsed, or why it could not be parsed.
pub uninterp spec fn parsed_url(text: Seq<char>) -> Result<Seq<char>, Seq<char>>;

/// The serialization of a URL whose query was replaced, or why it could not be parsed.
pub uninterp spec fn url_with_query(url: Seq<char>, query: Seq<char>) -> Result<
    Seq<char>,
    Seq<char>,
>;

/// Calls `Url::parse`, and serializes the URL, or turns the error into its text. The result is a
/// function of the text; what it is takes the URL standard to state.
#[verifier::external_body]
fn parse_url(text: &str) -> (result: Result<String, String>)
    ensures
        outcome_text(result) == parsed_url(text@),
{
    match reqwest::Url::parse(text) {
        Ok(url) => Ok(url.to_string()),
        Err(err) => Err(err.to_string()),
    }
}

/// Calls `Url::set_query` on the URL with the given serialization, which fails exactly if that does
/// not parse, and for the same reason. The new URL is a function of both texts; what it is takes
/// the URL standard to state. A URL whose serialization is longer than 32 bits can tell would make
/// the call panic. Texts of bounded length stay far below that, even if everything is escaped.
#[verifier::external_body]
fn set_query(url: &str, query: &str) -> (result: Result<String, String>)
    requires
        url@.len() <= MAX_TEXT_LEN,
        query@.len() <= MAX_TEXT_LEN,
    ensures
        outcome_text(result) == url_with_query(url@, query@),
        match parsed_url(url@) {
            Ok(_) => result is Ok,
            Err(message) => outcome_text(result) == Err::<Seq<char>, Seq<char>>(message),
        },
{
    match reqwest::Url::parse(url) {
        Ok(mut parsed) => {
            parsed.set_query(Some(query));
            Ok(parsed.to_string())
        },
        Err(err) => Err(err.to_string()),
    }
}

/// A result of texts as contracts see it.
pub open spec fn outcome_text(result: Result<String, String>) -> Result<Seq<char>, Seq<char>> {
    match result {
        Ok(text) => Ok(text@),
        Err(message) => Err(message@),
    }
}

/// Checks a configuration, and yields the URL for commands.
pub fn base_url(config: &TasmotaRelayExpanderConfig) -> (result: Result<String, Failure>)
    ensures
        ({
            let chain = match result {
                Ok(url) => Ok(url@),
                Err(failure) => Err(failure@),
            };
            chain == (if config.device_host@.len() == 0 {
                Err(failed("device_host must be set"@))
            } else {
                match parsed_url("http://"@ + config.device_host@ + "/cm"@) {
                    Ok(url) => Ok(url),
                    Err(message) => Err(
                        within("unable to build device base URL"@, failed(message)),
                    ),
                }
            })
        }),
{
    proof {
        reveal_strlit("");
        if config.device_host@.len() == 0 {
            assert(config.device_host@ =~= ""@);
        }
    }
    if same_text(config.device_host.as_str(), "") {
        return Err(Failure::new("device_host must be set".to_owned()));
    }
    let mut text = concatenated("http://", config.device_host.as_str());
    text.append("/cm");
    match parse_url(text.as_str()) {
        Ok(url) => Ok(url),
        Err(message) => Err(Failure::new(message).within("unable to build device base URL")),
    }
}

/// The URL of the request that sends a command. There is one for every base URL.
pub fn build_request(cmd_base_url: &str, command: &str) -> (result: Result<String, String>)
    requires
        cmd_base_url@.len() <= MAX_TEXT_LEN,
        command@.len() + 5 <= MAX_TEXT_LEN,
    ensures
        outcome_text(result) == url_with_query(cmd_base_url@, "cmnd="@ + command@),
        match parsed_url(cmd_base_url@) {
            Ok(_) => result is Ok,
            Err(message) => outcome_text(result) == Err::<Seq<char>, Seq<char>>(message),
        },
{
    proof {
        reveal_strlit("cmnd=");
    }
    let query = concatenated("cmnd=", command);
    set_query(cmd_base_url, query.as_str())
}

/// The command for one relay. Relays are numbered from 1.
pub open spec fn relay_command(value: (usize, bool)) -> Seq<char> {
    "power"@ + decimal((value.0 + 1) as nat) + (if value.1 {
        " on"@
    } else {
        " off"@
    })
}

/// The command that sets some relays at once.
pub open spec fn backlog_command(values: Seq<(usize, bool)>) -> Seq<char> {
    "backlog0; "@ + joined(values.map_values(|v: (usize, bool)| relay_command(v)), "; "@)
}

/// Builds the command that sets some relays at once.
pub fn build_command(values: &Vec<(usize, bool)>) -> (command: String)
    requires
        forall|i: int| 0 <= i < values@.len() ==> (#[trigger] values@[i]).0 < RELAY_COUNT,
    ensures
        command@ == backlog_command(values@),
{
    let mut parts: Vec<String> = Vec::new();
    let ghost wanted = values@.map_values(|v: (usize, bool)| relay_command(v));
    let mut i: usize = 0;
    while i < values.len()
        invariant
            i <= values@.len(),
            wanted == values@.map_values(|v: (usize, bool)| relay_command(v)),
            parts@.len() == i,
            forall|j: int| 0 <= j < values@.len() ==> (#[trigger] values@[j]).0 < RELAY_COUNT,
            forall|j: int| 0 <= j < i ==> (#[trigger] parts@[j])@ == wanted[j],
        decreases values.len() - i,
    {
        let (relay, on) = values[i];
        assert(values@[i as int].0 < RELAY_COUNT);
        let mut part = numbered("power", relay as u64 + 1);
        if on {
            part.append(" on");
        } else {
            part.append(" off");
        }
        parts.push(part);
        i += 1;
    }
    assert(texts(parts@) =~= wanted);
    let commands = join(&parts, "; ");
    concatenated("backlog0; ", commands.as_str())
}

/// The values of the first `n` relays that somebody listens to.
pub open spec fn used_values(ports: Seq<PortView>, values: Seq<OutputValue>, n: int) -> Seq<
    (usize, bool),
>
    decreases n,
{
    if n <= 0 {
        Seq::empty()
    } else {
        let before = used_values(ports, values, n - 1);
        if ports[n - 1].events is Some {
            before.push(((n - 1) as usize, values[n - 1] != 0))
        } else {
            before
        }
    }
}

/// The values of all relays after some were set. All others count as off.
pub open spec fn relay_values(values: Seq<(usize, bool)>, count: nat) -> Seq<OutputValue>
    decreases values.len(),
{
    if values.len() == 0 {
        Seq::new(count, |i: int| LOW)
    } else {
        relay_values(values.drop_last(), count).update(
            values.last().0 as int,
            if values.last().1 {
                HIGH
            } else {
                LOW
            },
        )
    }
}

/// The board as a device.
#[derive(Debug)]
pub struct TasmotaRelayExpander {
    pub core: DeviceRWCore,
}

impl TasmotaRelayExpander {
    /// The device has all its ports.
    pub open spec fn wf(&self) -> bool {
        self.core.wf() && self.core.read_core@.len() == RELAY_COUNT
    }

    /// Creates the device. All relays are to be set once.
    pub fn new(alias: String) -> (device: Self)
        ensures
            device.wf(),
            device.core.read_core@ == Seq::new(
                RELAY_COUNT as nat,
                |i: int| PortView::fresh(InputValueType::Continuous),
            ),
            device.core.buffered_values@ == Seq::new(RELAY_COUNT as nat, |i: int| 0u16),
            device.core.scalings@ == Seq::new(
                RELAY_COUNT as nat,
                |i: int| ValueScaling::full_range(),
            ),
            device.core.dirty,
            device.core.last_error is None,
            device.core.read_core.alias_text() == alias@,
    {
        TasmotaRelayExpander {
            core: DeviceRWCore::new_dirty(alias, RELAY_COUNT, ValueScaling::default()),
        }
    }

    /// Takes the values that are to be sent to the board, if there are new ones: those of all
    /// relays that somebody listens to. Retrieves the error of previous updates.
    pub fn update(&mut self) -> (r: (Option<Vec<(usize, bool)>>, Result<(), String>))
        requires
            old(self).wf(),
        ensures
            final(self).wf(),
            final(self).core.read_core == old(self).core.read_core,
            final(self).core.buffered_values == old(self).core.buffered_values,
            final(self).core.scalings == old(self).core.scalings,
            !final(self).core.dirty,
            outcome(r.1) == retrieved(old(self).core.error_text()),
            final(self).core.last_error is None,
            match r.0 {
                Some(taken) => old(self).core.dirty && taken@ == used_values(
                    old(self).core.read_core@,
                    old(self).core.buffered_values@,
                    RELAY_COUNT as int,
                ),
                None => !old(self).core.dirty,
            },
    {
        let result = self.core.update();
        if !self.core.dirty {
            return (None, result);
        }
        self.core.dirty = false;
        let mut values: Vec<(usize, bool)> = Vec::new();
        let mut i: usize = 0;
        while i < RELAY_COUNT
            invariant
                i <= RELAY_COUNT,
                self.core.wf(),
                self.core.read_core@.len() == RELAY_COUNT,
                self.core.read_core == old(self).core.read_core,
                self.core.buffered_values == old(self).core.buffered_values,
                self.core.scalings == old(self).core.scalings,
                !self.core.dirty,
                self.core.last_error is None,
                values@ == used_values(
                    self.core.read_core@,
                    self.core.buffered_values@,
                    i as int,
                ),
            decreases RELAY_COUNT - i,
        {
            if self.core.read_core.is_set_up(i) {
                values.push((i, self.core.buffered_values[i] != 0));
            }
            i += 1;
        }
        (Some(values), result)
    }

    /// Puts the outcome of a request on the ports.
    pub fn finish_update(
        &mut self,
        new_values: &Vec<(usize, bool)>,
        result: Result<(), String>,
        ts: Timestamp,
    )
        requires
            old(self).wf(),
            forall|i: int|
                0 <= i < new_values@.len() ==> (#[trigger] new_values@[i]).0 < RELAY_COUNT,
        ensures
            final(self).wf(),
            final(self).core.buffered_values == old(self).core.buffered_values,
            final(self).core.scalings == old(self).core.scalings,
            final(self).core.read_core.alias_text() == old(self).core.read_core.alias_text(),
            match result {
                Ok(_) => {
                    &&& final(self).core.read_core@ == values_written(
                        old(self).core.read_core@,
                        relay_values(new_values@, RELAY_COUNT as nat),
                        ts,
                        false,
                        false,
                    )
                    &&& final(self).core.dirty == old(self).core.dirty
                    &&& final(self).core.error_text() == old(self).core.error_text()
                },
                Err(message) => {
                    &&& final(self).core.read_core@ == all_updated(
                        old(self).core.read_core@,
                        ts,
                        Err(message@),
                        true,
                        false,
                    )
                    &&& final(self).core.dirty
                    &&& final(self).core.error_text() == Some(message@)
                },
            },
    {
        let message: Option<String> = match result {
            Ok(()) => None,
            Err(message) => Some(message),
        };
        if let Some(message) = message {
            self.core.finish_update(Err(message), ts, false, false);
            return;
        }
        let mut values: Vec<OutputValue> = Vec::new();
        let mut i: usize = 0;
        while i < RELAY_COUNT
            invariant
                i <= RELAY_COUNT,
                values@ == Seq::new(i as nat, |j: int| LOW),
            decreases RELAY_COUNT - i,
        {
            values.push(LOW);
            i += 1;
            assert(values@ =~= Seq::new(i as nat, |j: int| LOW));
        }
        let mut k: usize = 0;
        assert(new_values@.take(0) =~= Seq::<(usize, bool)>::empty());
        while k < new_values.len()
            invariant
                k <= new_values@.len(),
                forall|j: int|
                    0 <= j < new_values@.len() ==> (#[trigger] new_values@[j]).0 < RELAY_COUNT,
                values@.len() == RELAY_COUNT,
                values@ == relay_values(new_values@.take(k as int), RELAY_COUNT as nat),
            decreases new_values.len() - k,
        {
            let (relay, on) = new_values[k];
            assert(new_values@[k as int].0 < RELAY_COUNT);
            values[relay] = if on { HIGH } else { LOW };
            proof {
                assert(new_values@.take(k + 1).drop_last() =~= new_values@.take(k as int));
                assert(new_values@.take(k + 1).last() == new_values@[k as int]);
            }
            k += 1;
        }
        assert(new_values@.take(k as int) =~= new_values@);
        self.core.finish_update(Ok(values), ts, false, false);
    }

    /// The generic alias of a port.
    pub fn port_alias(port: u8) -> (result: Result<String, String>)
        ensures
            match result {
                Ok(alias) => port < RELAY_COUNT && alias@ == decimal(port as nat),
                Err(message) => port >= RELAY_COUNT && message@
                    == "TasmotaRelayExpander has 13 ports only"@,
            },
    {
        if port as usize >= RELAY_COUNT {
            return Err("TasmotaRelayExpander has 13 ports only".to_owned());
        }
        proof {
            reveal_strlit("");
            assert(""@ + decimal(port as nat) =~= decimal(port as nat));
        }
        Ok(numbered("", port as u64))
    }

    /// Starts to listen to an output, and sets its scaling, if one is given.
    pub fn get_output_port(&mut self, port: u8, scaling: Option<ValueScaling>) -> (result: Result<
        (),
        String,
    >)
        requires
            old(self).wf(),
            port < RELAY_COUNT ==> old(self).core.read_core@[port as int].events is None,
        ensures
            final(self).wf(),
            final(self).core.buffered_values == old(self).core.buffered_values,
            final(self).core.dirty == old(self).core.dirty,
            final(self).core.last_error == old(self).core.last_error,
            final(self).core.read_core.alias_text() == old(self).core.read_core.alias_text(),
            port < RELAY_COUNT ==> {
                &&& result is Ok
                &&& final(self).core.read_core@ == old(self).core.read_core@.update(
                    port as int,
                    old(self).core.read_core@[port as int].listened_to(),
                )
                &&& final(self).core.scalings@ == (match scaling {
                    Some(s) => old(self).core.scalings@.update(port as int, s),
                    None => old(self).core.scalings@,
                })
            },
            port >= RELAY_COUNT ==> {
                &&& outcome(result) == Err::<(), Seq<char>>(
                    "TasmotaRelayExpander has 13 ports only"@,
                )
                &&& final(self).core == old(self).core
            },
    {
        if port as usize >= RELAY_COUNT {
            return Err("TasmotaRelayExpander has 13 ports only".to_owned());
        }
        self.core.get_output_port(port, scaling)
    }
}

/// What is sent to the board are values of relays that somebody listens to, in their order, each
/// of them once.
pub proof fn law_used_values_are_in_order(ports: Seq<PortView>, values: Seq<OutputValue>, n: int)
    requires
        0 <= n <= usize::MAX,
    ensures
        used_values(ports, values, n).len() <= (if n > 0 {
            n
        } else {
            0
        }),
        forall|i: int|
            0 <= i < used_values(ports, values, n).len() ==> {
                let used = #[trigger] used_values(ports, values, n)[i];
                &&& used.0 < n
                &&& ports[used.0 as int].events is Some
                &&& used.1 == (values[used.0 as int] != 0)
            },
        forall|i: int, j: int|
            0 <= i < j < used_values(ports, values, n).len() ==> (#[trigger] used_values(
                ports,
                values,
                n,
            )[i]).0 < (#[trigger] used_values(ports, values, n)[j]).0,
    decreases n,
{
    if n > 0 {
        law_used_values_are_in_order(ports, values, n - 1);
    }
}

/// A command tells the relays in their order, numbered from 1, each with what it is set to. All of
/// it is one command to the board.
pub proof fn law_commands_of_relays(values: Seq<(usize, bool)>, relay: usize, on: bool)
    ensures
        backlog_command(seq![(relay, on)]) == "backlog0; "@ + ("power"@ + decimal(
            (relay + 1) as nat,
        ) + (if on {
            " on"@
        } else {
            " off"@
        })),
        values.len() > 0 ==> backlog_command(values.push((relay, on))) == backlog_command(values)
            + "; "@ + ("power"@ + decimal((relay + 1) as nat) + (if on {
            " on"@
        } else {
            " off"@
        })),
{
    let commands = |values: Seq<(usize, bool)>|
        values.map_values(|v: (usize, bool)| relay_command(v));
    let one = commands(seq![(relay, on)]);
    assert(one =~= seq![relay_command((relay, on))]);
    if values.len() > 0 {
        law_joined_in_order(commands(values), one, "; "@);
        assert(commands(values.push((relay, on))) =~= commands(values) + one);
        assert(backlog_command(values.push((relay, on))) =~= backlog_command(values) + "; "@
            + relay_command((relay, on)));
    }
}

/// Every relay that somebody listens to is sent to the board.
pub proof fn law_used_values_are_complete(
    ports: Seq<PortView>,
    values: Seq<OutputValue>,
    n: int,
    relay: int,
)
    requires
        0 <= relay < n <= usize::MAX,
        ports[relay].events is Some,
    ensures
        used_values(ports, values, n).contains((relay as usize, values[relay] != 0)),
    decreases n,
{
    let used = used_values(ports, values, n);
    let wanted = (relay as usize, values[relay] != 0);
    if relay == n - 1 {
        assert(used.last() == wanted);
    } else {
        law_used_values_are_complete(ports, values, n - 1, relay);
        let before = used_values(ports, values, n - 1);
        let i = choose|i: int| 0 <= i < before.len() && before[i] == wanted;
        assert(used[i] == wanted);
    }
}

/// What was sent to the board is what its ports show: relays that are on have the highest value,
/// those that are off zero. Relays that nobody listens to show zero.
pub proof fn law_sent_values_are_shown(
    ports: Seq<PortView>,
    values: Seq<OutputValue>,
    n: int,
    count: nat,
    relay: int,
)
    requires
        0 <= n <= count <= usize::MAX,
        0 <= relay < count,
    ensures
        relay_values(used_values(ports, values, n), count).len() == count,
        relay_values(used_values(ports, values, n), count)[relay] == (if relay < n
            && ports[relay].events is Some && values[relay] > 0 {
            65535u16
        } else {
            0
        }),
    decreases n,
{
    if n > 0 {
        law_sent_values_are_shown(ports, values, n - 1, count, relay);
        let used = used_values(ports, values, n);
        if ports[n - 1].events is Some {
            assert(used.drop_last() =~= used_values(ports, values, n - 1));
        }
    }
}

} // verus!
