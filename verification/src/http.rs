//! Requests that set outputs.
use vstd::prelude::*;

use crate::failure::{failed, law_report_of_one_cause, report_of, within, Failure};
use crate::text::{
    concatenated, decimal, join, joined, law_decimal_reads_back, quoted, quoted_text, texts,
};
use crate::universe::{
    errors_kept, errors_retrieved, lemma_changes_add_up, lemma_one_more_value, lemma_same_failures,
    only_outputs_changed, outputs_views, port_at, to_notify, update_failures, with_value,
    UniverseState, Updates,
};
use crate::mapping::OutputsView;
use crate::value::{outcome, Address, OutputValue};

verus! {

/// What a value is to be set for.
#[derive(Debug)]
pub enum SetRequestTarget {
    Address(Address),
    Alias(String),
}

/// A value that is to be set.
#[derive(Debug)]
pub struct SetRequest {
    pub target: SetRequestTarget,
    pub value: OutputValue,
}

/// The HTTP status of a request that succeeded.
pub const STATUS_OK: u16 = 200;

/// The HTTP status of a request that cannot be fulfilled.
pub const STATUS_BAD_REQUEST: u16 = 400;

/// The outputs after the first `n` requests.
pub open spec fn requests_applied(
    universe: UniverseState,
    requests: Seq<SetRequest>,
    n: int,
) -> Seq<
    OutputsView,
>
    decreases n,
{
    if n <= 0 {
        outputs_views(universe)
    } else {
        let before = requests_applied(universe, requests, n - 1);
        match requests[n - 1].target {
            SetRequestTarget::Address(address) => with_value(
                universe,
                before,
                address,
                requests[n - 1].value,
            ),
            SetRequestTarget::Alias(_) => before,
        }
    }
}

/// What went wrong with the first `n` requests.
pub open spec fn request_failures(
    universe: UniverseState,
    requests: Seq<SetRequest>,
    n: int,
) -> Seq<
    Seq<char>,
>
    decreases n,
{
    if n <= 0 {
        Seq::empty()
    } else {
        let before = request_failures(universe, requests, n - 1);
        match requests[n - 1].target {
            SetRequestTarget::Address(address) => if universe.is_output_address(address) {
                before
            } else {
                before.push(
                    report_of(
                        within(
                            "unable to set address"@,
                            failed("invalid address: "@ + decimal(address as nat)),
                        ),
                    ),
                )
            },
            SetRequestTarget::Alias(_) => before,
        }
    }
}

/// The number of requests before the first one for an alias.
pub open spec fn requests_before_alias(requests: Seq<SetRequest>) -> int
    decreases requests.len(),
{
    if requests.len() == 0 {
        0
    } else if requests[0].target is Alias {
        0
    } else {
        1 + requests_before_alias(requests.drop_first())
    }
}

proof fn lemma_before_alias(requests: Seq<SetRequest>, k: int)
    requires
        0 <= k <= requests.len(),
        forall|j: int| 0 <= j < k ==> (#[trigger] requests[j]).target is Address,
        k < requests.len() ==> requests[k].target is Alias,
    ensures
        requests_before_alias(requests) == k,
    decreases requests.len(),
{
    if requests.len() > 0 && k > 0 {
        assert(requests[0].target is Address);
        let rest = requests.drop_first();
        assert forall|j: int| 0 <= j < k - 1 implies (#[trigger] rest[j]).target is Address by {
            assert(rest[j] == requests[j + 1]);
        }
        lemma_before_alias(rest, k - 1);
    }
}

/// Sets values. Addresses that are not those of outputs are skipped and reported. A request for an
/// alias, which is not supported, ends it: what comes before it has been set, but no update is
/// triggered.
///
/// Yields the result, and what is to be done after the update.
pub fn handle_set_requests(state: &mut UniverseState, set_requests: &Vec<SetRequest>) -> (outcomes:
    (Result<(), String>, Updates))
    requires
        old(state).wf(),
    ensures
        final(state).wf(),
        only_outputs_changed(*old(state), *final(state)),
        ({
            let n = requests_before_alias(set_requests@);
            let failures = request_failures(*old(state), set_requests@, n);
            let applied = requests_applied(*old(state), set_requests@, n);
            if n < set_requests@.len() {
                &&& outputs_views(*final(state)) == applied
                &&& outcome(outcomes.0) == Err::<(), Seq<char>>(
                    "alias targets not supported at the moment"@,
                )
                &&& outcomes.1.notify@.len() == 0
                &&& outcomes.1.failures@.len() == 0
            } else {
                &&& outputs_views(*final(state)) == errors_retrieved(applied)
                &&& outcome(outcomes.0) == (if failures.len() == 0 {
                    Ok(())
                } else {
                    Err(
                        "unable to set one or more outputs: "@ + quoted_text(
                            joined(failures, "; "@),
                        ),
                    )
                })
                &&& outcomes.1.notify@ == to_notify(
                    final(state).devices@,
                    final(state).devices@.len() as int,
                )
                &&& texts(outcomes.1.failures@) == update_failures(
                    old(state).devices@,
                    old(state).devices@.len() as int,
                )
            }
        }),
{
    let ghost start = *state;
    let mut failures: Vec<String> = Vec::new();
    let mut i: usize = 0;
    assert(texts(failures@) =~= Seq::<Seq<char>>::empty());
    while i < set_requests.len()
        invariant
            i <= set_requests@.len(),
            start == *old(state),
            start.wf(),
            state.wf(),
            only_outputs_changed(start, *state),
            errors_kept(start, *state),
            outputs_views(*state) == requests_applied(start, set_requests@, i as int),
            texts(failures@) == request_failures(start, set_requests@, i as int),
            forall|j: int| 0 <= j < i ==> (#[trigger] set_requests@[j]).target is Address,
        decreases set_requests.len() - i,
    {
        match &set_requests[i].target {
            SetRequestTarget::Address(address) => {
                let ghost before = *state;
                match state.set_address(*address, set_requests[i].value) {
                    Ok(()) => {},
                    Err(message) => {
                        let failure = Failure::new(message).within("unable to set address").report();
                        let ghost text = failure@;
                        let ghost known = texts(failures@);
                        failures.push(failure);
                        assert(texts(failures@) =~= known.push(text));
                    },
                }
                proof {
                    lemma_one_more_value(
                        start,
                        before,
                        *state,
                        *address,
                        set_requests@[i as int].value,
                    );
                }
            },
            SetRequestTarget::Alias(_) => {
                proof {
                    lemma_before_alias(set_requests@, i as int);
                }
                return (
                    Err("alias targets not supported at the moment".to_owned()),
                    Updates { notify: Vec::new(), failures: Vec::new() },
                );
            },
        }
        i += 1;
    }
    proof {
        lemma_before_alias(set_requests@, i as int);
        lemma_same_failures(start, *state, start.devices@.len() as int);
    }
    let ghost middle = *state;
    let (updated, updates) = state.update();
    proof {
        lemma_changes_add_up(start, middle, *state);
    }
    match updated {
        Ok(()) => {},
        Err(message) => {
            failures.push(Failure::new(message).within("unable to update hardware").report());
        },
    }
    if failures.len() == 0 {
        return (Ok(()), updates);
    }
    let all = join(&failures, "; ");
    let text = quoted(all.as_str());
    (Err(concatenated("unable to set one or more outputs: ", text.as_str())), updates)
}

/// The HTTP status for the result of a request that set values.
pub fn set_status(result: &Result<(), String>) -> (status: u16)
    ensures
        status == (if result is Ok {
            STATUS_OK
        } else {
            STATUS_BAD_REQUEST
        }),
{
    match result {
        Ok(_) => STATUS_OK,
        Err(_) => STATUS_BAD_REQUEST,
    }
}

/// Whether an HTTP status stands for success.
pub open spec fn is_success(status: u16) -> bool {
    200 <= status < 300
}

/// The HTTP status for the response to a request. An error must not have a status that stands for
/// success.
pub fn result_to_response(result: Result<u16, u16>) -> (status: u16)
    requires
        result matches Err(status) ==> !is_success(status),
    ensures
        status == (match result {
            Ok(status) => status,
            Err(status) => status,
        }),
        result is Err ==> !is_success(status),
{
    match result {
        Ok(status) => status,
        Err(status) => status,
    }
}

/// The value that requests set for an address last.
pub open spec fn last_requested(
    requests: Seq<SetRequest>,
    n: int,
    address: Address,
    default: OutputValue,
) -> OutputValue
    decreases n,
{
    if n <= 0 {
        default
    } else {
        match requests[n - 1].target {
            SetRequestTarget::Address(target) => if target == address {
                requests[n - 1].value
            } else {
                last_requested(requests, n - 1, address, default)
            },
            SetRequestTarget::Alias(_) => last_requested(requests, n - 1, address, default),
        }
    }
}

/// Of several requests for the same address the last one wins. An output that nobody asked for
/// keeps its value.
pub proof fn law_last_request_wins(
    universe: UniverseState,
    requests: Seq<SetRequest>,
    n: int,
    address: Address,
)
    requires
        universe.wf(),
        universe.is_output_address(address),
        0 <= n <= requests.len(),
    ensures
        ({
            let route = universe.route(address);
            let port = port_at(universe.devices@, route).port as int;
            requests_applied(universe, requests, n)[route.device as int].values[port]
                == last_requested(requests, n, address, universe.buffered(address))
        }),
    decreases n,
{
    lemma_applied_shape(universe, requests, n);
    if n > 0 {
        law_last_request_wins(universe, requests, n - 1, address);
        lemma_applied_shape(universe, requests, n - 1);
        let route = universe.route_seq()[address - 1];
        let state = universe.devices@[route.device as int];
        assert(crate::universe::leads_to_port(universe.devices@, route));
        assert(port_at(universe.devices@, route).address == address);
        assert(state.wf());
        assert(state.device.kind().is_output(state.output_ports@[route.index as int].port.port));
        match requests[n - 1].target {
            SetRequestTarget::Address(target) => {
                if universe.is_output_address(target) {
                    let other = universe.route_seq()[target - 1];
                    assert(crate::universe::leads_to_port(universe.devices@, other));
                    assert(port_at(universe.devices@, other).address == target);
                    if target != address && other.device == route.device {
                        assert(other.index != route.index);
                        let a = state.output_ports@[other.index as int].port.port;
                        let b = state.output_ports@[route.index as int].port.port;
                        if other.index < route.index {
                            assert(a != b);
                        } else {
                            assert(b != a);
                        }
                        assert(state.device.kind().is_output(a));
                    }
                }
            },
            SetRequestTarget::Alias(_) => {},
        }
    }
}

proof fn lemma_applied_shape(universe: UniverseState, requests: Seq<SetRequest>, n: int)
    requires
        universe.wf(),
        0 <= n <= requests.len(),
    ensures
        requests_applied(universe, requests, n).len() == universe.devices@.len(),
        forall|d: int|
            0 <= d < universe.devices@.len() ==> (#[trigger] requests_applied(
                universe,
                requests,
                n,
            )[d]).values.len() == outputs_views(universe)[d].values.len(),
    decreases n,
{
    if n > 0 {
        lemma_applied_shape(universe, requests, n - 1);
    }
}

/// What a client is told of an address that is not that of an output.
pub open spec fn invalid_address_report(address: Address) -> Seq<char> {
    "unable to set address"@ + "\n\nCaused by:"@ + "\n    "@ + ("invalid address: "@ + decimal(
        address as nat,
    ))
}

/// An address that is not that of an output is told with what was tried.
pub proof fn law_report_of_an_invalid_address(address: Address)
    ensures
        report_of(
            within(
                "unable to set address"@,
                failed("invalid address: "@ + decimal(address as nat)),
            ),
        ) == invalid_address_report(address),
{
    let cause = "invalid address: "@ + decimal(address as nat);
    reveal_strlit("invalid address: ");
    law_decimal_reads_back(address as nat);
    assert(!cause.contains('\n')) by {
        if cause.contains('\n') {
            let i = choose|i: int| 0 <= i < cause.len() && cause[i] == '\n';
            if i < 17 {
                assert("invalid address: "@[i] != '\n');
            } else {
                assert(decimal(address as nat)[i - 17] == '\n');
            }
        }
    }
    law_report_of_one_cause("unable to set address"@, cause);
}

/// Every request for an address that is not that of an output is reported, with that address, and
/// nothing is reported without such a request.
pub proof fn law_invalid_addresses_are_reported(
    universe: UniverseState,
    requests: Seq<SetRequest>,
    n: int,
    k: int,
)
    requires
        0 <= k < n <= requests.len(),
    ensures
        (requests[k].target matches SetRequestTarget::Address(address)
            && !universe.is_output_address(address)) ==> request_failures(
            universe,
            requests,
            n,
        ).contains(invalid_address_report(requests[k].target->Address_0)),
        request_failures(universe, requests, n).len() <= n,
        request_failures(universe, requests, n).len() == 0 <==> forall|j: int|
            0 <= j < n ==> match (#[trigger] requests[j]).target {
                SetRequestTarget::Address(address) => universe.is_output_address(address),
                SetRequestTarget::Alias(_) => true,
            },
    decreases n,
{
    let failures = request_failures(universe, requests, n);
    let before = request_failures(universe, requests, n - 1);
    if n > 1 {
        law_invalid_addresses_are_reported(universe, requests, n - 1, if k < n - 1 {
            k
        } else {
            0
        });
    } else {
        assert(before =~= Seq::<Seq<char>>::empty());
    }
    match requests[n - 1].target {
        SetRequestTarget::Address(address) => {
            if !universe.is_output_address(address) {
                law_report_of_an_invalid_address(address);
                assert(failures.last() == invalid_address_report(address));
                if k < n - 1 && requests[k].target is Address {
                    let wanted = invalid_address_report(requests[k].target->Address_0);
                    if before.contains(wanted) {
                        let i = choose|i: int| 0 <= i < before.len() && before[i] == wanted;
                        assert(failures[i] == wanted);
                    }
                }
            }
        },
        SetRequestTarget::Alias(_) => {},
    }
    if failures.len() == 0 {
        assert forall|j: int| 0 <= j < n implies match (#[trigger] requests[j]).target {
            SetRequestTarget::Address(address) => universe.is_output_address(address),
            SetRequestTarget::Alias(_) => true,
        } by {}
    } else if before.len() == 0 {
        assert(requests[n - 1].target is Address);
    }
}

/// Invalid addresses are reported in the order of requests.
pub proof fn law_reports_in_the_order_of_requests(
    universe: UniverseState,
    requests: Seq<SetRequest>,
    n: int,
    i: int,
    j: int,
) -> (reported: (int, int))
    requires
        0 <= n <= requests.len(),
        0 <= i < j < request_failures(universe, requests, n).len(),
    ensures
        0 <= reported.0 < reported.1 < n,
        requests[reported.0].target matches SetRequestTarget::Address(address)
            && !universe.is_output_address(address) && request_failures(universe, requests, n)[i]
            == invalid_address_report(address),
        requests[reported.1].target matches SetRequestTarget::Address(address)
            && !universe.is_output_address(address) && request_failures(universe, requests, n)[j]
            == invalid_address_report(address),
    decreases n,
{
    let before = request_failures(universe, requests, n - 1);
    if j < before.len() {
        law_reports_in_the_order_of_requests(universe, requests, n - 1, i, j)
    } else {
        law_report_of_an_invalid_address(requests[n - 1].target->Address_0);
        let first = lemma_reported_request(universe, requests, n - 1, i);
        (first, n - 1)
    }
}

proof fn lemma_reported_request(
    universe: UniverseState,
    requests: Seq<SetRequest>,
    n: int,
    i: int,
) -> (k: int)
    requires
        0 <= n <= requests.len(),
        0 <= i < request_failures(universe, requests, n).len(),
    ensures
        0 <= k < n,
        requests[k].target matches SetRequestTarget::Address(address)
            && !universe.is_output_address(address) && request_failures(universe, requests, n)[i]
            == invalid_address_report(address),
    decreases n,
{
    if i < request_failures(universe, requests, n - 1).len() {
        lemma_reported_request(universe, requests, n - 1, i)
    } else {
        law_report_of_an_invalid_address(requests[n - 1].target->Address_0);
        n - 1
    }
}

/// Requests are handled up to the first one for an alias.
pub proof fn law_alias_ends_it(requests: Seq<SetRequest>)
    ensures
        ({
            let n = requests_before_alias(requests);
            &&& 0 <= n <= requests.len()
            &&& forall|j: int| 0 <= j < n ==> (#[trigger] requests[j]).target is Address
            &&& n < requests.len() ==> requests[n].target is Alias
        }),
    decreases requests.len(),
{
    if requests.len() > 0 && !(requests[0].target is Alias) {
        let rest = requests.drop_first();
        law_alias_ends_it(rest);
        let n = requests_before_alias(requests);
        assert forall|j: int| 0 <= j < n implies (#[trigger] requests[j]).target is Address by {
            if j > 0 {
                assert(rest[j - 1] == requests[j]);
            }
        }
        if n < requests.len() {
            assert(rest[n - 1] == requests[n]);
        }
    }
}

} // verus!
