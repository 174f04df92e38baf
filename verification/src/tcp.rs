//! Connections of clients, which send requests and get events.
use vstd::prelude::*;

use crate::failure::{failed, report_of, within, Failure};
use crate::http::{
    invalid_address_report, last_requested, law_last_request_wins,
    law_report_of_an_invalid_address, requests_applied, SetRequest, SetRequestTarget,
};
use crate::mapping::OutputsView;
use crate::text::{decimal, numbered, texts};
use crate::universe::{
    errors_kept, errors_retrieved, lemma_changes_add_up, lemma_one_more_value,
    lemma_same_failures, only_outputs_changed, outputs_views, port_at, to_notify,
    update_failures, with_value, UniverseState, Updates,
};
use crate::value::{outcome, Address, OutputValue, Timestamp};

verus! {

/// The highest number of events that are sent to a client at once.
pub const EVENT_CHUNK_SIZE: usize = 10;

/// A value that is to be set at an address.
#[derive(Clone, Copy, Debug, PartialEq, Eq, Structural)]
pub struct AddressRequest {
    pub address: Address,
    pub value: OutputValue,
}

/// The outputs after the first `n` requests.
pub open spec fn address_requests_applied(
    universe: UniverseState,
    requests: Seq<AddressRequest>,
    n: int,
) -> Seq<OutputsView>
    decreases n,
{
    if n <= 0 {
        outputs_views(universe)
    } else {
        with_value(
            universe,
            address_requests_applied(universe, requests, n - 1),
            requests[n - 1].address,
            requests[n - 1].value,
        )
    }
}

/// Whether request `k` is the first one for an address that is not that of an output.
pub open spec fn is_first_invalid(
    universe: UniverseState,
    requests: Seq<AddressRequest>,
    k: int,
) -> bool {
    &&& 0 <= k < requests.len()
    &&& !universe.is_output_address(requests[k].address)
    &&& forall|j: int|
        0 <= j < k ==> universe.is_output_address((#[trigger] requests[j]).address)
}

/// What a request to set values leads to.
pub open spec fn values_set(
    before: UniverseState,
    reqs: Seq<AddressRequest>,
    after: UniverseState,
    result: Result<(), Seq<char>>,
    updates: Updates,
) -> bool {
    if forall|j: int| 0 <= j < reqs.len() ==> before.is_output_address((#[trigger] reqs[j]).address)
    {
        &&& outputs_views(after) == errors_retrieved(
            address_requests_applied(before, reqs, reqs.len() as int),
        )
        &&& updates.notify@ == to_notify(after.devices@, after.devices@.len() as int)
        &&& texts(updates.failures@) == update_failures(
            before.devices@,
            before.devices@.len() as int,
        )
        &&& result == Ok::<(), Seq<char>>(())
    } else {
        &&& exists|k: int| #[trigger]
            is_first_invalid(before, reqs, k) && result == Err::<(), Seq<char>>(
                report_of(
                    within(
                        "unable to set address"@,
                        failed("invalid address: "@ + decimal(reqs[k].address as nat)),
                    ),
                ),
            ) && outputs_views(after) == address_requests_applied(before, reqs, k)
        &&& updates.notify@.len() == 0
        &&& updates.failures@.len() == 0
    }
}

/// Sets values. The first address that is not that of an output ends it: what comes before it has
/// been set, but no update is triggered.
///
/// Yields the result, and what is to be done after the update.
pub fn handle_set_request(state: &mut UniverseState, reqs: &Vec<AddressRequest>) -> (outcomes: (
    Result<(), String>,
    Updates,
))
    requires
        old(state).wf(),
    ensures
        final(state).wf(),
        only_outputs_changed(*old(state), *final(state)),
        values_set(*old(state), reqs@, *final(state), outcome(outcomes.0), outcomes.1),
{
    let ghost start = *state;
    let mut i: usize = 0;
    while i < reqs.len()
        invariant
            i <= reqs@.len(),
            start == *old(state),
            start.wf(),
            state.wf(),
            only_outputs_changed(start, *state),
            errors_kept(start, *state),
            outputs_views(*state) == address_requests_applied(start, reqs@, i as int),
            forall|j: int|
                0 <= j < i ==> start.is_output_address((#[trigger] reqs@[j]).address),
        decreases reqs.len() - i,
    {
        let req: AddressRequest = reqs[i];
        let ghost before = *state;
        let set = state.set_address(req.address, req.value);
        proof {
            lemma_one_more_value(start, before, *state, req.address, req.value);
        }
        match set {
            Ok(()) => {},
            Err(message) => {
                assert(is_first_invalid(start, reqs@, i as int));
                assert(!start.is_output_address(reqs@[i as int].address));
                return (
                    Err(Failure::new(message).within("unable to set address").report()),
                    Updates { notify: Vec::new(), failures: Vec::new() },
                );
            },
        }
        i += 1;
    }
    let ghost middle = *state;
    proof {
        lemma_same_failures(start, middle, start.devices@.len() as int);
    }
    let (updated, updates) = state.update();
    proof {
        lemma_changes_add_up(start, middle, *state);
    }
    match updated {
        Ok(()) => (Ok(()), updates),
        Err(message) => (
            Err(Failure::new(message).within("unable to update hardware").report()),
            updates,
        ),
    }
}

/// What a client can ask for.
#[derive(Debug)]
pub enum APIRequest<F> {
    SystemTime,
    Ping,
    SetValues(Vec<AddressRequest>),
    Subscribe { address: Address, filter: F },
}

/// A message of a client.
#[derive(Debug)]
pub enum Message<F> {
    Version,
    Events,
    Response,
    Config,
    Request { id: u64, inner: APIRequest<F> },
}

/// What is done about a message.
#[derive(Debug)]
pub enum MessageStep<F> {
    /// The request is handled, and answered under the same number.
    Handle { id: u64, request: APIRequest<F> },
    /// The connection is closed: clients send nothing but requests.
    ShutDown,
}

/// Decides what is done about a message.
pub fn handle_incoming_message<F>(message: Message<F>) -> (step: MessageStep<F>)
    ensures
        step == (match message {
            Message::Request { id, inner } => MessageStep::Handle { id, request: inner },
            _ => MessageStep::ShutDown,
        }),
{
    match message {
        Message::Request { id, inner } => MessageStep::Handle { id, request: inner },
        _ => MessageStep::ShutDown,
    }
}

/// The events that a client has subscribed to: for each address the filter, if there is one.
#[derive(Debug)]
pub struct Subscriptions<F> {
    pub filters: Vec<Option<F>>,
}

impl<F> Subscriptions<F> {
    /// Whether there is an address.
    pub open spec fn has_address(&self, address: Address) -> bool {
        1 <= address <= self.filters@.len()
    }

    /// Creates the subscriptions for all addresses of a universe. There are none yet.
    pub fn new(universe: &UniverseState) -> (subscriptions: Self)
        ensures
            subscriptions.filters@ == Seq::new(universe.port_count(), |i: int| None::<F>),
            forall|address: Address| #[trigger]
                subscriptions.has_address(address) == universe.has_address(address),
    {
        let mut filters: Vec<Option<F>> = Vec::new();
        let mut i: usize = 0;
        while i < universe.routes.len()
            invariant
                i <= universe.routes@.len(),
                filters@ == Seq::new(i as nat, |j: int| None::<F>),
            decreases universe.routes.len() - i,
        {
            filters.push(None);
            i += 1;
            assert(filters@ =~= Seq::new(i as nat, |j: int| None::<F>));
        }
        Subscriptions { filters }
    }

    /// Subscribes to the events of an address; a filter that was there is replaced. Yields whether
    /// there was none, such that somebody has to start to look at the events.
    pub fn handle_subscription_request(&mut self, address: Address, filter: F) -> (result: Result<
        bool,
        String,
    >)
        ensures
            old(self).has_address(address) ==> {
                &&& result == Ok::<bool, String>(old(self).filters@[address - 1] is None)
                &&& final(self).filters@ == old(self).filters@.update(address - 1, Some(filter))
            },
            !old(self).has_address(address) ==> {
                &&& outcome(result) == Err::<bool, Seq<char>>(
                    "invalid address: "@ + decimal(address as nat),
                )
                &&& final(self).filters@ == old(self).filters@
            },
    {
        if address == 0 || address as usize > self.filters.len() {
            return Err(numbered("invalid address: ", address as u64));
        }
        let index: usize = address as usize - 1;
        let was_empty: bool = self.filters[index].is_none();
        self.filters[index] = Some(filter);
        Ok(was_empty)
    }
}

/// The answer to a request.
#[derive(Clone, Copy, Debug, PartialEq, Eq, Structural)]
pub enum APIResult {
    SystemTime(Timestamp),
    Ping,
    ValuesSet,
    Subscribed,
}

/// What a request leads to: an answer, what is to be done after an update, and maybe an address
/// whose events somebody has to start to look at.
#[derive(Debug)]
pub struct RequestOutcome {
    pub result: Result<APIResult, String>,
    pub updates: Updates,
    pub watch: Option<Address>,
}

/// Handles a request. `now` is the answer to a request for the time.
pub fn handle_request<F>(
    state: &mut UniverseState,
    subscriptions: &mut Subscriptions<F>,
    request: APIRequest<F>,
    now: Timestamp,
) -> (handled: RequestOutcome)
    requires
        old(state).wf(),
    ensures
        final(state).wf(),
        only_outputs_changed(*old(state), *final(state)),
        !(request is SetValues) ==> *final(state) == *old(state)
            && handled.updates.notify@.len() == 0 && handled.updates.failures@.len() == 0,
        !(request is Subscribe) ==> *final(subscriptions) == *old(subscriptions)
            && handled.watch is None,
        match request {
            APIRequest::SystemTime => handled.result == Ok::<APIResult, String>(
                APIResult::SystemTime(now),
            ),
            APIRequest::Ping => handled.result == Ok::<APIResult, String>(APIResult::Ping),
            APIRequest::SetValues(reqs) => {
                &&& handled.result matches Ok(answer) ==> answer == APIResult::ValuesSet
                &&& values_set(
                    *old(state),
                    reqs@,
                    *final(state),
                    match handled.result {
                        Ok(_) => Ok(()),
                        Err(message) => Err(message@),
                    },
                    handled.updates,
                )
            },
            APIRequest::Subscribe { address, filter } => if old(subscriptions).has_address(
                address,
            ) {
                &&& handled.result == Ok::<APIResult, String>(APIResult::Subscribed)
                &&& handled.watch == (if old(subscriptions).filters@[address - 1] is None {
                    Some(address)
                } else {
                    None
                })
                &&& final(subscriptions).filters@ == old(subscriptions).filters@.update(
                    address - 1,
                    Some(filter),
                )
            } else {
                &&& outcome(handled.result) == Err::<APIResult, Seq<char>>(
                    "invalid address: "@ + decimal(address as nat),
                )
                &&& handled.watch is None
                &&& final(subscriptions).filters@ == old(subscriptions).filters@
            },
        },
{
    match request {
        APIRequest::SystemTime => RequestOutcome {
            result: Ok(APIResult::SystemTime(now)),
            updates: Updates { notify: Vec::new(), failures: Vec::new() },
            watch: None,
        },
        APIRequest::Ping => RequestOutcome {
            result: Ok(APIResult::Ping),
            updates: Updates { notify: Vec::new(), failures: Vec::new() },
            watch: None,
        },
        APIRequest::SetValues(reqs) => match handle_set_request(state, &reqs) {
            (Ok(()), updates) => RequestOutcome {
                result: Ok(APIResult::ValuesSet),
                updates,
                watch: None,
            },
            (Err(message), updates) => RequestOutcome {
                result: Err(message),
                updates,
                watch: None,
            },
        },
        APIRequest::Subscribe { address, filter } => {
            match subscriptions.handle_subscription_request(address, filter) {
                Ok(was_empty) => RequestOutcome {
                    result: Ok(APIResult::Subscribed),
                    updates: Updates { notify: Vec::new(), failures: Vec::new() },
                    watch: if was_empty { Some(address) } else { None },
                },
                Err(message) => RequestOutcome {
                    result: Err(message),
                    updates: Updates { notify: Vec::new(), failures: Vec::new() },
                    watch: None,
                },
            }
        },
    }
}

/// What somebody who looks at the events of an address has received.
#[derive(Clone, Copy, Debug, PartialEq, Eq, Structural)]
pub enum Received {
    /// An event; tells whether there is still a filter, and whether it matches.
    Event { filter: Option<bool> },
    /// Some events were missed.
    Lagged(u64),
    /// There will be no more events.
    Closed,
}

/// What is done about it.
#[derive(Clone, Copy, Debug, PartialEq, Eq, Structural)]
pub enum EventStep {
    /// The event is sent to the client.
    Send,
    /// The event is skipped.
    Skip,
    /// So many events are counted as dropped.
    CountDropped(u64),
    /// Nobody looks at the events of the address any more.
    ShutDown,
}

/// Decides what is done about a received event.
pub fn event_step(received: Received) -> (step: EventStep)
    ensures
        step == (match received {
            Received::Event { filter: Some(true) } => EventStep::Send,
            Received::Event { filter: Some(false) } => EventStep::Skip,
            Received::Event { filter: None } => EventStep::ShutDown,
            Received::Lagged(count) => EventStep::CountDropped(count),
            Received::Closed => EventStep::ShutDown,
        }),
{
    match received {
        Received::Event { filter: Some(matched) } => if matched {
            EventStep::Send
        } else {
            EventStep::Skip
        },
        Received::Event { filter: None } => EventStep::ShutDown,
        Received::Lagged(count) => EventStep::CountDropped(count),
        Received::Closed => EventStep::ShutDown,
    }
}

/// What the underlying stream of a buffer has to offer.
#[derive(Debug)]
pub enum InnerPoll<T> {
    Item(T),
    Closed,
    Pending,
}

/// What a buffer has to offer.
#[derive(Debug)]
pub enum BufferStep<T> {
    /// The underlying stream is to be asked.
    PollInner,
    /// Some items.
    Ready(Vec<T>),
    /// There will be no more items.
    End,
    /// There is nothing right now.
    Pending,
}

/// A step as contracts see it.
pub enum BufferStepView<T> {
    PollInner,
    Ready(Seq<T>),
    End,
    Pending,
}

impl<T> View for BufferStep<T> {
    type V = BufferStepView<T>;

    open spec fn view(&self) -> BufferStepView<T> {
        match self {
            BufferStep::PollInner => BufferStepView::PollInner,
            BufferStep::Ready(items) => BufferStepView::Ready(items@),
            BufferStep::End => BufferStepView::End,
            BufferStep::Pending => BufferStepView::Pending,
        }
    }
}

/// A buffer that takes as many items as it can get, and passes them on in chunks.
#[derive(Debug)]
pub struct GreedyBuffer<T> {
    buf: Vec<T>,
    fused: bool,
    chunk_size: usize,
}

/// A buffer as contracts see it.
pub struct GreedyBufferView<T> {
    pub buf: Seq<T>,
    pub fused: bool,
    pub chunk_size: int,
}

impl<T> View for GreedyBuffer<T> {
    type V = GreedyBufferView<T>;

    closed spec fn view(&self) -> GreedyBufferView<T> {
        GreedyBufferView {
            buf: self.buf@,
            fused: self.fused,
            chunk_size: self.chunk_size as int,
        }
    }
}

impl<T> GreedyBufferView<T> {
    /// Between two polls of the underlying stream a buffer holds less than a chunk.
    pub open spec fn wf(self) -> bool {
        self.chunk_size > 0 && self.buf.len() < self.chunk_size
    }

    /// The buffer after the underlying stream was asked.
    pub open spec fn after(self, poll: InnerPoll<T>) -> GreedyBufferView<T> {
        match poll {
            InnerPoll::Item(item) => if self.buf.len() + 1 >= self.chunk_size {
                GreedyBufferView { buf: Seq::empty(), ..self }
            } else {
                GreedyBufferView { buf: self.buf.push(item), ..self }
            },
            InnerPoll::Closed => GreedyBufferView { buf: Seq::empty(), fused: true, ..self },
            InnerPoll::Pending => GreedyBufferView { buf: Seq::empty(), ..self },
        }
    }

    /// What the buffer has to offer after the underlying stream was asked.
    pub open spec fn offers(self, poll: InnerPoll<T>) -> BufferStepView<T> {
        match poll {
            InnerPoll::Item(item) => if self.buf.len() + 1 >= self.chunk_size {
                BufferStepView::Ready(self.buf.push(item))
            } else {
                BufferStepView::PollInner
            },
            InnerPoll::Closed => if self.buf.len() > 0 {
                BufferStepView::Ready(self.buf)
            } else {
                BufferStepView::End
            },
            InnerPoll::Pending => if self.buf.len() > 0 {
                BufferStepView::Ready(self.buf)
            } else {
                BufferStepView::Pending
            },
        }
    }
}

impl<T> GreedyBuffer<T> {
    /// Creates an empty buffer.
    pub fn new(chunk_size: usize) -> (buffer: Self)
        requires
            chunk_size > 0,
        ensures
            buffer@ == (GreedyBufferView {
                buf: Seq::<T>::empty(),
                fused: false,
                chunk_size: chunk_size as int,
            }),
            buffer@.wf(),
    {
        GreedyBuffer { buf: Vec::new(), fused: false, chunk_size }
    }

    /// Asks the buffer for items.
    pub fn poll(&self) -> (step: BufferStep<T>)
        ensures
            step@ == (if self@.fused {
                BufferStepView::<T>::End
            } else {
                BufferStepView::<T>::PollInner
            }),
    {
        if self.fused {
            BufferStep::End
        } else {
            BufferStep::PollInner
        }
    }

    /// Takes what the underlying stream has to offer.
    pub fn polled(&mut self, poll: InnerPoll<T>) -> (step: BufferStep<T>)
        requires
            old(self)@.wf(),
        ensures
            final(self)@ == old(self)@.after(poll),
            final(self)@.wf(),
            step@ == old(self)@.offers(poll),
    {
        match poll {
            InnerPoll::Item(item) => {
                self.buf.push(item);
                if self.buf.len() >= self.chunk_size {
                    BufferStep::Ready(self.take_buffer())
                } else {
                    BufferStep::PollInner
                }
            },
            InnerPoll::Closed => {
                self.fused = true;
                if self.buf.len() > 0 {
                    BufferStep::Ready(self.take_buffer())
                } else {
                    assert(self.buf@ =~= Seq::<T>::empty());
                    BufferStep::End
                }
            },
            InnerPoll::Pending => {
                if self.buf.len() > 0 {
                    BufferStep::Ready(self.take_buffer())
                } else {
                    assert(self.buf@ =~= Seq::<T>::empty());
                    BufferStep::Pending
                }
            },
        }
    }

    fn take_buffer(&mut self) -> (items: Vec<T>)
        ensures
            items@ == old(self)@.buf,
            final(self)@ == (GreedyBufferView { buf: Seq::<T>::empty(), ..old(self)@ }),
    {
        let mut items: Vec<T> = Vec::new();
        items.append(&mut self.buf);
        assert(items@ =~= old(self).buf@);
        items
    }
}

/// The items that the underlying stream offered.
pub open spec fn offered_items<T>(polls: Seq<InnerPoll<T>>) -> Seq<T>
    decreases polls.len(),
{
    if polls.len() == 0 {
        Seq::empty()
    } else {
        let before = offered_items(polls.drop_last());
        match polls.last() {
            InnerPoll::Item(item) => before.push(item),
            _ => before,
        }
    }
}

/// The buffer after the underlying stream was asked some times.
pub open spec fn after_polls<T>(buffer: GreedyBufferView<T>, polls: Seq<InnerPoll<T>>)
    -> GreedyBufferView<T>
    decreases polls.len(),
{
    if polls.len() == 0 {
        buffer
    } else {
        after_polls(buffer, polls.drop_last()).after(polls.last())
    }
}

/// The items that the buffer passed on meanwhile.
pub open spec fn passed_items<T>(buffer: GreedyBufferView<T>, polls: Seq<InnerPoll<T>>) -> Seq<T>
    decreases polls.len(),
{
    if polls.len() == 0 {
        Seq::empty()
    } else {
        let rest = polls.drop_last();
        let before = passed_items(buffer, rest);
        match after_polls(buffer, rest).offers(polls.last()) {
            BufferStepView::Ready(items) => before + items,
            _ => before,
        }
    }
}

/// No item gets lost, doubled or out of order: what was passed on, and what is still in the buffer
/// behind it, are the items that were there at first and those that came in.
pub proof fn law_nothing_is_lost<T>(buffer: GreedyBufferView<T>, polls: Seq<InnerPoll<T>>)
    requires
        buffer.wf(),
    ensures
        after_polls(buffer, polls).wf(),
        passed_items(buffer, polls) + after_polls(buffer, polls).buf == buffer.buf
            + offered_items(polls),
    decreases polls.len(),
{
    if polls.len() == 0 {
        assert(Seq::<T>::empty() + buffer.buf =~= buffer.buf + Seq::<T>::empty());
    } else {
        let rest = polls.drop_last();
        law_nothing_is_lost(buffer, rest);
        let state = after_polls(buffer, rest);
        let before = passed_items(buffer, rest);
        let known = before + state.buf;
        match polls.last() {
            InnerPoll::Item(item) => {
                assert(buffer.buf + offered_items(rest).push(item) =~= known.push(item));
                if state.buf.len() + 1 >= state.chunk_size {
                    assert((before + state.buf.push(item)) + Seq::<T>::empty() =~= known.push(
                        item,
                    ));
                } else {
                    assert(before + state.buf.push(item) =~= known.push(item));
                }
            },
            _ => {
                if state.buf.len() > 0 {
                    assert((before + state.buf) + Seq::<T>::empty() =~= known);
                } else {
                    assert(state.buf =~= Seq::<T>::empty());
                }
            },
        }
    }
}

/// A chunk is never empty, and never larger than the size of a chunk.
pub proof fn law_chunks_are_bounded<T>(buffer: GreedyBufferView<T>, poll: InnerPoll<T>)
    requires
        buffer.wf(),
    ensures
        buffer.offers(poll) matches BufferStepView::Ready(items) ==> 1 <= items.len()
            <= buffer.chunk_size,
{
}

/// Requests of a client over TCP as requests over HTTP.
pub open spec fn as_set_requests(requests: Seq<AddressRequest>) -> Seq<SetRequest> {
    requests.map_values(
        |request: AddressRequest|
            SetRequest {
                target: SetRequestTarget::Address(request.address),
                value: request.value,
            },
    )
}

/// Values are set in the same way for all clients. Of several requests for the same address the
/// last one wins, and an output that nobody asked for keeps its value.
pub proof fn law_last_address_request_wins(
    universe: UniverseState,
    requests: Seq<AddressRequest>,
    n: int,
    address: Address,
)
    requires
        universe.wf(),
        universe.is_output_address(address),
        0 <= n <= requests.len(),
    ensures
        address_requests_applied(universe, requests, n) == requests_applied(
            universe,
            as_set_requests(requests),
            n,
        ),
        ({
            let route = universe.route(address);
            let port = port_at(universe.devices@, route).port as int;
            address_requests_applied(universe, requests, n)[route.device as int].values[port]
                == last_requested(
                as_set_requests(requests),
                n,
                address,
                universe.buffered(address),
            )
        }),
    decreases n,
{
    if n > 0 {
        law_last_address_request_wins(universe, requests, n - 1, address);
    }
    law_last_request_wins(universe, as_set_requests(requests), n, address);
}

/// A request to set values fails exactly if it has an address that is not that of an output. The
/// first such address is told. Nothing is to be done after that.
pub proof fn law_first_invalid_address_is_told(
    before: UniverseState,
    requests: Seq<AddressRequest>,
    after: UniverseState,
    result: Result<(), Seq<char>>,
    updates: Updates,
    k: int,
)
    requires
        values_set(before, requests, after, result, updates),
    ensures
        result is Ok <==> forall|j: int|
            0 <= j < requests.len() ==> before.is_output_address((#[trigger] requests[j]).address),
        (0 <= k < requests.len() && !before.is_output_address(requests[k].address) && forall|j: int|
            0 <= j < k ==> before.is_output_address((#[trigger] requests[j]).address)) ==> {
            &&& result == Err::<(), Seq<char>>(invalid_address_report(requests[k].address))
            &&& outputs_views(after) == address_requests_applied(before, requests, k)
            &&& updates.notify@.len() == 0
        },
{
    if !(forall|j: int|
        0 <= j < requests.len() ==> before.is_output_address((#[trigger] requests[j]).address)) {
        let first = choose|first: int| #[trigger]
            is_first_invalid(before, requests, first) && result == Err::<(), Seq<char>>(
                report_of(
                    within(
                        "unable to set address"@,
                        failed("invalid address: "@ + decimal(requests[first].address as nat)),
                    ),
                ),
            ) && outputs_views(after) == address_requests_applied(before, requests, first);
        law_report_of_an_invalid_address(requests[first].address);
        if 0 <= k < requests.len() && !before.is_output_address(requests[k].address) && (forall|
            j: int,
        |
            0 <= j < k ==> before.is_output_address((#[trigger] requests[j]).address)) {
            if first < k {
                assert(before.is_output_address(requests[first].address));
            } else if k < first {
                assert(before.is_output_address(requests[k].address));
            }
            assert(first == k);
        }
    }
}

/// Items never wait for others: once the underlying stream has nothing to offer, everything that
/// came in is passed on. A chunk is passed on before that only if it is full. Nothing ends before
/// the underlying stream does.
pub proof fn law_items_do_not_wait<T>(buffer: GreedyBufferView<T>, poll: InnerPoll<T>)
    requires
        buffer.wf(),
    ensures
        !(poll is Item) ==> buffer.after(poll).buf.len() == 0,
        poll is Item ==> (buffer.offers(poll) matches BufferStepView::Ready(items) ==> items.len()
            == buffer.chunk_size),
        poll is Item ==> buffer.offers(poll) is Ready || buffer.offers(poll) is PollInner,
        poll is Pending ==> (buffer.offers(poll) is Ready <==> buffer.buf.len() > 0),
        poll is Pending ==> (buffer.offers(poll) is Pending <==> buffer.buf.len() == 0),
        poll is Closed ==> (buffer.offers(poll) is Ready <==> buffer.buf.len() > 0),
        poll is Closed ==> (buffer.offers(poll) is End <==> buffer.buf.len() == 0),
        buffer.after(poll).fused <==> (buffer.fused || poll is Closed),
        buffer.after(poll).chunk_size == buffer.chunk_size,
{
}

} // verus!
