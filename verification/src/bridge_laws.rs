//! What holds of a bridge over any number of steps.
use std::sync::atomic::{AtomicBool, Ordering};

use vstd::prelude::*;

use crate::bridge::{BridgeAction, BridgeEvent, BridgeResponseToLocal, BridgeView};
use crate::error::Failure;
use crate::poll::Poll;

verus! {

/// A response that was delivered: its sequence number, and which bytes of the
/// server's stream it is made of.
pub struct Delivery {
    pub seq: int,
    pub start: int,
    pub len: int,
}

/// The state that `events` lead to, one after another, from `start`.
pub open spec fn run<E>(start: BridgeView, events: Seq<BridgeEvent<E>>) -> BridgeView
    decreases events.len(),
{
    if events.len() == 0 {
        start
    } else {
        run(start, events.drop_last()).next(events.last())
    }
}

/// Whether each of `events` can follow the ones before it.
pub open spec fn admissible<E>(start: BridgeView, events: Seq<BridgeEvent<E>>) -> bool
    decreases events.len(),
{
    events.len() > 0 ==> {
        &&& admissible(start, events.drop_last())
        &&& run(start, events.drop_last()).admits(events.last())
    }
}

/// The number of bytes that were read.
pub open spec fn received<E>(events: Seq<BridgeEvent<E>>) -> int
    decreases events.len(),
{
    if events.len() == 0 {
        0
    } else {
        received(events.drop_last()) + match events.last() {
            BridgeEvent::Read { n } => n as int,
            _ => 0,
        }
    }
}

/// The responses that were delivered, in order.
pub open spec fn deliveries<E>(start: BridgeView, events: Seq<BridgeEvent<E>>) -> Seq<Delivery>
    decreases events.len(),
{
    if events.len() == 0 {
        Seq::empty()
    } else {
        let before = run(start, events.drop_last());
        let earlier = deliveries(start, events.drop_last());
        match events.last() {
            BridgeEvent::Parsed { found: true, num } => earlier.push(
                Delivery { seq: before.seq, start: before.processed, len: num as int },
            ),
            _ => earlier,
        }
    }
}

/// Whether `event` is the end of the server's stream.
pub open spec fn is_end<E>(event: BridgeEvent<E>) -> bool {
    match event {
        BridgeEvent::Read { n } => n == 0,
        _ => false,
    }
}

/// Whether `event` says that there is no whole response yet.
pub open spec fn is_partial<E>(event: BridgeEvent<E>) -> bool {
    match event {
        BridgeEvent::Parsed { found, num } => !found,
        _ => false,
    }
}

/// Whether `event` reports a whole response of `len` bytes.
pub open spec fn is_response<E>(event: BridgeEvent<E>, len: int) -> bool {
    match event {
        BridgeEvent::Parsed { found, num } => found && num == len,
        _ => false,
    }
}

/// Where in the stream delivery `i` of `done` has to start, if the first one
/// starts at `first`.
pub open spec fn expected_start(done: Seq<Delivery>, first: int, i: int) -> int {
    if i == 0 {
        first
    } else {
        done[i - 1].start + done[i - 1].len
    }
}

/// The step that reports a whole response delivers it under the next sequence
/// number, and is the only kind of step that delivers anything.
pub proof fn law_delivers_what_is_parsed<E>(
    state: BridgeView,
    event: BridgeEvent<E>,
    action: BridgeAction<E>,
)
    requires
        state.wf(),
        state.admits(event),
        state.wants(event, action),
    ensures
        state.next(event).wf(),
        (action is Deliver) == (exists|len: int| is_response(event, len)),
        (action is Deliver) ==> {
            &&& action->Deliver_seq == state.seq
            &&& is_response(event, action->Deliver_num as int)
            &&& state.next(event).seq == state.seq + 1
            &&& state.next(event).processed == state.processed + action->Deliver_num
        },
{
    if action is Deliver {
        assert(is_response(event, action->Deliver_num as int));
    }
}

/// The responses delivered carry consecutive sequence numbers and tile the
/// stream: each starts where the one before it ended, and none reaches beyond
/// the bytes received. On the way the invariant is kept.
pub proof fn law_deliveries_tile_the_stream<E>(start: BridgeView, events: Seq<BridgeEvent<E>>)
    requires
        start.wf(),
        admissible(start, events),
    ensures
        run(start, events).wf(),
        run(start, events).written == start.written + received(events),
        run(start, events).seq == start.seq + deliveries(start, events).len(),
        run(start, events).processed == expected_start(
            deliveries(start, events),
            start.processed,
            deliveries(start, events).len() as int,
        ),
        forall|i: int|
            0 <= i < deliveries(start, events).len() ==> {
                let delivery = #[trigger] deliveries(start, events)[i];
                &&& delivery.seq == start.seq + i
                &&& delivery.start == expected_start(
                    deliveries(start, events),
                    start.processed,
                    i,
                )
                &&& start.processed <= delivery.start
                &&& 0 <= delivery.len
                &&& delivery.start + delivery.len <= run(start, events).processed
            },
    decreases events.len(),
{
    if events.len() > 0 {
        let before = events.drop_last();
        law_deliveries_tile_the_stream(start, before);
        let earlier = deliveries(start, before);
        let done = deliveries(start, events);
        assert forall|i: int| 0 <= i < done.len() implies {
            let delivery = #[trigger] done[i];
            &&& delivery.seq == start.seq + i
            &&& delivery.start == expected_start(done, start.processed, i)
            &&& start.processed <= delivery.start
            &&& 0 <= delivery.len
            &&& delivery.start + delivery.len <= run(start, events).processed
        } by {
            if i > 0 {
                assert(done[i - 1] == earlier[i - 1]);
            }
            if i < earlier.len() {
                assert(done[i] == earlier[i]);
            }
        }
        if earlier.len() > 0 {
            assert(earlier[earlier.len() - 1].start >= start.processed);
        }
    }
}

/// A bridge reconnects when it was shut down or the server closed the stream,
/// and then only; where reading has to wait or fails, it just says so.
pub proof fn law_reconnects_at_the_end<E>(
    state: BridgeView,
    event: BridgeEvent<E>,
    action: BridgeAction<E>,
)
    requires
        state.wants(event, action),
    ensures
        (action is Reconnect) ==> (event is Polled) || is_end(event),
        is_end(event) ==> (action is Reconnect),
        (action is Return) == ((event is Pending) || (event is Failed)),
        (action is Return) ==> state.next(event) == state,
{
}

/// As long as received bytes are not delivered, they are parsed; the bridge
/// goes back to reading only when none are left or they hold no whole response.
pub proof fn law_parses_before_reading<E>(
    state: BridgeView,
    event: BridgeEvent<E>,
    action: BridgeAction<E>,
)
    requires
        state.wf(),
        state.wants(event, action),
        (action is Continue),
    ensures
        state.processed == state.written || is_partial(event),
{
}

/// One step of a bridge: what it was told, and what it answered.
pub struct BridgeStep<E> {
    pub event: BridgeEvent<E>,
    pub action: BridgeAction<E>,
}

/// What the bridge was told in each of `steps`.
pub open spec fn events_of<E>(steps: Seq<BridgeStep<E>>) -> Seq<BridgeEvent<E>> {
    Seq::new(steps.len(), |i: int| steps[i].event)
}

/// Whether `event` reports on what `action` asked for. Once a poll has ended,
/// the next thing to happen is another poll.
pub open spec fn reports_on<E>(event: BridgeEvent<E>, action: BridgeAction<E>) -> bool {
    match action {
        BridgeAction::LoadOffset => event is Consumed,
        BridgeAction::Reserve { .. } => event is Reserved,
        BridgeAction::Read => event is Pending || event is Failed || event is Read,
        BridgeAction::AdvanceWrite { .. } => event is Advanced,
        BridgeAction::Parse => event is Parsed,
        BridgeAction::Deliver { .. } => event is Advanced,
        BridgeAction::Spin => event is Polled,
        BridgeAction::Continue => event is Polled,
        BridgeAction::Reconnect => event is Polled,
        BridgeAction::Return(_) => event is Polled,
    }
}

/// Whether `steps` are a run of a bridge from `start`: it is polled, each
/// event reports on the action before it, and each action is what the bridge
/// wants in the state it has reached.
pub open spec fn is_run<E>(start: BridgeView, steps: Seq<BridgeStep<E>>) -> bool
    decreases steps.len(),
{
    steps.len() > 0 ==> {
        let before = steps.drop_last();
        let state = run(start, events_of(before));
        let step = steps.last();
        &&& is_run(start, before)
        &&& state.admits(step.event)
        &&& state.wants(step.event, step.action)
        &&& if before.len() == 0 {
            step.event is Polled
        } else {
            reports_on(step.event, before.last().action)
        }
    }
}

/// The bytes of `stream` that are received and not delivered.
pub open spec fn undelivered(state: BridgeView, stream: Seq<u8>) -> Seq<u8> {
    stream.subrange(state.processed, state.written)
}

/// Whether, in each of `steps` that reports what the parser said, the parser
/// was shown the undelivered bytes of `stream` at that point. What the parser
/// may say of given bytes is up to `says`.
pub open spec fn is_parsed_by<E>(
    start: BridgeView,
    steps: Seq<BridgeStep<E>>,
    stream: Seq<u8>,
    says: spec_fn(Seq<u8>, bool, usize) -> bool,
) -> bool {
    forall|i: int|
        0 <= i < steps.len() ==> (#[trigger] steps[i].event matches BridgeEvent::Parsed {
            found,
            num,
        } ==> says(undelivered(run(start, events_of(steps.take(i))), stream), found, num))
}

/// Whether `bytes` are none, or the parser may say that they hold no whole
/// response.
pub open spec fn is_settled(
    bytes: Seq<u8>,
    says: spec_fn(Seq<u8>, bool, usize) -> bool,
) -> bool {
    bytes.len() == 0 || exists|num: usize| #[trigger] says(bytes, false, num)
}

/// Whether a bridge that gives this answer is in the middle of cutting
/// responses out of what it received.
pub open spec fn is_cutting<E>(action: BridgeAction<E>) -> bool {
    action is AdvanceWrite || action is Parse || action is Deliver
}

/// Leaving out the last step leaves out the last event.
proof fn lemma_events_of<E>(steps: Seq<BridgeStep<E>>)
    requires
        steps.len() > 0,
    ensures
        events_of(steps).drop_last() == events_of(steps.drop_last()),
        events_of(steps).last() == steps.last().event,
{
    assert(events_of(steps).drop_last() =~= events_of(steps.drop_last()));
}

/// A run's events can follow each other.
proof fn lemma_run_is_admissible<E>(start: BridgeView, steps: Seq<BridgeStep<E>>)
    requires
        is_run(start, steps),
    ensures
        admissible(start, events_of(steps)),
    decreases steps.len(),
{
    if steps.len() > 0 {
        lemma_events_of(steps);
        lemma_run_is_admissible(start, steps.drop_last());
    }
}

/// Each step of a run is what the bridge wants in some state, and reports on
/// the step before it.
proof fn lemma_step_of_run<E>(start: BridgeView, steps: Seq<BridgeStep<E>>, at: int)
    requires
        is_run(start, steps),
        0 <= at < steps.len(),
    ensures
        exists|state: BridgeView| #[trigger] state.wants(steps[at].event, steps[at].action),
        if at == 0 {
            steps[at].event is Polled
        } else {
            reports_on(steps[at].event, steps[at - 1].action)
        },
    decreases steps.len(),
{
    let before = steps.drop_last();
    if at < before.len() {
        lemma_step_of_run(start, before, at);
    } else {
        let state = run(start, events_of(before));
        assert(state.wants(steps[at].event, steps[at].action));
    }
}

/// Over a whole run, whenever a bridge goes back to reading, waits or ends, it
/// has delivered all that it could: nothing is left, or what is left is no
/// whole response according to the parser.
pub proof fn law_rest_is_no_response<E>(
    start: BridgeView,
    steps: Seq<BridgeStep<E>>,
    stream: Seq<u8>,
    says: spec_fn(Seq<u8>, bool, usize) -> bool,
)
    requires
        start.wf(),
        is_settled(undelivered(start, stream), says),
        is_run(start, steps),
        is_parsed_by(start, steps, stream, says),
        run(start, events_of(steps)).written <= stream.len(),
    ensures
        steps.len() == 0 || !is_cutting(steps.last().action) ==> is_settled(
            undelivered(run(start, events_of(steps)), stream),
            says,
        ),
    decreases steps.len(),
{
    if steps.len() > 0 {
        let before = steps.drop_last();
        let state = run(start, events_of(before));
        let step = steps.last();
        lemma_events_of(steps);
        lemma_run_is_admissible(start, steps);
        lemma_run_is_admissible(start, before);
        law_deliveries_tile_the_stream(start, events_of(before));
        assert(is_parsed_by(start, before, stream, says)) by {
            assert forall|i: int| 0 <= i < before.len() implies (
            #[trigger] before[i].event matches BridgeEvent::Parsed { found, num } ==> says(
                undelivered(run(start, events_of(before.take(i))), stream),
                found,
                num,
            )) by {
                assert(before.take(i) =~= steps.take(i));
                assert(before[i] == steps[i]);
            }
        }
        law_rest_is_no_response(start, before, stream, says);
        assert(steps.take(steps.len() - 1) =~= before);
        assert(steps[steps.len() - 1] == step);
    } else {
        assert(events_of(steps) =~= Seq::empty());
    }
}

/// The bytes of the responses that were delivered, one after another.
pub open spec fn delivered_bytes<E>(
    start: BridgeView,
    events: Seq<BridgeEvent<E>>,
    stream: Seq<u8>,
) -> Seq<u8>
    decreases events.len(),
{
    if events.len() == 0 {
        Seq::empty()
    } else {
        let state = run(start, events.drop_last());
        delivered_bytes(start, events.drop_last(), stream) + match events.last() {
            BridgeEvent::Parsed { found: true, num } => undelivered(state, stream).take(
                num as int,
            ),
            _ => Seq::empty(),
        }
    }
}

/// No byte is lost, repeated or reordered: each response that is delivered is
/// made of the first bytes that are not delivered yet, and one after another
/// they are the stream from where the bridge started; for a fresh bridge, its
/// first bytes. What is received and not delivered comes right behind them.
pub proof fn law_delivers_the_stream<E>(
    start: BridgeView,
    events: Seq<BridgeEvent<E>>,
    stream: Seq<u8>,
)
    requires
        start.wf(),
        admissible(start, events),
        run(start, events).written <= stream.len(),
    ensures
        delivered_bytes(start, events, stream) == stream.subrange(
            start.processed,
            run(start, events).processed,
        ),
        delivered_bytes(start, events, stream) + undelivered(run(start, events), stream)
            == stream.subrange(start.processed, run(start, events).written),
    decreases events.len(),
{
    law_deliveries_tile_the_stream(start, events);
    if events.len() > 0 {
        law_deliveries_tile_the_stream(start, events.drop_last());
        law_delivers_the_stream(start, events.drop_last(), stream);
    }
    assert(delivered_bytes(start, events, stream) =~= stream.subrange(
        start.processed,
        run(start, events).processed,
    ));
    assert(delivered_bytes(start, events, stream) + undelivered(run(start, events), stream)
        =~= stream.subrange(start.processed, run(start, events).written));
}

/// Over a whole run, every read was prepared just before it: the bridge was
/// polled, looked at its flag and found itself not shut down; the handler said
/// how far it has consumed, and the ring buffer was released up to there; and
/// there was room for at least one byte. So no two reads share such a look, and
/// a read of no bytes always is the end of the stream.
pub proof fn law_reads_are_prepared<R, W, P, B, E>(
    bridge: BridgeResponseToLocal<R, W, P, B>,
    start: BridgeView,
    steps: Seq<BridgeStep<E>>,
    at: int,
)
    requires
        is_run(start, steps),
        forall|i: int|
            0 <= i < steps.len() && (#[trigger] steps[i]).event is Polled ==> bridge.flag_reads(
                steps[i].action is Reconnect,
            ),
        0 <= at < steps.len(),
        (steps[at].action is Read),
    ensures
        at > 1,
        (steps[at].event is Reserved),
        steps[at].event->room > 0,
        (steps[at - 1].event is Consumed),
        (steps[at - 1].action is Reserve),
        steps[at - 1].action->Reserve_offset == steps[at - 1].event->Consumed_offset,
        (steps[at - 2].event is Polled),
        (steps[at - 2].action is LoadOffset),
        bridge.flag_reads(false),
{
    lemma_step_of_run(start, steps, at);
    lemma_step_of_run(start, steps, at - 1);
    lemma_step_of_run(start, steps, at - 2);
}

/// Once a bridge reconnects, that poll is over: nothing more is read, parsed,
/// delivered or asked of the handler, and what comes next in a run, if
/// anything, is another poll.
pub proof fn law_reconnecting_ends_the_poll<E>(
    start: BridgeView,
    steps: Seq<BridgeStep<E>>,
    at: int,
)
    requires
        is_run(start, steps),
        0 <= at < steps.len(),
        (steps[at].action is Reconnect),
    ensures
        (steps[at].event is Polled) || is_end(steps[at].event),
        at + 1 < steps.len() ==> (steps[at + 1].event is Polled),
{
    lemma_step_of_run(start, steps, at);
    if at + 1 < steps.len() {
        lemma_step_of_run(start, steps, at + 1);
    }
}

/// The handler is asked for its offset only by a poll that did not find the
/// bridge shut down.
pub proof fn law_asks_the_handler_only_when_running<R, W, P, B, E>(
    bridge: BridgeResponseToLocal<R, W, P, B>,
    state: BridgeView,
    event: BridgeEvent<E>,
    action: BridgeAction<E>,
)
    requires
        state.wants(event, action),
        event is Polled ==> bridge.flag_reads(action is Reconnect),
        (action is LoadOffset),
    ensures
        (event is Polled),
        bridge.flag_reads(false),
{
}

/// When each answer is given, and what it says. The server is read exactly when
/// there is room, and waited for exactly when there is none; a poll waits only
/// when the server has nothing yet, and fails only with the error it was told;
/// it never just succeeds, since a bridge ends with success by reconnecting.
pub proof fn law_when_each_answer_is_given<E>(
    state: BridgeView,
    event: BridgeEvent<E>,
    action: BridgeAction<E>,
)
    requires
        0 <= state.seq <= usize::MAX,
        0 <= state.processed <= state.written,
        state.wants(event, action),
    ensures
        (match action {
            BridgeAction::Return(Poll::Pending) => event is Pending,
            BridgeAction::Return(Poll::Ready(Ok(()))) => false,
            BridgeAction::Return(Poll::Ready(Err(Failure::Outside(e)))) => {
                event is Failed && event->Failed_0 == e
            },
            BridgeAction::Return(Poll::Ready(Err(Failure::Own(_)))) => false,
            BridgeAction::LoadOffset => event is Polled,
            BridgeAction::Reserve { offset } => {
                event is Consumed && event->Consumed_offset == offset
            },
            BridgeAction::Read => event is Reserved && event->room > 0,
            BridgeAction::Spin => event is Reserved && event->room == 0,
            BridgeAction::AdvanceWrite { n } => {
                event is Read && n > 0 && event->Read_n == n
            },
            BridgeAction::Parse => event is Advanced && state.processed < state.written,
            BridgeAction::Deliver { seq, num } => {
                &&& event is Parsed
                &&& event->found
                &&& num == event->num
                &&& seq == state.seq
            },
            BridgeAction::Continue => {
                ||| event is Advanced && state.processed == state.written
                ||| event is Parsed && !event->found
            },
            BridgeAction::Reconnect => {
                ||| event is Polled
                ||| event is Read && event->Read_n == 0
            },
        }),
{
}

/// What each event changes: a read adds to what is received, a whole response
/// adds its length to what is delivered and one to the sequence number, and
/// nothing else changes anything.
pub proof fn law_what_each_event_changes<E>(state: BridgeView, event: BridgeEvent<E>)
    ensures
        ({
            let after = state.next(event);
            &&& after.capacity == state.capacity
            &&& after.written == if event is Read {
                state.written + event->Read_n
            } else {
                state.written
            }
            &&& after.processed == if event is Parsed && event->found {
                state.processed + event->num
            } else {
                state.processed
            }
            &&& after.seq == if event is Parsed && event->found {
                state.seq + 1
            } else {
                state.seq
            }
        }),
{
}

/// Which events a bridge takes: everything, as long as its counters do not
/// overflow and no response is longer than what is received and undelivered.
pub proof fn law_which_events_are_taken<E>(state: BridgeView, event: BridgeEvent<E>)
    ensures
        state.admits(event) == {
            &&& event is Read ==> state.written + event->Read_n <= usize::MAX
            &&& event is Parsed && event->found ==> event->num <= state.written - state.processed
            &&& event is Parsed && event->found ==> state.seq < usize::MAX
        },
{
}

/// What looking at the flag may say is what a relaxed load of the flag that the
/// bridge was made with may return.
pub proof fn law_flag_is_what_is_loaded<R, W, P, B>(
    bridge: BridgeResponseToLocal<R, W, P, B>,
    done: bool,
)
    ensures
        bridge.flag_reads(done) == call_ensures(
            AtomicBool::load,
            (&*bridge.flag(), Ordering::Relaxed),
            done,
        ),
{
}

/// The invariant says that no byte is delivered before it is received, and asks
/// for no more than that but that the numbers can be held.
pub proof fn law_invariant_bounds(state: BridgeView)
    ensures
        state.wf() == {
            &&& 0 <= state.processed <= state.written <= usize::MAX
            &&& 0 <= state.seq <= usize::MAX
            &&& 0 <= state.capacity <= usize::MAX
        },
{
}

} // verus!
