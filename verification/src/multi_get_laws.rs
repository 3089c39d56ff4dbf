//! What holds of a lookup over any number of steps.
use vstd::prelude::*;

use crate::error::{Error, Failure};
use crate::multi_get;
use crate::multi_get::{
    AsyncMultiGet, MultiGetView, NextAction, NextActionView, NextEvent, NextEventView, NextView,
    RoundView, WriteAction, WriteEvent,
};
use crate::poll::Poll;

verus! {

/// The state after `count` layers in a row have refused the request.
pub open spec fn after_refusals<T, I>(start: MultiGetView<T, I>, count: nat) -> MultiGetView<T, I>
    decreases count,
{
    if count == 0 {
        start
    } else {
        after_refusals(start, (count - 1) as nat).written(WriteEvent::Refused)
    }
}

/// Layers that refuse the request are passed over in order, and the first that
/// is left gets it, unchanged. Only when every layer from the one asked now to
/// the last has refused it does the write fail, and then the lookup is back at
/// its first layer with nothing answered.
pub proof fn law_write_falls_over<T, I>(start: MultiGetView<T, I>, count: nat)
    requires
        start.wf(),
        start.idx < start.layers,
        count < start.layers - start.idx,
    ensures
        after_refusals(start, count) == (MultiGetView { idx: start.idx + count, ..start }),
        after_refusals(start, count).write_action(WriteEvent::Polled) == (WriteAction::Send {
            layer: (start.idx + count) as usize,
        }),
        after_refusals(start, count).write_action(WriteEvent::Refused) == (if start.idx + count + 1
            == start.layers {
            WriteAction::Return(Poll::Ready(Err(Error::CannotWrite)))
        } else {
            WriteAction::Send { layer: (start.idx + count + 1) as usize }
        }),
        start.idx + count + 1 == start.layers ==> after_refusals(start, count + 1)
            == start.cleared(),
    decreases count,
{
    if count > 0 {
        law_write_falls_over(start, (count - 1) as nat);
    }
}

/// The lookup that `events` lead to, one after another, from `start`.
pub open spec fn run<T, I, K, E>(
    start: NextView<T, I, K, E>,
    events: Seq<NextEventView<T, K, E>>,
) -> NextView<T, I, K, E>
    decreases events.len(),
{
    if events.len() == 0 {
        start
    } else {
        run(start, events.drop_last()).next(events.last())
    }
}

/// Whether `action` ends the lookup. A poll that has to wait does not.
pub open spec fn ends<T, E>(action: NextActionView<T, E>) -> bool {
    match action {
        NextActionView::Return(Poll::Ready(_)) => true,
        _ => false,
    }
}

/// Whether none of `events` ends the lookup. They may belong to several polls,
/// each of which but the last had to wait.
pub open spec fn in_flight<T, I, K, E>(
    start: NextView<T, I, K, E>,
    events: Seq<NextEventView<T, K, E>>,
) -> bool
    decreases events.len(),
{
    events.len() > 0 ==> {
        &&& in_flight(start, events.drop_last())
        &&& !ends(run(start, events.drop_last()).action(events.last()))
    }
}

/// `response`, with every answer among `events` added in order.
pub open spec fn answers<T, K, E>(
    response: Option<Seq<T>>,
    events: Seq<NextEventView<T, K, E>>,
) -> Option<Seq<T>>
    decreases events.len(),
{
    if events.len() == 0 {
        response
    } else {
        let earlier = answers(response, events.drop_last());
        match events.last() {
            NextEventView::Replied { item, found_keys } => multi_get::merged(earlier, item),
            _ => earlier,
        }
    }
}

/// The last error of a layer that the poll knows of after `events`.
pub open spec fn last_error<T, K, E>(
    err: Option<E>,
    events: Seq<NextEventView<T, K, E>>,
) -> Option<E>
    decreases events.len(),
{
    if events.len() == 0 {
        err
    } else {
        match events.last() {
            NextEventView::Polled => None,
            NextEventView::Failed(e) => Some(e),
            _ => last_error(err, events.drop_last()),
        }
    }
}

/// The keys that the last layer to answer had found, after `events`.
pub open spec fn last_keys<T, K, E>(
    keys: Seq<K>,
    events: Seq<NextEventView<T, K, E>>,
) -> Seq<K>
    decreases events.len(),
{
    if events.len() == 0 {
        keys
    } else {
        match events.last() {
            NextEventView::Polled => Seq::empty(),
            NextEventView::Replied { item, found_keys } => found_keys,
            _ => last_keys(keys, events.drop_last()),
        }
    }
}

/// The bytes of the request after `events`: those that were made last.
pub open spec fn last_request<T, K, E>(
    data: Seq<u8>,
    events: Seq<NextEventView<T, K, E>>,
) -> Seq<u8>
    decreases events.len(),
{
    if events.len() == 0 {
        data
    } else {
        match events.last() {
            NextEventView::Rebuilt(made) => made,
            _ => last_request(data, events.drop_last()),
        }
    }
}

/// How many of `events` are done with a layer: it answered, failed, or refused
/// the request.
pub open spec fn layers_passed<T, K, E>(events: Seq<NextEventView<T, K, E>>) -> int
    decreases events.len(),
{
    if events.len() == 0 {
        0
    } else {
        layers_passed(events.drop_last()) + match events.last() {
            NextEventView::Replied { .. } => 1,
            NextEventView::Failed(_) => 1int,
            NextEventView::Refused => 1,
            _ => 0,
        }
    }
}

/// Until a lookup ends it goes through the layers one by one, in order, none
/// twice. It holds all that was answered, in that order; the keys of the last
/// answer; the last error; and a request that was made last, always under the
/// identifier it came with.
pub proof fn law_lookup_accumulates<T, I, K, E>(
    start: NextView<T, I, K, E>,
    events: Seq<NextEventView<T, K, E>>,
)
    requires
        start.get.wf(),
        start.get.idx < start.get.layers,
        in_flight(start, events),
    ensures
        run(start, events).get.wf(),
        run(start, events).get.layers == start.get.layers,
        layers_passed(events) >= 0,
        run(start, events).get.idx == start.get.idx + layers_passed(events),
        run(start, events).get.idx < start.get.layers,
        run(start, events).get.response == answers(start.get.response, events),
        run(start, events).get.request.id == start.get.request.id,
        run(start, events).get.request.data == last_request(start.get.request.data, events),
        run(start, events).round.found_keys == last_keys(start.round.found_keys, events),
        run(start, events).round.last_err == last_error(start.round.last_err, events),
    decreases events.len(),
{
    if events.len() > 0 {
        law_lookup_accumulates(start, events.drop_last());
    }
}

/// How a lookup ends. If it got through all layers, it returns everything that
/// was answered, merged in the order of the layers; only if nothing was, it
/// fails, with the last error of a layer if there was one. If the remaining
/// layers all refused the request, what was answered before is dropped, and it
/// fails the same way. In either case it is then ready for the next request.
pub proof fn law_lookup_result<T, I, K, E>(
    start: NextView<T, I, K, E>,
    events: Seq<NextEventView<T, K, E>>,
    last: NextEventView<T, K, E>,
)
    requires
        start.get.wf(),
        start.get.idx < start.get.layers,
        in_flight(start, events),
        ends(run(start, events).action(last)),
    ensures
        run(start, events).action(last) == NextActionView::<T, E>::Return(
            Poll::Ready(
                multi_get::outcome(
                    if last is Refused {
                        None
                    } else {
                        answers(start.get.response, events.push(last))
                    },
                    last_error(start.round.last_err, events.push(last)),
                ),
            ),
        ),
        start.get.idx + layers_passed(events.push(last)) == start.get.layers,
        run(start, events).next(last).get == run(start, events).get.cleared(),
{
    law_lookup_accumulates(start, events);
    assert(events.push(last).drop_last() =~= events);
}

/// A lookup that got through all layers succeeds as soon as any of them has
/// answered.
pub proof fn law_lookup_succeeds<T, I, K, E>(
    start: NextView<T, I, K, E>,
    events: Seq<NextEventView<T, K, E>>,
    last: NextEventView<T, K, E>,
    at: int,
)
    requires
        start.get.wf(),
        start.get.idx < start.get.layers,
        in_flight(start, events),
        ends(run(start, events).action(last)),
        (last is Replied) || (last is Failed),
        0 <= at < events.push(last).len(),
        events.push(last)[at] is Replied,
    ensures
        answers(start.get.response, events.push(last)) is Some,
        run(start, events).action(last) == NextActionView::<T, E>::Return(
            Poll::Ready(Ok(answers(start.get.response, events.push(last))->0)),
        ),
{
    law_lookup_result(start, events, last);
    lemma_answered(start.get.response, events.push(last), at);
}

/// Where there is an answer among the events, something was answered.
proof fn lemma_answered<T, K, E>(
    response: Option<Seq<T>>,
    events: Seq<NextEventView<T, K, E>>,
    at: int,
)
    requires
        0 <= at < events.len(),
        events[at] is Replied,
    ensures
        answers(response, events) is Some,
    decreases events.len(),
{
    if at < events.len() - 1 {
        lemma_answered(response, events.drop_last(), at);
    }
}

/// A poll that has to wait changes nothing, and the poll after it starts by
/// reading from the layer that is asked now, remembering neither keys nor
/// errors.
pub proof fn law_poll_starts_afresh<T, I, K, E>(state: NextView<T, I, K, E>)
    ensures
        state.next(NextEventView::Pending) == state,
        state.next(NextEventView::Polled).get == state.get,
        state.next(NextEventView::Polled).round == multi_get::fresh_round::<K, E>(),
        state.action(NextEventView::Polled) == (NextActionView::<T, E>::Read {
            layer: state.get.idx,
        }),
{
}

/// The next layer is asked for the keys that are not found yet: if the last
/// layer to answer found some, the request is made anew before it is sent.
pub proof fn law_found_keys_are_left_out<T, I, K, E>(
    state: NextView<T, I, K, E>,
    event: NextEventView<T, K, E>,
)
    requires
        (event is Replied) || (event is Failed),
        !state.get.at_last(),
    ensures
        state.next(event).round.found_keys.len() > 0 ==> (state.action(event) is Rebuild),
        state.next(event).round.found_keys.len() == 0 ==> state.action(event) == (
        NextActionView::<T, E>::Send { layer: state.next(event).get.idx }),
{
}

/// When each answer to a write is given, and what the write changes. A layer
/// that takes the request, or has to wait, leaves the lookup as it is; one that
/// refuses it passes it to the next; and when the last one refuses, the lookup
/// is back at the first with nothing answered. The request stays throughout.
pub proof fn law_write_step<T, I>(state: MultiGetView<T, I>, event: WriteEvent)
    requires
        0 <= state.idx < state.layers <= usize::MAX,
    ensures
        (match state.write_action(event) {
            WriteAction::Send { layer } => {
                ||| event is Polled && layer == state.idx
                ||| event is Refused && layer == state.idx + 1 && layer < state.layers
            },
            WriteAction::Return(Poll::Pending) => event is Pending,
            WriteAction::Return(Poll::Ready(Ok(()))) => event is Sent,
            WriteAction::Return(Poll::Ready(Err(error))) => {
                &&& error == Error::CannotWrite
                &&& event is Refused
                &&& state.idx + 1 == state.layers
            },
        }),
        ({
            let after = state.written(event);
            &&& after.layers == state.layers
            &&& after.request == state.request
            &&& !(event is Refused) ==> after.idx == state.idx && after.response == state.response
            &&& event is Refused && state.idx + 1 < state.layers ==> after.idx == state.idx + 1
                && after.response == state.response
            &&& event is Refused && state.idx + 1 == state.layers ==> after.idx == 0
                && after.response is None
        }),
{
}

/// The answer is read where the request was taken: after any number of
/// refusals, waits leave the layer as it is, and once a layer has taken the
/// request the next poll for the response reads from that layer.
pub proof fn law_reads_where_it_was_sent<T, I, K, E>(
    start: MultiGetView<T, I>,
    count: nat,
    round: RoundView<K, E>,
)
    requires
        0 <= start.idx < start.layers <= usize::MAX,
        count < start.layers - start.idx,
    ensures
        ({
            let waiting = after_refusals(start, count).written(WriteEvent::Pending);
            let taken = waiting.written(WriteEvent::Sent);
            &&& waiting.write_action(WriteEvent::Polled) == (WriteAction::Send {
                layer: (start.idx + count) as usize,
            })
            &&& taken.idx == start.idx + count
            &&& taken.request == start.request
            &&& taken.response == start.response
            &&& (NextView { get: taken, round }).action(NextEventView::Polled) == (NextActionView::<
                T,
                E,
            >::Read { layer: start.idx + count })
        }),
{
    law_write_falls_over(start, count);
}

/// The items of a response so far; none if nothing was answered.
pub open spec fn items_of<T>(response: Option<Seq<T>>) -> Seq<T> {
    match response {
        Some(items) => items,
        None => Seq::empty(),
    }
}

/// The items of every answer among `events`, one behind the other.
pub open spec fn replied_items<T, K, E>(events: Seq<NextEventView<T, K, E>>) -> Seq<T>
    decreases events.len(),
{
    if events.len() == 0 {
        Seq::empty()
    } else {
        replied_items(events.drop_last()) + match events.last() {
            NextEventView::Replied { item, found_keys } => item,
            _ => Seq::empty(),
        }
    }
}

/// How many items the answers among `events` have together.
pub open spec fn replied_len<T, K, E>(events: Seq<NextEventView<T, K, E>>) -> nat
    decreases events.len(),
{
    if events.len() == 0 {
        0
    } else {
        replied_len(events.drop_last()) + match events.last() {
            NextEventView::Replied { item, found_keys } => item.len(),
            _ => 0,
        }
    }
}

/// Whether there is an answer among `events`.
pub open spec fn any_replied<T, K, E>(events: Seq<NextEventView<T, K, E>>) -> bool {
    exists|i: int| 0 <= i < events.len() && (#[trigger] events[i]) is Replied
}

/// One more event is an answer or leaves it at the answers before.
proof fn lemma_any_replied<T, K, E>(events: Seq<NextEventView<T, K, E>>)
    requires
        events.len() > 0,
    ensures
        any_replied(events) == (any_replied(events.drop_last()) || events.last() is Replied),
{
    let before = events.drop_last();
    if any_replied(before) {
        let i = choose|i: int| 0 <= i < before.len() && (#[trigger] before[i]) is Replied;
        assert(events[i] is Replied);
    }
    if events.last() is Replied {
        assert(events[events.len() - 1] is Replied);
    }
    if any_replied(events) {
        let i = choose|i: int| 0 <= i < events.len() && (#[trigger] events[i]) is Replied;
        if i < before.len() {
            assert(before[i] is Replied);
        }
    }
}

/// Until a lookup ends it holds every item that was answered, in the order of
/// the answers and behind what it had before: none is lost, and none is added.
pub proof fn law_answers_are_concatenated<T, I, K, E>(
    start: NextView<T, I, K, E>,
    events: Seq<NextEventView<T, K, E>>,
)
    requires
        0 <= start.get.idx < start.get.layers <= usize::MAX,
        in_flight(start, events),
    ensures
        0 <= run(start, events).get.idx < start.get.layers,
        run(start, events).get.layers == start.get.layers,
        items_of(run(start, events).get.response) == items_of(start.get.response)
            + replied_items(events),
        (run(start, events).get.response is Some) == (start.get.response is Some || any_replied(
            events,
        )),
        replied_items(events).len() == replied_len(events),
    decreases events.len(),
{
    if events.len() > 0 {
        let before = events.drop_last();
        law_answers_are_concatenated(start, before);
        lemma_any_replied(events);
        law_next_state(run(start, before), events.last());
        law_when_each_answer_is_given(run(start, before), events.last());
        assert(items_of(run(start, events).get.response) =~= items_of(start.get.response)
            + replied_items(events));
    } else {
        assert(items_of(run(start, events).get.response) =~= items_of(start.get.response)
            + replied_items(events));
    }
}

/// A lookup that got through all layers returns the items of every answer, one
/// behind the other in the order they came, as many as the answers had
/// together; and it succeeds exactly if there was an answer. One that could not
/// pass the request on never succeeds.
pub proof fn law_lookup_returns_all_answers<T, I, K, E>(
    start: NextView<T, I, K, E>,
    events: Seq<NextEventView<T, K, E>>,
    last: NextEventView<T, K, E>,
)
    requires
        0 <= start.get.idx < start.get.layers <= usize::MAX,
        in_flight(start, events),
        ends(run(start, events).action(last)),
    ensures
        (match run(start, events).action(last) {
            NextActionView::Return(Poll::Ready(Ok(items))) => {
                &&& items == items_of(start.get.response) + replied_items(events.push(last))
                &&& items.len() == items_of(start.get.response).len() + replied_len(
                    events.push(last),
                )
                &&& last is Replied || last is Failed
                &&& start.get.response is Some || any_replied(events.push(last))
            },
            NextActionView::Return(Poll::Ready(Err(_))) => {
                ||| last is Refused
                ||| last is Failed && start.get.response is None && !any_replied(
                    events.push(last),
                )
            },
            _ => false,
        }),
{
    law_answers_are_concatenated(start, events);
    let all = events.push(last);
    assert(all.drop_last() =~= events);
    lemma_any_replied(all);
    let state = run(start, events);
    law_when_each_answer_is_given(state, last);
    assert(items_of(start.get.response) + replied_items(all) =~= items_of(state.get.response)
        + match last {
        NextEventView::Replied { item, found_keys } => item,
        _ => Seq::empty(),
    });
}

/// When each answer of a lookup is given, and what it says. It reads from the
/// layer it is at, sends to that layer or, once it is done with it, to the next
/// one, after the request was made anew if keys were found. It ends only at the
/// last layer: with what was answered, the last answer behind the others; or,
/// if nothing was, or the layer refused the request, with the last error.
pub proof fn law_when_each_answer_is_given<T, I, K, E>(
    state: NextView<T, I, K, E>,
    event: NextEventView<T, K, E>,
)
    requires
        0 <= state.get.idx < state.get.layers <= usize::MAX,
    ensures
        (match state.action(event) {
            NextActionView::Read { layer } => {
                &&& event is Polled || event is Sent
                &&& layer == state.get.idx
            },
            NextActionView::Rebuild => {
                &&& state.get.idx + 1 < state.get.layers
                &&& {
                    ||| event is Replied && event->found_keys.len() > 0
                    ||| event is Failed && state.round.found_keys.len() > 0
                }
            },
            NextActionView::Send { layer } => {
                ||| event is Rebuilt && layer == state.get.idx
                ||| {
                    &&& layer == state.get.idx + 1
                    &&& layer < state.get.layers
                    &&& {
                        ||| event is Replied && event->found_keys.len() == 0
                        ||| event is Failed && state.round.found_keys.len() == 0
                        ||| event is Refused
                    }
                }
            },
            NextActionView::Return(Poll::Pending) => event is Pending,
            NextActionView::Return(Poll::Ready(Ok(items))) => {
                &&& state.get.idx + 1 == state.get.layers
                &&& {
                    ||| event is Replied && items == items_of(state.get.response) + event->item
                    ||| event is Failed && state.get.response == Some(items)
                }
            },
            NextActionView::Return(Poll::Ready(Err(Failure::Outside(e)))) => {
                &&& state.get.idx + 1 == state.get.layers
                &&& {
                    ||| event is Failed && event->Failed_0 == e && state.get.response is None
                    ||| event is Refused && state.round.last_err == Some(e)
                }
            },
            NextActionView::Return(Poll::Ready(Err(Failure::Own(error)))) => {
                &&& error == Error::CannotRead
                &&& state.get.idx + 1 == state.get.layers
                &&& event is Refused
                &&& state.round.last_err is None
            },
        }),
{
    if event is Replied {
        assert(Seq::<T>::empty() + event->item =~= event->item);
    }
}

/// What each event changes of a lookup. The layer moves on by one when it is
/// done with, and back to the first when it was the last; an answer is added
/// behind what there is; the keys are those of the last answer and the error
/// is the last one, both forgotten at a poll; and only the bytes of the request
/// ever change, and only when it is made anew.
pub proof fn law_next_state<T, I, K, E>(
    state: NextView<T, I, K, E>,
    event: NextEventView<T, K, E>,
)
    requires
        0 <= state.get.idx < state.get.layers <= usize::MAX,
    ensures
        ({
            let after = state.next(event);
            let passed = event is Replied || event is Failed || event is Refused;
            let over = passed && state.get.idx + 1 == state.get.layers;
            &&& after.get.layers == state.get.layers
            &&& after.get.request.id == state.get.request.id
            &&& after.get.request.data == if event is Rebuilt {
                event->Rebuilt_0
            } else {
                state.get.request.data
            }
            &&& after.get.idx == if over {
                0
            } else if passed {
                state.get.idx + 1
            } else {
                state.get.idx
            }
            &&& over ==> after.get.response is None
            &&& !over && event is Replied ==> after.get.response == Some(
                items_of(state.get.response) + event->item,
            )
            &&& !over && !(event is Replied) ==> after.get.response == state.get.response
            &&& over || event is Polled ==> after.round.found_keys.len() == 0
                && after.round.last_err is None
            &&& !over && event is Replied ==> after.round.found_keys == event->found_keys
                && after.round.last_err == state.round.last_err
            &&& !over && event is Failed ==> after.round.found_keys == state.round.found_keys
                && after.round.last_err == Some(event->Failed_0)
            &&& !over && !(event is Polled || event is Replied || event is Failed)
                ==> after.round.found_keys == state.round.found_keys && after.round.last_err
                == state.round.last_err
        }),
{
    if event is Replied {
        assert(Seq::<T>::empty() + event->item =~= event->item);
    }
}

/// What no operation changes are the layers and the parser, each of them.
pub proof fn law_setup_is_layers_and_parser<L, P, T, I>(
    one: AsyncMultiGet<L, P, T, I>,
    other: AsyncMultiGet<L, P, T, I>,
)
    requires
        one.same_setup(&other),
    ensures
        one.all_layers().len() == other.all_layers().len(),
        forall|i: int|
            0 <= i < one.all_layers().len() ==> #[trigger] one.all_layers()[i]
                == other.all_layers()[i],
        one.parsed_by() == other.parsed_by(),
{
}

/// The invariant says that the layer that is asked exists, if there is any, and
/// that the layers are counted right; it asks for no more than that.
pub proof fn law_invariant_bounds<L, P, T, I>(get: AsyncMultiGet<L, P, T, I>)
    ensures
        get.wf() == {
            &&& get@.layers == get.all_layers().len()
            &&& get@.layers <= usize::MAX
            &&& 0 <= get@.idx
            &&& get@.idx < get@.layers || (get@.idx == 0 && get@.layers == 0)
        },
{
}

/// A fresh round remembers neither keys nor errors.
pub proof fn law_fresh_round_is_empty<K, E>()
    ensures
        multi_get::fresh_round::<K, E>().found_keys.len() == 0,
        multi_get::fresh_round::<K, E>().last_err is None,
{
}

/// The events and answers that the contracts speak of are those that are
/// passed, with the same items, keys, bytes and numbers.
pub proof fn law_events_and_answers_as_passed<T, K, E>(
    event: NextEvent<T, K, E>,
    action: NextAction<T, E>,
)
    ensures
        (match event {
            NextEvent::Polled => event@ is Polled,
            NextEvent::Pending => event@ is Pending,
            NextEvent::Replied { item, found_keys } => {
                &&& event@ is Replied
                &&& event@->item == item@
                &&& event@->found_keys == found_keys@
            },
            NextEvent::Failed(e) => event@ is Failed && event@->Failed_0 == e,
            NextEvent::Rebuilt(data) => event@ is Rebuilt && event@->Rebuilt_0 == data@,
            NextEvent::Sent => event@ is Sent,
            NextEvent::Refused => event@ is Refused,
        }),
        (match action {
            NextAction::Read { layer } => action@ is Read && action@->Read_layer == layer,
            NextAction::Rebuild => action@ is Rebuild,
            NextAction::Send { layer } => action@ is Send && action@->Send_layer == layer,
            NextAction::Return(Poll::Pending) => {
                action@ is Return && action@->Return_0 is Pending
            },
            NextAction::Return(Poll::Ready(Ok(response))) => {
                &&& action@ is Return
                &&& action@->Return_0 is Ready
                &&& action@->Return_0->Ready_0 is Ok
                &&& action@->Return_0->Ready_0->Ok_0 == response@
            },
            NextAction::Return(Poll::Ready(Err(e))) => {
                &&& action@ is Return
                &&& action@->Return_0 is Ready
                &&& action@->Return_0->Ready_0 is Err
                &&& action@->Return_0->Ready_0->Err_0 == e
            },
        }),
{
}

} // verus!
