//! What holds of a receiver over any number of steps.
use vstd::arithmetic::power2::*;
use vstd::prelude::*;

use crate::error::{Error, Failure};
use crate::poll::Poll;
use crate::receiver;
use crate::receiver::{
    CopyAction, CopyActionView, CopyEvent, CopyEventView, ReceiverView, INIT_CAPACITY,
};
use crate::request::{RequestView, MAX_REQUEST_SIZE};

verus! {

/// The state that `events` lead to, one after another, from `start`.
pub open spec fn run<E>(start: ReceiverView, events: Seq<CopyEventView<E>>) -> ReceiverView
    decreases events.len(),
{
    if events.len() == 0 {
        start
    } else {
        run(start, events.drop_last()).next(events.last())
    }
}

/// Whether each of `events` can follow the ones before it.
pub open spec fn admissible<E>(start: ReceiverView, events: Seq<CopyEventView<E>>) -> bool
    decreases events.len(),
{
    events.len() > 0 ==> {
        &&& admissible(start, events.drop_last())
        &&& run(start, events.drop_last()).admits(events.last())
    }
}

/// All bytes that were read, in order.
pub open spec fn received<E>(events: Seq<CopyEventView<E>>) -> Seq<u8>
    decreases events.len(),
{
    if events.len() == 0 {
        Seq::empty()
    } else {
        received(events.drop_last()) + match events.last() {
            CopyEventView::Read(data) => data,
            _ => Seq::empty(),
        }
    }
}

/// All bytes of the requests that were written, in order.
pub open spec fn forwarded<E>(start: ReceiverView, events: Seq<CopyEventView<E>>) -> Seq<u8>
    decreases events.len(),
{
    if events.len() == 0 {
        Seq::empty()
    } else {
        forwarded(start, events.drop_last()) + match events.last() {
            CopyEventView::Written => run(start, events.drop_last()).request(),
            _ => Seq::empty(),
        }
    }
}

/// Every step keeps the invariant, never shrinks the buffer, and adds or
/// removes pending bytes only as the event says: bytes read join at the end,
/// a written request leaves from the front, and nothing else changes them.
pub proof fn law_step<E>(state: ReceiverView, event: CopyEventView<E>)
    requires
        state.wf(),
        state.admits(event),
    ensures
        state.next(event).wf(),
        state.next(event).cap >= state.cap,
        match event {
            CopyEventView::Read(data) => state.next(event).pending() == state.pending() + data,
            CopyEventView::Written => state.pending() == state.request() + state.next(
                event,
            ).pending(),
            _ => state.next(event).pending() == state.pending(),
        },
{
    receiver::lemma_capacity_at_least_initial(state.cap);
    match event {
        CopyEventView::Polled => {
            if state.cap < MAX_REQUEST_SIZE {
                receiver::lemma_capacity_doubles(state.cap);
            }
            assert(state.next(event).pending() =~= state.pending());
        },
        CopyEventView::Read(data) => {
            assert(state.next(event).pending() =~= state.pending() + data);
        },
        CopyEventView::Written => {
            assert(state.pending() =~= state.request() + state.next(event).pending());
        },
        _ => {},
    }
}

/// A request that the parser reports complete is made of the first pending
/// bytes, and those are the bytes that the writer is then given.
pub proof fn law_request_leads_pending<I, E>(state: ReceiverView, rid: I, read: int, n: int)
    requires
        state.wf(),
        state.admits(CopyEventView::<E>::Parsed { read, parsed: true, n }),
    ensures
        state.next(CopyEventView::<E>::Parsed { read, parsed: true, n }).action::<I, E>(
            rid,
            CopyEventView::Polled,
        ) == CopyActionView::<I, E>::Write(
            RequestView { data: state.pending().take(n), id: rid },
        ),
{
    let after = state.next(CopyEventView::<E>::Parsed { read, parsed: true, n });
    assert(after.request() =~= state.pending().take(n));
}

/// No byte is lost, duplicated or reordered: whatever was pending and whatever
/// was read since is what has been forwarded followed by what is pending now.
/// On the way the invariant is kept and the buffer never shrinks.
pub proof fn law_stream_is_preserved<E>(start: ReceiverView, events: Seq<CopyEventView<E>>)
    requires
        start.wf(),
        admissible(start, events),
    ensures
        run(start, events).wf(),
        run(start, events).cap >= start.cap,
        start.pending() + received(events) == forwarded(start, events) + run(
            start,
            events,
        ).pending(),
    decreases events.len(),
{
    if events.len() == 0 {
        assert(start.pending() + received(events) =~= forwarded(start, events) + run(
            start,
            events,
        ).pending());
    } else {
        let before = events.drop_last();
        let state = run(start, before);
        law_stream_is_preserved(start, before);
        law_step(state, events.last());
        assert(start.pending() + received(events) =~= (start.pending() + received(before))
            + match events.last() {
            CopyEventView::Read(data) => data,
            _ => Seq::empty(),
        });
        assert(start.pending() + received(events) =~= forwarded(start, events) + run(
            start,
            events,
        ).pending());
    }
}

/// A receiver that starts out empty forwards what it read, in order: the bytes
/// of the written requests are the first of the bytes received.
pub proof fn law_forwards_what_it_reads<E>(events: Seq<CopyEventView<E>>)
    requires
        admissible(receiver::initial_receiver(), events),
    ensures
        forwarded(receiver::initial_receiver(), events) == received(events).take(
            forwarded(receiver::initial_receiver(), events).len() as int,
        ),
        received(events).len() == forwarded(receiver::initial_receiver(), events).len() + run(
            receiver::initial_receiver(),
            events,
        ).pending().len(),
{
    receiver::lemma_initial_capacity();
    let start = receiver::initial_receiver();
    law_stream_is_preserved(start, events);
    assert(start.pending() =~= Seq::<u8>::empty());
    assert(received(events) =~= start.pending() + received(events));
    assert(forwarded(start, events) =~= (forwarded(start, events) + run(
        start,
        events,
    ).pending()).take(forwarded(start, events).len() as int));
}

/// A request is refused exactly when it is not complete after as many bytes as
/// the largest request may have.
pub proof fn law_refuses_only_oversized_requests<I, E>(state: ReceiverView, rid: I)
    requires
        state.wf(),
    ensures
        (state.action::<I, E>(rid, CopyEventView::Polled) == CopyActionView::<I, E>::Return(
            Poll::Ready(Err(Failure::Own(Error::RequestTooLarge))),
        )) <==> !state.parsed && state.pending().len() == MAX_REQUEST_SIZE,
{
    receiver::lemma_capacity_at_least_initial(state.cap);
}

/// A receiver only asks for bytes when it has room for at least one, so an
/// empty read always means that the client closed the stream.
pub proof fn law_reads_into_room<I, E>(state: ReceiverView, rid: I)
    requires
        state.wf(),
    ensures
        state.action::<I, E>(rid, CopyEventView::Polled) matches CopyActionView::Read { room }
            ==> room > 0,
{
    receiver::lemma_capacity_at_least_initial(state.cap);
}

/// Waiting and failing change nothing, and polling again asks for the same
/// again. In particular a request that could not be written yet is offered
/// again with the same bytes.
pub proof fn law_repolls_alike<I, E>(state: ReceiverView, rid: I, e: E)
    requires
        state.wf(),
    ensures
        state.next(CopyEventView::<E>::Pending) == state,
        state.next(CopyEventView::Failed(e)) == state,
        state.polled().next(CopyEventView::<E>::Polled) == state.polled(),
        state.polled().action::<I, E>(rid, CopyEventView::Polled) == state.action::<I, E>(
            rid,
            CopyEventView::Polled,
        ),
{
    receiver::lemma_capacity_at_least_initial(state.cap);
}

/// Whoever does what a receiver asks can always report it: bytes that fit the
/// room that was offered, a request within the pending bytes, and that the
/// request was written.
pub proof fn law_answers_can_be_followed<I, E>(
    state: ReceiverView,
    rid: I,
    event: CopyEventView<E>,
    data: Seq<u8>,
    n: int,
)
    requires
        state.wf(),
        state.admits(event),
    ensures
        ({
            let action = state.action::<I, E>(rid, event);
            let after = state.next(event);
            &&& action is Read && data.len() <= action->room ==> after.admits(
                CopyEventView::<E>::Read(data),
            )
            &&& action is Parse && 0 <= n <= after.pending().len() ==> after.admits(
                CopyEventView::<E>::Parsed { read: action->read, parsed: true, n },
            ) && after.admits(
                CopyEventView::<E>::Parsed { read: action->read, parsed: false, n },
            )
            &&& action is Write ==> after.admits(CopyEventView::<E>::Written)
        }),
{
    law_step(state, event);
    receiver::lemma_capacity_at_least_initial(state.next(event).cap);
}

/// Asking for room never touches the pending bytes, whether it is granted or
/// not; where it is granted, there is room for at least one more byte.
pub proof fn law_room_keeps_pending(state: ReceiverView)
    requires
        state.is_full(),
        state.cap > 0,
    ensures
        ({
            let after = if state.can_extend() {
                state.extended()
            } else {
                state
            };
            &&& after.pending() == state.pending()
            &&& after.w - after.r == state.w - state.r
            &&& state.can_extend() ==> after.w < after.cap == after.buff.len()
        }),
{
    if state.can_extend() {
        assert(state.extended().pending() =~= state.pending());
    }
}

/// The capacity grows only where no consumed bytes can be dropped instead. It
/// then doubles, and never exceeds the largest request size.
pub proof fn law_room_is_made_as_needed(state: ReceiverView)
    requires
        state.wf(),
        state.is_full(),
        state.can_extend(),
    ensures
        state.extended().cap == if state.r > 0 {
            state.cap
        } else {
            2 * state.cap
        },
        state.extended().cap <= MAX_REQUEST_SIZE,
{
    receiver::lemma_capacity_at_least_initial(state.cap);
    if state.r == 0 {
        receiver::lemma_capacity_doubles(state.cap);
        receiver::lemma_capacity_at_least_initial(2 * state.cap);
    }
}

/// The state of a fresh receiver that was filled up and asked for room `count`
/// times, without consuming anything.
pub open spec fn after_growths(count: nat) -> ReceiverView
    decreases count,
{
    if count == 0 {
        receiver::initial_receiver()
    } else {
        let before = after_growths((count - 1) as nat);
        let full = ReceiverView { w: before.cap, ..before };
        if full.can_extend() {
            full.extended()
        } else {
            full
        }
    }
}

/// From the initial capacity nine doublings reach the largest request size.
/// Every growth up to there succeeds, and every later one is refused and leaves
/// the capacity as it is.
pub proof fn law_growth_reaches_the_limit(count: nat)
    ensures
        after_growths(count).r == 0,
        after_growths(count).buff.len() == after_growths(count).cap,
        count <= 9 ==> after_growths(count).cap == INIT_CAPACITY * pow2(count),
        count >= 9 ==> after_growths(count).cap == MAX_REQUEST_SIZE,
        after_growths(count).can_extend() == (count < 9),
    decreases count,
{
    lemma2_to64();
    if count > 0 {
        law_growth_reaches_the_limit((count - 1) as nat);
        if count <= 9 {
            lemma_pow2_unfold(count);
            if count < 9 {
                lemma_pow2_strictly_increases(count, 9);
            }
        }
    }
}

/// Rewinding twice is rewinding once.
pub proof fn law_reset_settles(state: ReceiverView)
    ensures
        state.rewound().rewound() == state.rewound(),
{
}

/// A fresh receiver is empty: 2048 zero bytes, nothing received, nothing
/// parsed, and it is well-formed.
pub proof fn law_starts_empty()
    ensures
        receiver::initial_receiver().wf(),
        receiver::initial_receiver().r == 0,
        receiver::initial_receiver().w == 0,
        receiver::initial_receiver().idx == 0,
        !receiver::initial_receiver().parsed,
        receiver::initial_receiver().cap == 2048,
        receiver::initial_receiver().buff.len() == 2048,
        forall|i: int|
            0 <= i < 2048 ==> #[trigger] receiver::initial_receiver().buff[i] == 0u8,
{
    receiver::lemma_initial_capacity();
}

/// What the invariant gives: the cursors lie in order within the buffer, whose
/// size is between 2 KB and 1 MB, consumed bytes leave empty cursors at the
/// front, and a parsed request lies within what was received.
pub proof fn law_invariant_bounds(state: ReceiverView)
    requires
        state.wf(),
    ensures
        0 <= state.r <= state.w <= state.cap,
        state.cap == state.buff.len(),
        2048 <= state.cap <= 1024 * 1024,
        state.r < state.w || (state.r == 0 && state.w == 0),
        state.parsed ==> state.r <= state.idx <= state.w,
{
    receiver::lemma_capacity_at_least_initial(state.cap);
}

/// The pending bytes are those from the read cursor up to the write cursor, and
/// a request those from the read cursor up to its end, byte by byte.
pub proof fn law_bytes_by_position(state: ReceiverView)
    requires
        0 <= state.r <= state.w <= state.buff.len(),
    ensures
        state.pending().len() == state.w - state.r,
        forall|i: int|
            0 <= i < state.w - state.r ==> #[trigger] state.pending()[i] == state.buff[state.r + i],
        state.r <= state.idx <= state.buff.len() ==> state.request().len() == state.idx - state.r,
        state.r <= state.idx <= state.buff.len() ==> forall|i: int|
            0 <= i < state.idx - state.r ==> #[trigger] state.request()[i] == state.buff[state.r
                + i],
{
}

/// When each answer is given, and what it says. A poll succeeds only when a
/// request was written, waits only when someone had to wait, and fails only
/// with the error it was told or because 1 MB is pending without a request. A
/// request that is offered to the writer is the parsed one, byte by byte. The
/// room offered to the reader is what is free, or what dropping the consumed
/// bytes or doubling the buffer makes free.
pub proof fn law_when_each_answer_is_given<I, E>(
    state: ReceiverView,
    rid: I,
    event: CopyEventView<E>,
)
    requires
        state.wf(),
        state.admits(event),
    ensures
        (match state.action::<I, E>(rid, event) {
            CopyActionView::Return(Poll::Pending) => event is Pending,
            CopyActionView::Return(Poll::Ready(Ok(()))) => event is Written,
            CopyActionView::Return(Poll::Ready(Err(Failure::Outside(e)))) => {
                event is Failed && event->Failed_0 == e
            },
            CopyActionView::Return(Poll::Ready(Err(Failure::Own(error)))) => {
                &&& error == Error::RequestTooLarge
                &&& event is Polled
                &&& !state.parsed
                &&& state.w - state.r == 1024 * 1024
            },
            CopyActionView::Read { room } => {
                &&& event is Polled
                &&& !state.parsed
                &&& state.w - state.r < 1024 * 1024
                &&& room == if state.w < state.cap {
                    state.cap - state.w
                } else if state.r > 0 {
                    state.r
                } else {
                    state.cap
                }
            },
            CopyActionView::Write(request) => {
                &&& event is Polled
                &&& state.parsed
                &&& request.id == rid
                &&& request.data.len() == state.idx - state.r
                &&& forall|i: int|
                    0 <= i < request.data.len() ==> #[trigger] request.data[i]
                        == state.buff[state.r + i]
            },
            CopyActionView::Parse { read } => {
                &&& event is Read
                &&& event->Read_0.len() == read
                &&& read > 0
            },
            CopyActionView::Close { left } => {
                &&& event is Read
                &&& event->Read_0.len() == 0
                &&& left == state.w - state.r
            },
            CopyActionView::Record { received, done } => {
                &&& event is Parsed
                &&& received == event->read
                &&& (done is Some) == event->parsed
                &&& done is Some ==> done->0 == event->n
            },
        }),
{
    receiver::lemma_capacity_at_least_initial(state.cap);
    if state.cap < MAX_REQUEST_SIZE {
        receiver::lemma_capacity_doubles(state.cap);
        receiver::lemma_capacity_at_least_initial(2 * state.cap);
    }
}

/// What each event changes, cursor by cursor and byte by byte, and that it
/// changes nothing else.
pub proof fn law_what_each_event_changes<E>(state: ReceiverView, event: CopyEventView<E>)
    requires
        state.wf(),
        state.admits(event),
    ensures
        ({
            let after = state.next(event);
            match event {
                CopyEventView::Pending => after == state,
                CopyEventView::Failed(_) => after == state,
                CopyEventView::Polled => {
                    &&& after.parsed == state.parsed
                    &&& after.idx == state.idx
                    &&& after.buff.len() == after.cap
                    &&& after.w - after.r == state.w - state.r
                    &&& forall|i: int|
                        0 <= i < state.w - state.r ==> #[trigger] after.buff[after.r + i]
                            == state.buff[state.r + i]
                    &&& state.parsed || state.w < state.cap ==> after == state
                    &&& state.w - state.r == 1024 * 1024 ==> after == state
                    &&& !state.parsed && state.w == state.cap && state.r > 0 ==> {
                        &&& after.r == 0
                        &&& after.cap == state.cap
                    }
                    &&& !state.parsed && state.w == state.cap && state.r == 0 && state.cap < 1024
                        * 1024 ==> {
                        &&& after.r == 0
                        &&& after.cap == 2 * state.cap
                    }
                },
                CopyEventView::Read(data) => {
                    &&& after.r == state.r
                    &&& after.cap == state.cap
                    &&& after.parsed == state.parsed
                    &&& after.idx == state.idx
                    &&& after.w == state.w + data.len()
                    &&& after.buff.len() == state.buff.len()
                    &&& forall|i: int|
                        0 <= i < state.buff.len() ==> #[trigger] after.buff[i] == if state.w <= i
                            < state.w + data.len() {
                            data[i - state.w]
                        } else {
                            state.buff[i]
                        }
                },
                CopyEventView::Parsed { read, parsed, n } => {
                    &&& after.r == state.r
                    &&& after.w == state.w
                    &&& after.cap == state.cap
                    &&& after.buff == state.buff
                    &&& after.parsed == parsed
                    &&& after.idx == state.r + n
                },
                CopyEventView::Written => {
                    &&& after.cap == state.cap
                    &&& after.buff == state.buff
                    &&& !after.parsed
                    &&& after.idx == 0
                    &&& state.idx == state.w ==> after.r == 0 && after.w == 0
                    &&& state.idx < state.w ==> after.r == state.idx && after.w == state.w
                },
            }
        }),
{
    receiver::lemma_capacity_at_least_initial(state.cap);
    if state.cap < MAX_REQUEST_SIZE {
        receiver::lemma_capacity_doubles(state.cap);
        receiver::lemma_capacity_at_least_initial(2 * state.cap);
    }
}

/// Which events a receiver takes: any poll, wait or failure; bytes as long as
/// no request is complete, and no more than are free; what the parser says
/// under the same condition, of no more bytes than it was shown; and a written
/// request once there is one.
pub proof fn law_which_events_are_taken<E>(state: ReceiverView, event: CopyEventView<E>)
    ensures
        state.admits(event) == (match event {
            CopyEventView::Polled => true,
            CopyEventView::Pending => true,
            CopyEventView::Failed(_) => true,
            CopyEventView::Read(data) => !state.parsed && state.w + data.len() <= state.cap,
            CopyEventView::Parsed { read, parsed, n } => {
                &&& !state.parsed
                &&& n >= 0
                &&& parsed ==> n <= state.w - state.r
                &&& !parsed ==> state.r + n <= usize::MAX
            },
            CopyEventView::Written => state.parsed,
        }),
{
}

/// Moving the pending bytes puts them at the front in their order, leaves the
/// bytes behind them as they were, and changes nothing else.
pub proof fn law_moving_shifts_bytes(state: ReceiverView)
    requires
        0 < state.r < state.w <= state.buff.len(),
    ensures
        state.moved().r == 0,
        state.moved().w == state.w - state.r,
        state.moved().cap == state.cap,
        state.moved().parsed == state.parsed,
        state.moved().idx == state.idx,
        state.moved().buff.len() == state.buff.len(),
        forall|i: int|
            0 <= i < state.buff.len() ==> #[trigger] state.moved().buff[i] == if i < state.w
                - state.r {
                state.buff[i + state.r]
            } else {
                state.buff[i]
            },
{
}

/// Room is refused to a full buffer exactly when nothing of it is consumed and
/// it has 1 MB or more. Where consumed bytes are dropped the buffer keeps its
/// size; where it grows, it doubles up to 1 MB, keeps every byte and cursor,
/// and is zero behind them.
pub proof fn law_making_room(state: ReceiverView)
    requires
        state.is_full(),
        state.cap > 0,
    ensures
        state.can_extend() == (state.r > 0 || state.cap < 1024 * 1024),
        state.r > 0 ==> state.extended() == state.moved(),
        state.r == 0 && state.cap < 1024 * 1024 ==> ({
            let after = state.extended();
            &&& after.r == 0
            &&& after.w == state.w
            &&& after.parsed == state.parsed
            &&& after.idx == state.idx
            &&& after.cap == after.buff.len()
            &&& after.cap == 2 * state.cap || (after.cap == 1024 * 1024 && 2 * state.cap > 1024
                * 1024)
            &&& forall|i: int|
                0 <= i < after.buff.len() ==> #[trigger] after.buff[i] == if i < state.cap {
                    state.buff[i]
                } else {
                    0u8
                }
        }),
{
}

/// A reset forgets the request and nothing that was received: the buffer and
/// its size stay, and so do the cursors, unless they have met, when both go
/// back to the front.
pub proof fn law_reset_forgets_the_request(state: ReceiverView)
    ensures
        !state.rewound().parsed,
        state.rewound().idx == 0,
        state.rewound().cap == state.cap,
        state.rewound().buff == state.buff,
        state.r != state.w ==> state.rewound().r == state.r && state.rewound().w == state.w,
        state.r == state.w ==> state.rewound().r == 0 && state.rewound().w == 0,
        state.rewound().w - state.rewound().r == state.w - state.r,
{
}

/// The events and answers that the contracts speak of are those that are
/// passed, with the same bytes and numbers.
pub proof fn law_events_and_answers_as_passed<'a, I, E>(
    event: CopyEvent<'a, E>,
    action: CopyAction<I, E>,
)
    ensures
        (match event {
            CopyEvent::Polled => event@ is Polled,
            CopyEvent::Pending => event@ is Pending,
            CopyEvent::Failed(e) => event@ is Failed && event@->Failed_0 == e,
            CopyEvent::Read(data) => event@ is Read && event@->Read_0 == data@,
            CopyEvent::Parsed { read, parsed, n } => {
                &&& event@ is Parsed
                &&& event@->read == read
                &&& event@->parsed == parsed
                &&& event@->n == n
            },
            CopyEvent::Written => event@ is Written,
        }),
        (match action {
            CopyAction::Read { room } => action@ is Read && action@->room == room,
            CopyAction::Parse { read } => action@ is Parse && action@->read == read,
            CopyAction::Record { received, done } => {
                &&& action@ is Record
                &&& action@->received == received
                &&& (action@->done is Some) == (done is Some)
                &&& done is Some ==> action@->done->0 == done->0
            },
            CopyAction::Write(request) => action@ is Write && action@->Write_0 == request@,
            CopyAction::Close { left } => action@ is Close && action@->left == left,
            CopyAction::Return(poll) => action@ is Return && action@->Return_0 == poll,
        }),
{
}

/// The invariant asks for no more than that: a buffer of 2 KB doubled up to
/// nine times, cursors in order that have not met but at the front, and a
/// parsed request within what was received. A receiver whose cursors have met
/// elsewhere, or whose request is forgotten, is so after a reset.
pub proof fn law_such_states_are_well_formed(state: ReceiverView, doublings: nat)
    requires
        doublings <= 9,
        state.cap == 2048 * pow2(doublings),
        state.buff.len() == state.cap,
        0 <= state.r <= state.w <= state.cap,
        0 <= state.idx <= usize::MAX,
    ensures
        state.in_bounds(),
        state.rewound().wf(),
        (state.r < state.w || state.w == 0) && (state.parsed ==> state.r <= state.idx <= state.w)
            ==> state.wf(),
{
    lemma2_to64();
    if doublings < 9 {
        lemma_pow2_strictly_increases(doublings, 9);
    }
    assert(state.cap == INIT_CAPACITY * pow2(doublings) && state.cap <= MAX_REQUEST_SIZE);
}

/// A buffer is full when its last byte is written, with some of it not yet
/// consumed.
pub proof fn law_when_a_buffer_is_full(state: ReceiverView)
    ensures
        state.is_full() == (state.w == state.cap && state.w == state.buff.len() && state.r >= 0 && (
        state.r == 0 || state.r < state.w)),
{
}

} // verus!
