//! Bringing the responses of a cache server back to the requests they answer.
//!
//! A [`BridgeResponseToLocal`] reads from one server into a ring buffer, cuts
//! what it read into responses, and delivers each under the next sequence
//! number. The ring buffer is its caller's: the bridge counts how many bytes
//! of the stream were written to it and how many have been delivered.
use std::sync::atomic::{AtomicBool, Ordering};
use std::sync::Arc;

use vstd::arithmetic::power2::pow2;
use vstd::prelude::*;

use crate::error::Failure;
use crate::poll::Poll;

verus! {

/// Receives the responses that a bridge has cut out of the stream.
pub trait ResponseHandler {
    /// A response as the ring buffer hands it out.
    type Response;

    /// Up to where in the stream the responses have been consumed.
    fn load_offset(&self) -> usize;

    /// Takes the response with sequence number `seq`, when it has been received
    /// and parsed.
    fn on_received(&self, seq: usize, response: Self::Response);
}

/// Reads responses from a server and delivers them in order.
pub struct BridgeResponseToLocal<R, W, P, B> {
    seq: usize,
    processed: usize,
    written: usize,
    capacity: usize,
    done: Arc<AtomicBool>,
    ends: BridgeEnds<R, W, P, B>,
}

/// What a bridge connects: the server it reads from, the handler it delivers
/// to, the parser it cuts responses with, and the builder that reconnects it.
pub struct BridgeEnds<R, W, P, B> {
    pub r: R,
    pub w: W,
    pub parser: P,
    pub builder: B,
}

/// How far a bridge has come: the sequence number of the next response, the
/// bytes delivered and the bytes received.
pub struct BridgeView {
    pub seq: int,
    pub processed: int,
    pub written: int,
    pub capacity: int,
}

/// What happened since a bridge was last told what to do.
pub enum BridgeEvent<E> {
    /// The task was polled, or is to go on reading.
    Polled,
    /// The handler has consumed the stream up to `offset`.
    Consumed { offset: usize },
    /// The ring buffer has `room` bytes to read into.
    Reserved { room: usize },
    /// The server has nothing to read yet.
    Pending,
    /// Reading failed.
    Failed(E),
    /// The server sent `n` bytes; none at the end of the stream.
    Read { n: usize },
    /// The ring buffer was told how far the bridge has come.
    Advanced,
    /// The parser looked at the bytes that are not yet delivered. It says
    /// whether they start with a whole response, and how long it is.
    Parsed { found: bool, num: usize },
}

/// What a bridge wants done next.
pub enum BridgeAction<E> {
    /// Ask the handler how far it has consumed the stream.
    LoadOffset,
    /// Release the ring buffer up to `offset` and see how much room it has.
    Reserve { offset: usize },
    /// Wait a moment for room, then go on.
    Spin,
    /// Read from the server.
    Read,
    /// Mark `n` bytes of the ring buffer as written.
    AdvanceWrite { n: usize },
    /// Parse the bytes that are not yet delivered.
    Parse,
    /// Deliver the first `num` of these bytes as response `seq`, and mark them
    /// as processed.
    Deliver { seq: usize, num: usize },
    /// Go on reading.
    Continue,
    /// Reconnect to the server and end with success.
    Reconnect,
    /// End this poll.
    Return(Poll<Result<(), Failure<E>>>),
}

impl BridgeView {
    /// The invariant: no byte is delivered before it is received.
    pub open spec fn wf(self) -> bool {
        &&& 0 <= self.seq <= usize::MAX
        &&& 0 <= self.processed <= self.written <= usize::MAX
        &&& 0 <= self.capacity <= usize::MAX
    }

    /// The events that can follow in this state. The counters do not overflow,
    /// and a response that the parser reports lies within the bytes it was
    /// shown.
    pub open spec fn admits<E>(self, event: BridgeEvent<E>) -> bool {
        match event {
            BridgeEvent::Read { n } => self.written + n <= usize::MAX,
            BridgeEvent::Parsed { found, num } => found ==> self.processed + num <= self.written
                && self.seq < usize::MAX,
            _ => true,
        }
    }

    /// The state after `event`.
    pub open spec fn next<E>(self, event: BridgeEvent<E>) -> BridgeView {
        match event {
            BridgeEvent::Read { n } => BridgeView { written: self.written + n, ..self },
            BridgeEvent::Parsed { found, num } => if found {
                BridgeView { seq: self.seq + 1, processed: self.processed + num, ..self }
            } else {
                self
            },
            _ => self,
        }
    }

    /// Whether `action` is what to do after `event`, as far as this state says.
    /// After a poll it also depends on whether the bridge has been shut down;
    /// everything else is determined.
    pub open spec fn wants<E>(self, event: BridgeEvent<E>, action: BridgeAction<E>) -> bool {
        match event {
            BridgeEvent::Polled => action is Reconnect || action is LoadOffset,
            BridgeEvent::Consumed { offset } => action == BridgeAction::<E>::Reserve { offset },
            BridgeEvent::Reserved { room } => if room == 0 {
                action is Spin
            } else {
                action is Read
            },
            BridgeEvent::Pending => action == BridgeAction::<E>::Return(Poll::Pending),
            BridgeEvent::Failed(e) => action == BridgeAction::<E>::Return(
                Poll::Ready(Err(Failure::Outside(e))),
            ),
            BridgeEvent::Read { n } => if n == 0 {
                action is Reconnect
            } else {
                action == BridgeAction::<E>::AdvanceWrite { n }
            },
            BridgeEvent::Advanced => if self.processed < self.written {
                action is Parse
            } else {
                action is Continue
            },
            BridgeEvent::Parsed { found, num } => if found {
                action == BridgeAction::<E>::Deliver { seq: self.seq as usize, num }
            } else {
                action is Continue
            },
        }
    }
}

impl<R, W, P, B> View for BridgeResponseToLocal<R, W, P, B> {
    type V = BridgeView;

    closed spec fn view(&self) -> BridgeView {
        BridgeView {
            seq: self.seq as int,
            processed: self.processed as int,
            written: self.written as int,
            capacity: self.capacity as int,
        }
    }
}

impl<R, W, P, B> BridgeResponseToLocal<R, W, P, B> {
    /// The bridge's invariant.
    pub open spec fn wf(&self) -> bool {
        self@.wf()
    }

    /// The flag that shuts the bridge down.
    pub closed spec fn flag(&self) -> Arc<AtomicBool> {
        self.done
    }

    /// Whether looking at the flag may say `done`.
    pub open spec fn flag_reads(&self, done: bool) -> bool {
        call_ensures(AtomicBool::load, (&*self.flag(), Ordering::Relaxed), done)
    }

    /// What the bridge connects.
    pub closed spec fn connected(&self) -> BridgeEnds<R, W, P, B> {
        self.ends
    }

    /// A bridge from the server behind `r` to the handler `w`, over a ring
    /// buffer of `buf` bytes, a power of two. It runs until `done` is set.
    pub fn from(r: R, w: W, parser: P, buf: usize, done: Arc<AtomicBool>, builder: B) -> (bridge:
        Self)
        requires
            exists|k: nat| buf == #[trigger] pow2(k),
        ensures
            bridge.wf(),
            bridge@ == (BridgeView { seq: 0, processed: 0, written: 0, capacity: buf as int }),
            bridge.flag() == done,
            bridge.connected() == (BridgeEnds { r, w, parser, builder }),
    {
        BridgeResponseToLocal {
            seq: 0,
            processed: 0,
            written: 0,
            capacity: buf,
            done,
            ends: BridgeEnds { r, w, parser, builder },
        }
    }

    /// What the bridge connects.
    pub fn ends(&self) -> (ends: &BridgeEnds<R, W, P, B>)
        ensures
            *ends == self.connected(),
    {
        &self.ends
    }

    /// What the bridge connects, to be worked with.
    pub fn ends_mut(&mut self) -> (ends: &mut BridgeEnds<R, W, P, B>)
        ensures
            *ends == old(self).connected(),
            final(self).connected() == *final(ends),
            final(self)@ == old(self)@,
            final(self).flag() == old(self).flag(),
    {
        &mut self.ends
    }

    /// Whether `event` can follow in this state.
    pub fn accepts<E>(&self, event: &BridgeEvent<E>) -> (accepted: bool)
        requires
            self.wf(),
        ensures
            accepted == self@.admits(*event),
    {
        match event {
            BridgeEvent::Read { n } => *n <= usize::MAX - self.written,
            BridgeEvent::Parsed { found, num } => !*found || *num <= self.written - self.processed
                && self.seq < usize::MAX,
            _ => true,
        }
    }

    /// The sequence number of the next response.
    pub fn seq(&self) -> (seq: usize)
        ensures
            seq == self@.seq,
    {
        self.seq
    }

    /// The number of bytes delivered.
    pub fn processed(&self) -> (processed: usize)
        ensures
            processed == self@.processed,
    {
        self.processed
    }

    /// The number of bytes received.
    pub fn written(&self) -> (written: usize)
        ensures
            written == self@.written,
    {
        self.written
    }

    /// The size of the ring buffer.
    pub fn capacity(&self) -> (capacity: usize)
        ensures
            capacity == self@.capacity,
    {
        self.capacity
    }

    /// Starts another round, unless the bridge is `done`: then it reconnects,
    /// and nothing else is asked for.
    pub fn resume<E>(&self, done: bool) -> (action: BridgeAction<E>)
        ensures
            done ==> action is Reconnect,
            !done ==> action is LoadOffset,
    {
        if done {
            BridgeAction::Reconnect
        } else {
            BridgeAction::LoadOffset
        }
    }

    /// Reads responses and delivers them, one step at a time.
    ///
    /// The caller reports what happened, does what the answer says, and
    /// reports again, until the answer ends the poll.
    pub fn poll<E>(&mut self, event: BridgeEvent<E>) -> (action: BridgeAction<E>)
        requires
            old(self).wf(),
            old(self)@.admits(event),
        ensures
            final(self).wf(),
            final(self)@ == old(self)@.next(event),
            old(self)@.wants(event, action),
            event is Polled ==> old(self).flag_reads(action is Reconnect),
            final(self).flag() == old(self).flag(),
            final(self).connected() == old(self).connected(),
    {
        match event {
            BridgeEvent::Polled => {
                let done: bool = self.done.load(Ordering::Relaxed);
                self.resume(done)
            },
            BridgeEvent::Consumed { offset } => BridgeAction::Reserve { offset },
            BridgeEvent::Reserved { room } => if room == 0 {
                BridgeAction::Spin
            } else {
                BridgeAction::Read
            },
            BridgeEvent::Pending => BridgeAction::Return(Poll::Pending),
            BridgeEvent::Failed(e) => BridgeAction::Return(Poll::Ready(Err(Failure::Outside(e)))),
            BridgeEvent::Read { n } => {
                if n == 0 {
                    return BridgeAction::Reconnect;
                }
                self.written = self.written + n;
                BridgeAction::AdvanceWrite { n }
            },
            BridgeEvent::Advanced => if self.processed < self.written {
                BridgeAction::Parse
            } else {
                BridgeAction::Continue
            },
            BridgeEvent::Parsed { found, num } => {
                if !found {
                    return BridgeAction::Continue;
                }
                let seq: usize = self.seq;
                self.processed = self.processed + num;
                self.seq = self.seq + 1;
                BridgeAction::Deliver { seq, num }
            },
        }
    }
}

} // verus!
