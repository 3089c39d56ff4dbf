//! Receiving requests from a client.
//!
//! A [`Receiver`] buffers what the client sends until the parser recognises a
//! request at the front, hands that request on, and goes on with the bytes
//! behind it.
use vstd::arithmetic::power2::*;
use vstd::prelude::*;
use vstd::slice::slice_subrange;

use crate::error::{Error, Failure};
use crate::poll::Poll;
use crate::request::{Request, RequestView, MAX_REQUEST_SIZE};

verus! {

/// The capacity that a receiver starts with, in bytes.
pub const INIT_CAPACITY: usize = 2048;

/// Buffers the bytes of a client until they make up a request.
pub struct Receiver {
    // where the current request starts
    r: usize,
    // where the next byte goes
    w: usize,
    cap: usize,
    buff: Vec<u8>,
    parsed: bool,
    // where the current request ends, once it is parsed
    idx: usize,
}

/// The state of a receiver.
#[verifier::ext_equal]
pub struct ReceiverView {
    pub r: int,
    pub w: int,
    pub cap: int,
    pub buff: Seq<u8>,
    pub parsed: bool,
    pub idx: int,
}

/// Whether `cap` is the initial capacity, doubled any number of times, within
/// the largest request size.
pub open spec fn is_capacity(cap: int) -> bool {
    exists|doublings: nat|
        cap == INIT_CAPACITY * #[trigger] pow2(doublings) && cap <= MAX_REQUEST_SIZE
}

/// What happened since a receiver was last told what to do.
pub enum CopyEvent<'a, E> {
    /// The task was polled, or finished what it had been told to record.
    Polled,
    /// The reader or the writer has to wait.
    Pending,
    /// The reader, the parser or the writer failed.
    Failed(E),
    /// The reader delivered these bytes; none at the end of the stream.
    Read(&'a [u8]),
    /// The parser looked at the pending bytes, of which `read` arrived last.
    /// It says whether they start with a whole request, and how long it is.
    Parsed { read: usize, parsed: bool, n: usize },
    /// The writer took the request.
    Written,
}

/// The contents of a [`CopyEvent`].
#[verifier::ext_equal]
pub enum CopyEventView<E> {
    Polled,
    Pending,
    Failed(E),
    Read(Seq<u8>),
    Parsed { read: int, parsed: bool, n: int },
    Written,
}

impl<'a, E> View for CopyEvent<'a, E> {
    type V = CopyEventView<E>;

    open spec fn view(&self) -> CopyEventView<E> {
        match *self {
            CopyEvent::Polled => CopyEventView::Polled,
            CopyEvent::Pending => CopyEventView::Pending,
            CopyEvent::Failed(e) => CopyEventView::Failed(e),
            CopyEvent::Read(data) => CopyEventView::Read(data@),
            CopyEvent::Parsed { read, parsed, n } => CopyEventView::Parsed {
                read: read as int,
                parsed,
                n: n as int,
            },
            CopyEvent::Written => CopyEventView::Written,
        }
    }
}

/// What a receiver wants done next.
pub enum CopyAction<I, E> {
    /// Read at most `room` bytes from the client.
    Read { room: usize },
    /// Parse the pending bytes, of which `read` just arrived.
    Parse { read: usize },
    /// Count `received` bytes and, where a request is complete, the request
    /// with its size; then go on.
    Record { received: usize, done: Option<usize> },
    /// Write this request.
    Write(Request<I>),
    /// Clear the counters and end: the client has closed the stream, with
    /// `left` bytes of an unfinished request.
    Close { left: usize },
    /// End this poll.
    Return(Poll<Result<(), Failure<E>>>),
}

/// The contents of a [`CopyAction`].
#[verifier::ext_equal]
pub enum CopyActionView<I, E> {
    Read { room: int },
    Parse { read: int },
    Record { received: int, done: Option<int> },
    Write(RequestView<I>),
    Close { left: int },
    Return(Poll<Result<(), Failure<E>>>),
}

impl<I, E> View for CopyAction<I, E> {
    type V = CopyActionView<I, E>;

    open spec fn view(&self) -> CopyActionView<I, E> {
        match *self {
            CopyAction::Read { room } => CopyActionView::Read { room: room as int },
            CopyAction::Parse { read } => CopyActionView::Parse { read: read as int },
            CopyAction::Record { received, done } => CopyActionView::Record {
                received: received as int,
                done: match done {
                    Some(size) => Some(size as int),
                    None => None,
                },
            },
            CopyAction::Write(request) => CopyActionView::Write(request@),
            CopyAction::Close { left } => CopyActionView::Close { left: left as int },
            CopyAction::Return(poll) => CopyActionView::Return(poll),
        }
    }
}

/// The state of a fresh receiver.
pub open spec fn initial_receiver() -> ReceiverView {
    ReceiverView {
        r: 0,
        w: 0,
        cap: INIT_CAPACITY as int,
        buff: Seq::new(INIT_CAPACITY as nat, |i: int| 0u8),
        parsed: false,
        idx: 0,
    }
}

impl ReceiverView {
    /// The cursors lie within the buffer, in order.
    pub open spec fn in_bounds(self) -> bool {
        &&& is_capacity(self.cap)
        &&& self.buff.len() == self.cap
        &&& 0 <= self.r <= self.w <= self.cap
        &&& 0 <= self.idx <= usize::MAX
    }

    /// The invariant: once everything is consumed the cursors are back at the
    /// front, and a parsed request lies within the bytes received.
    pub open spec fn wf(self) -> bool {
        &&& self.in_bounds()
        &&& self.r == self.w ==> self.w == 0
        &&& self.parsed ==> self.r <= self.idx <= self.w
    }

    /// The bytes received and not yet handed on.
    pub open spec fn pending(self) -> Seq<u8> {
        self.buff.subrange(self.r, self.w)
    }

    /// The bytes of the current request.
    pub open spec fn request(self) -> Seq<u8> {
        self.buff.subrange(self.r, self.idx)
    }

    /// The state with the pending bytes moved to the front of the buffer.
    pub open spec fn moved(self) -> ReceiverView {
        ReceiverView {
            r: 0,
            w: self.w - self.r,
            buff: self.pending() + self.buff.skip(self.w - self.r),
            ..self
        }
    }

    /// The state with a buffer of twice the capacity, but not more than the
    /// largest request size.
    pub open spec fn grown(self) -> ReceiverView {
        let cap = if 2 * self.cap < MAX_REQUEST_SIZE {
            2 * self.cap
        } else {
            MAX_REQUEST_SIZE as int
        };
        ReceiverView {
            cap,
            buff: self.buff + Seq::new((cap - self.cap) as nat, |i: int| 0u8),
            ..self
        }
    }

    /// Whether the buffer is full: every byte of it is written, and not all of
    /// them are consumed.
    pub open spec fn is_full(self) -> bool {
        &&& self.w == self.cap == self.buff.len()
        &&& self.r == 0 || 0 < self.r < self.w
    }

    /// Whether a full buffer can be given room: consumed bytes can be dropped
    /// from the front, or the capacity can still grow.
    pub open spec fn can_extend(self) -> bool {
        self.r > 0 || self.cap < MAX_REQUEST_SIZE
    }

    /// The state of a full buffer that was given room.
    pub open spec fn extended(self) -> ReceiverView {
        if self.r > 0 {
            self.moved()
        } else {
            self.grown()
        }
    }

    /// The state that awaits the next request.
    pub open spec fn rewound(self) -> ReceiverView {
        let drained = self.w == self.r;
        ReceiverView {
            r: if drained { 0 } else { self.r },
            w: if drained { 0 } else { self.w },
            idx: 0,
            parsed: false,
            ..self
        }
    }

    /// The state after `data` was read to the end of the pending bytes.
    pub open spec fn filled(self, data: Seq<u8>) -> ReceiverView {
        ReceiverView {
            w: self.w + data.len(),
            buff: self.buff.take(self.w) + data + self.buff.skip(self.w + data.len()),
            ..self
        }
    }

    /// The events that can follow in this state. Bytes arrive while no request
    /// is complete, and within the room there is; a request that the parser
    /// reports lies within the bytes it was shown; and only a complete request
    /// is ever written.
    pub open spec fn admits<E>(self, event: CopyEventView<E>) -> bool {
        match event {
            CopyEventView::Read(data) => !self.parsed && data.len() <= self.cap - self.w,
            CopyEventView::Parsed { read, parsed, n } => {
                &&& !self.parsed
                &&& 0 <= n
                &&& self.r + n <= if parsed {
                    self.w
                } else {
                    usize::MAX as int
                }
            },
            CopyEventView::Written => self.parsed,
            _ => true,
        }
    }

    /// Whether a request that does not fit the largest buffer is refused when
    /// this state is polled.
    pub open spec fn refuses(self) -> bool {
        !self.parsed && self.w == self.cap && !self.can_extend()
    }

    /// The state when it is polled: a full buffer is given room if it can be.
    pub open spec fn polled(self) -> ReceiverView {
        if !self.parsed && self.w == self.cap && self.can_extend() {
            self.extended()
        } else {
            self
        }
    }

    /// The state after `event`.
    pub open spec fn next<E>(self, event: CopyEventView<E>) -> ReceiverView {
        match event {
            CopyEventView::Polled => self.polled(),
            CopyEventView::Pending => self,
            CopyEventView::Failed(_) => self,
            CopyEventView::Read(data) => self.filled(data),
            CopyEventView::Parsed { read, parsed, n } => ReceiverView {
                parsed,
                idx: self.r + n,
                ..self
            },
            CopyEventView::Written => (ReceiverView { r: self.idx, ..self }).rewound(),
        }
    }

    /// What to do after `event`, for a request tracked by `rid`.
    pub open spec fn action<I, E>(self, rid: I, event: CopyEventView<E>) -> CopyActionView<I, E> {
        match event {
            CopyEventView::Polled => if self.refuses() {
                CopyActionView::Return(Poll::Ready(Err(Failure::Own(Error::RequestTooLarge))))
            } else if self.parsed {
                CopyActionView::Write(RequestView { data: self.request(), id: rid })
            } else {
                CopyActionView::Read { room: self.polled().cap - self.polled().w }
            },
            CopyEventView::Pending => CopyActionView::Return(Poll::Pending),
            CopyEventView::Failed(e) => CopyActionView::Return(
                Poll::Ready(Err(Failure::Outside(e))),
            ),
            CopyEventView::Read(data) => if data.len() == 0 {
                CopyActionView::Close { left: self.w - self.r }
            } else {
                CopyActionView::Parse { read: data.len() as int }
            },
            CopyEventView::Parsed { read, parsed, n } => CopyActionView::Record {
                received: read,
                done: if parsed {
                    Some(n)
                } else {
                    None
                },
            },
            CopyEventView::Written => CopyActionView::Return(Poll::Ready(Ok(()))),
        }
    }
}

impl View for Receiver {
    type V = ReceiverView;

    closed spec fn view(&self) -> ReceiverView {
        ReceiverView {
            r: self.r as int,
            w: self.w as int,
            cap: self.cap as int,
            buff: self.buff@,
            parsed: self.parsed,
            idx: self.idx as int,
        }
    }
}

/// The initial capacity is a permitted one.
pub(crate) proof fn lemma_initial_capacity()
    ensures
        is_capacity(INIT_CAPACITY as int),
{
    lemma2_to64();
    assert(INIT_CAPACITY as int == INIT_CAPACITY * pow2(0));
}

/// A capacity below the largest request size can be doubled.
pub(crate) proof fn lemma_capacity_doubles(cap: int)
    requires
        is_capacity(cap),
        cap < MAX_REQUEST_SIZE,
    ensures
        is_capacity(2 * cap),
{
    let k = choose|k: nat| cap == INIT_CAPACITY * #[trigger] pow2(k) && cap <= MAX_REQUEST_SIZE;
    lemma2_to64();
    if k >= 9 {
        if k > 9 {
            lemma_pow2_strictly_increases(9, k);
        }
        assert(false);
    }
    lemma_pow2_unfold(k + 1);
    if k < 8 {
        lemma_pow2_strictly_increases(k, 8);
    }
    assert(2 * cap == INIT_CAPACITY * pow2(k + 1));
}

/// A capacity is at least the initial one.
pub(crate) proof fn lemma_capacity_at_least_initial(cap: int)
    requires
        is_capacity(cap),
    ensures
        INIT_CAPACITY <= cap <= MAX_REQUEST_SIZE,
{
    let k = choose|k: nat| cap == INIT_CAPACITY * #[trigger] pow2(k) && cap <= MAX_REQUEST_SIZE;
    lemma_pow2_pos(k);
}

impl Receiver {
    /// The receiver's invariant.
    pub open spec fn wf(&self) -> bool {
        self@.wf()
    }

    /// An empty receiver.
    pub fn new() -> (receiver: Self)
        ensures
            receiver.wf(),
            receiver@ == initial_receiver(),
    {
        proof {
            lemma_initial_capacity();
        }
        Receiver {
            buff: vec![0; INIT_CAPACITY],
            w: 0,
            cap: INIT_CAPACITY,
            r: 0,
            parsed: false,
            idx: 0,
        }
    }

    /// Forgets the current request; rewinds the cursors when nothing is left.
    pub fn reset(&mut self)
        ensures
            final(self)@ == old(self)@.rewound(),
            old(self)@.in_bounds() ==> final(self).wf(),
    {
        if self.w == self.r {
            self.r = 0;
            self.w = 0;
        }
        self.idx = 0;
        self.parsed = false;
    }

    /// Makes room in a full buffer. Consumed bytes are dropped from the front
    /// where there are any, as happens when a client sends one request behind
    /// another. Otherwise the capacity is doubled, up to the largest request
    /// size, at which extending fails.
    pub fn extends(&mut self) -> (result: Result<(), Error>)
        requires
            old(self)@.is_full(),
        ensures
            match result {
                Ok(()) => old(self)@.can_extend() && final(self)@ == old(self)@.extended(),
                Err(error) => !old(self)@.can_extend() && *final(self) == *old(self) && error
                    == Error::RequestTooLarge,
            },
            old(self).wf() && !old(self)@.parsed ==> final(self).wf(),
    {
        if self.r > 0 {
            self.move_data();
            Ok(())
        } else if self.cap >= MAX_REQUEST_SIZE {
            Err(Error::RequestTooLarge)
        } else {
            let len: usize = self.buff.len();
            let doubled: usize = len * 2;
            let cap: usize = if doubled < MAX_REQUEST_SIZE {
                doubled
            } else {
                MAX_REQUEST_SIZE
            };
            self.buff.resize(cap, 0);
            self.cap = cap;
            proof {
                assert(self.buff@ =~= old(self)@.grown().buff) by {
                    assert forall|i: int| 0 <= i < len implies self.buff@[i]
                        == old(self).buff@[i] by {
                        assert(self.buff@.subrange(0, len as int)[i] == self.buff@[i]);
                    }
                }
                if old(self).wf() {
                    lemma_capacity_doubles(old(self)@.cap);
                }
            }
            Ok(())
        }
    }

    /// Moves the pending bytes to the front of the buffer.
    pub fn move_data(&mut self)
        requires
            0 < old(self)@.r < old(self)@.w <= old(self)@.buff.len(),
        ensures
            final(self)@ == old(self)@.moved(),
            old(self).wf() && !old(self)@.parsed ==> final(self).wf(),
    {
        let len: usize = self.w - self.r;
        let mut i: usize = 0;
        while i < len
            invariant
                i <= len,
                len == self.w - self.r,
                self.r > 0,
                self.r == old(self).r,
                self.w == old(self).w,
                self.cap == old(self).cap,
                self.parsed == old(self).parsed,
                self.idx == old(self).idx,
                self.w <= self.buff.len(),
                self.buff.len() == old(self).buff.len(),
                forall|j: int|
                    0 <= j < self.buff.len() ==> #[trigger] self.buff@[j] == if j < i {
                        old(self).buff@[j + self.r]
                    } else {
                        old(self).buff@[j]
                    },
            decreases len - i,
        {
            let byte: u8 = self.buff[self.r + i];
            self.buff[i] = byte;
            i += 1;
        }
        self.r = 0;
        self.w = len;
        assert(self.buff@ =~= old(self)@.moved().buff);
    }

    /// The bytes received and not yet handed on: what the parser looks at.
    pub fn pending(&self) -> (bytes: &[u8])
        requires
            self.wf(),
        ensures
            bytes@ == self@.pending(),
    {
        slice_subrange(self.buff.as_slice(), self.r, self.w)
    }

    /// The bytes of the current request, once it is parsed.
    pub fn request(&self) -> (bytes: &[u8])
        requires
            self.wf(),
            self@.parsed,
        ensures
            bytes@ == self@.request(),
    {
        slice_subrange(self.buff.as_slice(), self.r, self.idx)
    }

    /// Whether `event` can follow in this state.
    pub fn accepts<E>(&self, event: &CopyEvent<'_, E>) -> (accepted: bool)
        requires
            self.wf(),
        ensures
            accepted == self@.admits(event@),
    {
        match event {
            CopyEvent::Read(data) => !self.parsed && data.len() <= self.cap - self.w,
            CopyEvent::Parsed { read, parsed, n } => {
                let limit: usize = if *parsed {
                    self.w
                } else {
                    usize::MAX
                };
                !self.parsed && *n <= limit - self.r
            },
            CopyEvent::Written => self.parsed,
            _ => true,
        }
    }

    /// Copies `data` behind the pending bytes.
    fn fill(&mut self, data: &[u8])
        requires
            old(self).wf(),
            !old(self)@.parsed,
            data.len() <= old(self)@.cap - old(self)@.w,
        ensures
            final(self).wf(),
            final(self)@ == old(self)@.filled(data@),
    {
        let n: usize = data.len();
        let mut i: usize = 0;
        while i < n
            invariant
                i <= n,
                n == data@.len(),
                self.r == old(self).r,
                self.w == old(self).w,
                self.cap == old(self).cap,
                self.parsed == old(self).parsed,
                self.idx == old(self).idx,
                self.w + n <= self.buff.len(),
                self.buff.len() == old(self).buff.len(),
                forall|j: int|
                    0 <= j < self.buff.len() ==> #[trigger] self.buff@[j] == if self.w <= j
                        < self.w + i {
                        data@[j - self.w]
                    } else {
                        old(self).buff@[j]
                    },
            decreases n - i,
        {
            let byte: u8 = data[i];
            let at: usize = self.w + i;
            self.buff[at] = byte;
            i += 1;
        }
        self.w = self.w + n;
        assert(self.buff@ =~= old(self)@.filled(data@).buff);
    }

    /// Receives one request from a client and hands it on, one step at a time.
    ///
    /// The caller reports what happened, does what the answer says, and
    /// reports again, until the answer ends the poll. A new poll starts with
    /// [`CopyEvent::Polled`] and resumes where the one before it had to wait.
    pub fn poll_copy_one<I: Copy, E>(&mut self, rid: I, event: CopyEvent<'_, E>) -> (action:
        CopyAction<I, E>)
        requires
            old(self).wf(),
            old(self)@.admits(event@),
        ensures
            final(self).wf(),
            final(self)@ == old(self)@.next(event@),
            action@ == old(self)@.action(rid, event@),
    {
        match event {
            CopyEvent::Polled => {
                if self.parsed {
                    return CopyAction::Write(Request::from(self.request(), rid));
                }
                if self.w == self.cap {
                    match self.extends() {
                        Ok(()) => {},
                        Err(error) => {
                            return CopyAction::Return(Poll::Ready(Err(Failure::Own(error))));
                        },
                    }
                }
                CopyAction::Read { room: self.cap - self.w }
            },
            CopyEvent::Pending => CopyAction::Return(Poll::Pending),
            CopyEvent::Failed(e) => CopyAction::Return(Poll::Ready(Err(Failure::Outside(e)))),
            CopyEvent::Read(data) => {
                if data.len() == 0 {
                    assert(self@.filled(data@) =~= self@);
                    return CopyAction::Close { left: self.w - self.r };
                }
                self.fill(data);
                CopyAction::Parse { read: data.len() }
            },
            CopyEvent::Parsed { read, parsed, n } => {
                self.parsed = parsed;
                self.idx = self.r + n;
                let done: Option<usize> = if parsed {
                    Some(self.idx - self.r)
                } else {
                    None
                };
                CopyAction::Record { received: read, done }
            },
            CopyEvent::Written => {
                self.r = self.r + (self.idx - self.r);
                self.reset();
                CopyAction::Return(Poll::Ready(Ok(())))
            },
        }
    }
}

} // verus!
