//! Looking up many keys in several layers of cache.
//!
//! An [`AsyncMultiGet`] asks one layer after another. What a layer answers is
//! added to the response, and the keys it found are left out of the request
//! that the next layer gets.
use vstd::prelude::*;

use crate::error::{Error, Failure};
use crate::poll::Poll;
use crate::request::{Request, RequestView};
use crate::response::Response;

verus! {

/// Asks layers of cache in turn and merges what they answer.
pub struct AsyncMultiGet<L, P, T, I> {
    // the layer that is asked now
    idx: usize,
    layers: Vec<L>,
    request_ref: Request<I>,
    response: Option<Response<T>>,
    parser: P,
}

/// The state of a lookup: the layer that is asked now, the number of layers,
/// the request, and what has been answered so far.
#[verifier::ext_equal]
pub struct MultiGetView<T, I> {
    pub idx: int,
    pub layers: int,
    pub request: RequestView<I>,
    pub response: Option<Seq<T>>,
}

/// What happened to the request that a layer was given.
pub enum WriteEvent {
    /// The task was polled.
    Polled,
    /// The layer has to wait.
    Pending,
    /// The layer took the request.
    Sent,
    /// The layer failed to take the request.
    Refused,
}

/// What to do with the request next.
pub enum WriteAction {
    /// Give the request to this layer.
    Send { layer: usize },
    /// End this poll.
    Return(Poll<Result<(), Error>>),
}

/// What one poll for the response remembers: the keys that the last layer to
/// answer had found, and the last error of a layer that did not.
pub struct Round<K, E> {
    found_keys: Vec<K>,
    last_err: Option<E>,
}

/// The contents of a [`Round`].
#[verifier::ext_equal]
pub struct RoundView<K, E> {
    pub found_keys: Seq<K>,
    pub last_err: Option<E>,
}

/// What happened since a lookup was last told what to do for its response.
pub enum NextEvent<T, K, E> {
    /// The task was polled.
    Polled,
    /// The layer has to wait.
    Pending,
    /// The layer answered with `item`, in which the parser saw `found_keys`.
    Replied { item: Response<T>, found_keys: Vec<K> },
    /// The layer failed to answer.
    Failed(E),
    /// The parser has made this request out of the keys that are not found.
    Rebuilt(Vec<u8>),
    /// The layer took the request.
    Sent,
    /// The layer failed to take the request.
    Refused,
}

/// The contents of a [`NextEvent`].
#[verifier::ext_equal]
pub enum NextEventView<T, K, E> {
    Polled,
    Pending,
    Replied { item: Seq<T>, found_keys: Seq<K> },
    Failed(E),
    Rebuilt(Seq<u8>),
    Sent,
    Refused,
}

/// What a lookup wants done next for its response.
pub enum NextAction<T, E> {
    /// Read the answer of this layer.
    Read { layer: usize },
    /// Make a request without the keys that were found.
    Rebuild,
    /// Give the request to this layer.
    Send { layer: usize },
    /// End this poll.
    Return(Poll<Result<Response<T>, Failure<E>>>),
}

/// The contents of a [`NextAction`].
#[verifier::ext_equal]
pub enum NextActionView<T, E> {
    Read { layer: int },
    Rebuild,
    Send { layer: int },
    Return(Poll<Result<Seq<T>, Failure<E>>>),
}

impl<K, E> View for Round<K, E> {
    type V = RoundView<K, E>;

    closed spec fn view(&self) -> RoundView<K, E> {
        RoundView { found_keys: self.found_keys@, last_err: self.last_err }
    }
}

impl<T, K, E> View for NextEvent<T, K, E> {
    type V = NextEventView<T, K, E>;

    open spec fn view(&self) -> NextEventView<T, K, E> {
        match *self {
            NextEvent::Polled => NextEventView::Polled,
            NextEvent::Pending => NextEventView::Pending,
            NextEvent::Replied { item, found_keys } => NextEventView::Replied {
                item: item@,
                found_keys: found_keys@,
            },
            NextEvent::Failed(e) => NextEventView::Failed(e),
            NextEvent::Rebuilt(data) => NextEventView::Rebuilt(data@),
            NextEvent::Sent => NextEventView::Sent,
            NextEvent::Refused => NextEventView::Refused,
        }
    }
}

impl<T, E> View for NextAction<T, E> {
    type V = NextActionView<T, E>;

    open spec fn view(&self) -> NextActionView<T, E> {
        match *self {
            NextAction::Read { layer } => NextActionView::Read { layer: layer as int },
            NextAction::Rebuild => NextActionView::Rebuild,
            NextAction::Send { layer } => NextActionView::Send { layer: layer as int },
            NextAction::Return(Poll::Pending) => NextActionView::Return(Poll::Pending),
            NextAction::Return(Poll::Ready(Ok(response))) => NextActionView::Return(
                Poll::Ready(Ok(response@)),
            ),
            NextAction::Return(Poll::Ready(Err(e))) => NextActionView::Return(
                Poll::Ready(Err(e)),
            ),
        }
    }
}

/// What has been answered once `item` is added.
pub open spec fn merged<T>(response: Option<Seq<T>>, item: Seq<T>) -> Option<Seq<T>> {
    match response {
        Some(items) => Some(items + item),
        None => Some(item),
    }
}

/// What a lookup ends with: what was answered, or else the last error of a
/// layer, if there was one.
pub open spec fn outcome<T, E>(response: Option<Seq<T>>, last_err: Option<E>) -> Result<
    Seq<T>,
    Failure<E>,
> {
    match (response, last_err) {
        (Some(items), _) => Ok(items),
        (None, Some(e)) => Err(Failure::Outside(e)),
        (None, None) => Err(Failure::Own(Error::CannotRead)),
    }
}

/// A round that remembers nothing.
pub open spec fn fresh_round<K, E>() -> RoundView<K, E> {
    RoundView { found_keys: Seq::empty(), last_err: None }
}

/// A lookup in the middle of a poll for its response.
#[verifier::ext_equal]
pub struct NextView<T, I, K, E> {
    pub get: MultiGetView<T, I>,
    pub round: RoundView<K, E>,
}

impl<T, I, K, E> NextView<T, I, K, E> {
    /// The lookup with what the layer that is asked now said, whether it
    /// answered or failed. A layer that failed leaves the keys as they were.
    pub open spec fn heard(self, event: NextEventView<T, K, E>) -> NextView<T, I, K, E> {
        match event {
            NextEventView::Replied { item, found_keys } => NextView {
                get: MultiGetView { response: merged(self.get.response, item), ..self.get },
                round: RoundView { found_keys, ..self.round },
            },
            NextEventView::Failed(e) => NextView {
                round: RoundView { last_err: Some(e), ..self.round },
                ..self
            },
            _ => self,
        }
    }

    /// The lookup after it has ended.
    pub open spec fn ended(self) -> NextView<T, I, K, E> {
        NextView { get: self.get.cleared(), round: fresh_round() }
    }

    /// The lookup turned to the next layer.
    pub open spec fn turned(self) -> NextView<T, I, K, E> {
        NextView { get: MultiGetView { idx: self.get.idx + 1, ..self.get }, ..self }
    }

    /// The lookup after `event`.
    pub open spec fn next(self, event: NextEventView<T, K, E>) -> NextView<T, I, K, E> {
        match event {
            NextEventView::Polled => NextView { round: fresh_round(), ..self },
            NextEventView::Pending => self,
            NextEventView::Replied { .. } | NextEventView::Failed(_) => if self.get.at_last() {
                self.ended()
            } else {
                self.heard(event).turned()
            },
            NextEventView::Rebuilt(data) => NextView {
                get: MultiGetView {
                    request: RequestView { data, ..self.get.request },
                    ..self.get
                },
                ..self
            },
            NextEventView::Sent => self,
            NextEventView::Refused => if self.get.at_last() {
                self.ended()
            } else {
                self.turned()
            },
        }
    }

    /// What to do after `event`. Once every layer was asked the lookup ends
    /// with what they answered. Where no layer is left to take the request, it
    /// ends without an answer, whatever was answered before.
    pub open spec fn action(self, event: NextEventView<T, K, E>) -> NextActionView<T, E> {
        match event {
            NextEventView::Polled => NextActionView::Read { layer: self.get.idx },
            NextEventView::Pending => NextActionView::Return(Poll::Pending),
            NextEventView::Replied { .. } | NextEventView::Failed(_) => {
                let heard = self.heard(event);
                if self.get.at_last() {
                    NextActionView::Return(
                        Poll::Ready(outcome(heard.get.response, heard.round.last_err)),
                    )
                } else if heard.round.found_keys.len() > 0 {
                    NextActionView::Rebuild
                } else {
                    NextActionView::Send { layer: self.get.idx + 1 }
                }
            },
            NextEventView::Rebuilt(_) => NextActionView::Send { layer: self.get.idx },
            NextEventView::Sent => NextActionView::Read { layer: self.get.idx },
            NextEventView::Refused => if self.get.at_last() {
                NextActionView::Return(
                    Poll::Ready(outcome(None::<Seq<T>>, self.round.last_err)),
                )
            } else {
                NextActionView::Send { layer: self.get.idx + 1 }
            },
        }
    }
}

impl<K, E> Round<K, E> {
    /// A round that remembers nothing.
    pub fn new() -> (round: Self)
        ensures
            round@ == fresh_round::<K, E>(),
    {
        Round { found_keys: Vec::new(), last_err: None }
    }

    /// The keys that the last layer to answer had found.
    pub fn found_keys(&self) -> (keys: &Vec<K>)
        ensures
            keys@ == self@.found_keys,
    {
        &self.found_keys
    }
}

impl<T, I> MultiGetView<T, I> {
    /// The invariant: a layer that exists is asked, if there is any.
    pub open spec fn wf(self) -> bool {
        0 <= self.idx <= self.layers <= usize::MAX && (self.idx == self.layers ==> self.layers
            == 0)
    }

    /// The state that awaits the next request.
    pub open spec fn cleared(self) -> MultiGetView<T, I> {
        MultiGetView { idx: 0, response: None, ..self }
    }

    /// Whether the layer that is asked now is the last one.
    pub open spec fn at_last(self) -> bool {
        self.idx + 1 >= self.layers
    }

    /// The state after the request was given to a layer. When a layer refuses
    /// it the next one gets it; when all have refused, the lookup is over.
    pub open spec fn written(self, event: WriteEvent) -> MultiGetView<T, I> {
        if !(event is Refused) {
            self
        } else if self.at_last() {
            self.cleared()
        } else {
            MultiGetView { idx: self.idx + 1, ..self }
        }
    }

    /// What to do after the request was given to a layer.
    pub open spec fn write_action(self, event: WriteEvent) -> WriteAction {
        match event {
            WriteEvent::Polled => WriteAction::Send { layer: self.idx as usize },
            WriteEvent::Pending => WriteAction::Return(Poll::Pending),
            WriteEvent::Sent => WriteAction::Return(Poll::Ready(Ok(()))),
            WriteEvent::Refused => if self.at_last() {
                WriteAction::Return(Poll::Ready(Err(Error::CannotWrite)))
            } else {
                WriteAction::Send { layer: (self.idx + 1) as usize }
            },
        }
    }
}

impl<L, P, T, I> View for AsyncMultiGet<L, P, T, I> {
    type V = MultiGetView<T, I>;

    closed spec fn view(&self) -> MultiGetView<T, I> {
        MultiGetView {
            idx: self.idx as int,
            layers: self.layers@.len() as int,
            request: self.request_ref@,
            response: match self.response {
                Some(response) => Some(response@),
                None => None,
            },
        }
    }
}

impl<L, P, T, I> AsyncMultiGet<L, P, T, I> {
    /// The layers that are asked, in order.
    pub closed spec fn all_layers(&self) -> Seq<L> {
        self.layers@
    }

    /// The parser of requests and responses.
    pub closed spec fn parsed_by(&self) -> P {
        self.parser
    }

    /// The invariant of a lookup.
    pub open spec fn wf(&self) -> bool {
        self@.wf() && self@.layers == self.all_layers().len()
    }

    /// What no operation changes.
    pub open spec fn same_setup(&self, other: &Self) -> bool {
        self.all_layers() == other.all_layers() && self.parsed_by() == other.parsed_by()
    }
}

impl<L, P, T, I: Copy> AsyncMultiGet<L, P, T, I> {
    /// A lookup in `layers`, from the first to the last.
    pub fn from_layers(layers: Vec<L>, p: P) -> (get: Self) where I: Default
        ensures
            get.wf(),
            get@.idx == 0,
            get@.response is None,
            get@.request.data == Seq::<u8>::empty(),
            call_ensures(I::default, (), get@.request.id),
            get.all_layers() == layers@,
            get.parsed_by() == p,
    {
        assert(layers.len() <= usize::MAX);
        AsyncMultiGet {
            idx: 0,
            layers,
            request_ref: Request::default(),
            response: None,
            parser: p,
        }
    }

    /// The parser of requests and responses.
    pub fn parser(&self) -> (parser: &P)
        ensures
            *parser == self.parsed_by(),
    {
        &self.parser
    }

    /// The number of layers.
    pub fn layers(&self) -> (count: usize)
        ensures
            count == self.all_layers().len(),
    {
        self.layers.len()
    }

    /// The request, without the keys that are already found.
    pub fn request(&self) -> (request: &Request<I>)
        ensures
            request@ == self@.request,
    {
        &self.request_ref
    }

    /// The layer with number `layer`, and the request that it is to get.
    pub fn layer_mut(&mut self, layer: usize) -> (found: (&mut L, &Request<I>))
        requires
            old(self).wf(),
            layer < old(self).all_layers().len(),
        ensures
            *found.0 == old(self).all_layers()[layer as int],
            found.1@ == old(self)@.request,
            final(self)@ == old(self)@,
            final(self).all_layers() == old(self).all_layers().update(
                layer as int,
                *final(found.0),
            ),
            final(self).parsed_by() == old(self).parsed_by(),
    {
        (&mut self.layers[layer], &self.request_ref)
    }

    /// Forgets what was answered and goes back to the first layer.
    fn reset(&mut self)
        requires
            old(self).wf(),
        ensures
            final(self).wf(),
            final(self)@ == old(self)@.cleared(),
            final(self).same_setup(old(self)),
    {
        self.idx = 0;
        self.response = None;
    }

    /// Gives the request to the layer that is asked now, or to the first one
    /// behind it that takes it, one step at a time.
    pub fn do_write(&mut self, event: WriteEvent) -> (action: WriteAction)
        requires
            old(self).wf(),
            old(self)@.idx < old(self)@.layers,
        ensures
            final(self).wf(),
            final(self)@ == old(self)@.written(event),
            action == old(self)@.write_action(event),
            final(self).same_setup(old(self)),
    {
        match event {
            WriteEvent::Polled => WriteAction::Send { layer: self.idx },
            WriteEvent::Pending => WriteAction::Return(Poll::Pending),
            WriteEvent::Sent => WriteAction::Return(Poll::Ready(Ok(()))),
            WriteEvent::Refused => {
                if self.idx + 1 < self.layers.len() {
                    self.idx = self.idx + 1;
                    return WriteAction::Send { layer: self.idx };
                }
                self.reset();
                WriteAction::Return(Poll::Ready(Err(Error::CannotWrite)))
            },
        }
    }

    /// Starts to give `req` to the layers; [`do_write`](Self::do_write) goes on
    /// with it.
    pub fn poll_write(&mut self, req: &Request<I>) -> (action: WriteAction)
        requires
            old(self).wf(),
            old(self)@.idx < old(self)@.layers,
        ensures
            final(self).wf(),
            final(self)@ == (MultiGetView { request: req@, ..old(self)@ }),
            action == (WriteAction::Send { layer: old(self)@.idx as usize }),
            final(self).same_setup(old(self)),
    {
        self.request_ref = req.clone();
        self.do_write(WriteEvent::Polled)
    }

    /// Ends a lookup with what was answered, or with an error.
    fn finish<K, E>(&mut self, round: &mut Round<K, E>) -> (action: NextAction<T, E>)
        requires
            old(self).wf(),
        ensures
            final(self).wf(),
            final(self)@ == old(self)@.cleared(),
            final(self).same_setup(old(self)),
            final(round)@ == fresh_round::<K, E>(),
            action@ == (NextActionView::<T, E>::Return(
                Poll::Ready(outcome(old(self)@.response, old(round)@.last_err)),
            )),
    {
        let response = self.response.take();
        self.reset();
        let last_err = round.last_err.take();
        round.found_keys = Vec::new();
        let result = match response {
            Some(item) => Ok(item),
            None => match last_err {
                Some(e) => Err(Failure::Outside(e)),
                None => Err(Failure::Own(Error::CannotRead)),
            },
        };
        NextAction::Return(Poll::Ready(result))
    }

    /// Turns to the next layer, if there is one, with a request that leaves
    /// out the keys that were found.
    fn turn<K, E>(&mut self, round: &mut Round<K, E>) -> (action: NextAction<T, E>)
        requires
            old(self).wf(),
            old(self)@.idx < old(self)@.layers,
        ensures
            final(self).wf(),
            final(self).same_setup(old(self)),
            ({
                let state = NextView { get: old(self)@, round: old(round)@ };
                let after = NextView { get: final(self)@, round: final(round)@ };
                if state.get.at_last() {
                    &&& after == state.ended()
                    &&& action@ == NextActionView::<T, E>::Return(
                        Poll::Ready(outcome(state.get.response, state.round.last_err)),
                    )
                } else {
                    &&& after == state.turned()
                    &&& action@ == if state.round.found_keys.len() > 0 {
                        NextActionView::<T, E>::Rebuild
                    } else {
                        NextActionView::<T, E>::Send { layer: state.get.idx + 1 }
                    }
                }
            }),
    {
        if self.idx + 1 >= self.layers.len() {
            return self.finish(round);
        }
        self.idx = self.idx + 1;
        if round.found_keys.len() > 0 {
            NextAction::Rebuild
        } else {
            NextAction::Send { layer: self.idx }
        }
    }

    /// Collects the response from the layers, one step at a time.
    ///
    /// The caller reports what happened, does what the answer says, and
    /// reports again, until the answer ends the poll. A new poll starts with
    /// [`NextEvent::Polled`] and reads from the layer that is asked now; it
    /// remembers neither keys nor errors of the poll before it.
    pub fn poll_next<K, E>(
        &mut self,
        round: &mut Round<K, E>,
        event: NextEvent<T, K, E>,
    ) -> (action: NextAction<T, E>)
        requires
            old(self).wf(),
            old(self)@.idx < old(self)@.layers,
        ensures
            final(self).wf(),
            final(self).same_setup(old(self)),
            ({
                let state = NextView { get: old(self)@, round: old(round)@ };
                let after = NextView { get: final(self)@, round: final(round)@ };
                &&& after == state.next(event@)
                &&& action@ == state.action(event@)
            }),
    {
        match event {
            NextEvent::Polled => {
                round.found_keys = Vec::new();
                round.last_err = None;
                NextAction::Read { layer: self.idx }
            },
            NextEvent::Pending => NextAction::Return(Poll::Pending),
            NextEvent::Replied { item, found_keys } => {
                round.found_keys = found_keys;
                match self.response.take() {
                    Some(mut response) => {
                        response.append(item);
                        self.response = Some(response);
                    },
                    None => {
                        self.response = Some(item);
                    },
                }
                self.turn(round)
            },
            NextEvent::Failed(e) => {
                round.last_err = Some(e);
                self.turn(round)
            },
            NextEvent::Rebuilt(data) => {
                self.request_ref = Request::from(data.as_slice(), self.request_ref.id());
                NextAction::Send { layer: self.idx }
            },
            NextEvent::Sent => NextAction::Read { layer: self.idx },
            NextEvent::Refused => match self.do_write(WriteEvent::Refused) {
                WriteAction::Send { layer } => NextAction::Send { layer },
                WriteAction::Return(_) => self.finish(round),
            },
        }
    }
}

} // verus!
