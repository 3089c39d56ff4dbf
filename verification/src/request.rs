//! A request on its way to the cache servers.
use vstd::prelude::*;
use vstd::slice::slice_to_vec;

verus! {

/// The largest request that is accepted, in bytes.
pub const MAX_REQUEST_SIZE: usize = 1048576;

/// The bytes of one request, with the identifier it is tracked by.
pub struct Request<I> {
    data: Vec<u8>,
    id: I,
}

/// The contents of a request.
#[verifier::ext_equal]
pub struct RequestView<I> {
    pub data: Seq<u8>,
    pub id: I,
}

impl<I> View for Request<I> {
    type V = RequestView<I>;

    closed spec fn view(&self) -> RequestView<I> {
        RequestView { data: self.data@, id: self.id }
    }
}

impl<I: Copy> Request<I> {
    /// A request made of a copy of `data`, tracked by `id`.
    pub fn from(data: &[u8], id: I) -> (request: Self)
        ensures
            request@ == (RequestView { data: data@, id }),
    {
        Request { data: slice_to_vec(data), id }
    }

    /// The number of bytes.
    pub fn len(&self) -> (len: usize)
        ensures
            len == self@.data.len(),
    {
        self.data.len()
    }

    /// The bytes.
    pub fn data(&self) -> (data: &[u8])
        ensures
            data@ == self@.data,
    {
        self.data.as_slice()
    }

    /// The identifier.
    pub fn id(&self) -> (id: I)
        ensures
            id == self@.id,
    {
        self.id
    }
}

impl<I: Copy> Clone for Request<I> {
    fn clone(&self) -> (copy: Self)
        ensures
            copy@ == self@,
    {
        Request::from(self.data(), self.id())
    }
}

impl<I: Default> Default for Request<I> {
    /// A request without bytes, under the default identifier.
    fn default() -> (request: Self)
        ensures
            request@.data == Seq::<u8>::empty(),
            call_ensures(I::default, (), request@.id),
    {
        Request { data: Vec::new(), id: I::default() }
    }
}

} // verus!
