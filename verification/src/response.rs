//! A response on its way back to the client.
use vstd::prelude::*;

verus! {

/// A response, made of the pieces that the cache servers sent.
pub struct Response<T> {
    items: Vec<T>,
}

impl<T> View for Response<T> {
    type V = Seq<T>;

    closed spec fn view(&self) -> Seq<T> {
        self.items@
    }
}

impl<T> Response<T> {
    /// A response made of `items`.
    pub fn from(items: Vec<T>) -> (response: Self)
        ensures
            response@ == items@,
    {
        Response { items }
    }

    /// The pieces, in order.
    pub fn items(&self) -> (items: &Vec<T>)
        ensures
            items@ == self@,
    {
        &self.items
    }

    /// Adds the pieces of `other` behind those of this response.
    pub fn append(&mut self, other: Response<T>)
        ensures
            final(self)@ == old(self)@ + other@,
    {
        let mut items: Vec<T> = Vec::new();
        let mut added: Vec<T> = other.items;
        items.append(&mut self.items);
        items.append(&mut added);
        *self = Response::from(items);
    }
}

} // verus!
