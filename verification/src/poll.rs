//! The outcome of polling a task once.
use vstd::prelude::*;

verus! {

/// What a task reports when it is polled: a value, or that it has to wait.
pub enum Poll<T> {
    Ready(T),
    Pending,
}

} // verus!
