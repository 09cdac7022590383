use vstd::prelude::*;

use std::marker::PhantomData;

verus! {

/// The receiving half of a watch channel. It carries no value: nothing is ever watched.
pub struct Receiver<T> {
    _p: PhantomData<T>,
}

impl<T> Receiver<T> {
    /// A receiver; all of them are alike.
    pub fn new() -> Receiver<T> {
        Receiver { _p: PhantomData }
    }
}

} // verus!
