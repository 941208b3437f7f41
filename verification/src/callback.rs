//! A callback that runs only when there is data to hand to it.

use std::marker::PhantomData;
use std::rc::Rc;
use vstd::prelude::*;

verus! {

/// A shared callback that takes a value of type `T` and the data that came
/// with it.
pub struct ClojureTcpStream<T, F: Fn(T, Option<Vec<u8>>)> {
    func: Rc<F>,
    _taken: PhantomData<T>,
}

impl<T, F: Fn(T, Option<Vec<u8>>)> ClojureTcpStream<T, F> {
    /// The callback that [`ClojureTcpStream::call`] runs.
    pub closed spec fn callback(&self) -> F {
        *self.func
    }

    /// Wraps `func`.
    pub fn new(func: F) -> (stream: ClojureTcpStream<T, F>)
        ensures
            stream.callback() == func,
    {
        ClojureTcpStream { func: Rc::new(func), _taken: PhantomData }
    }

    /// Runs the callback on `diamond` and `data` if there is data, and does
    /// nothing if there is none.
    pub fn call(&self, diamond: T, data: Option<Vec<u8>>)
        requires
            data.is_some() ==> call_requires(self.callback(), (diamond, data)),
        ensures
            data.is_some() ==> call_ensures(self.callback(), (diamond, data), ()),
    {
        if data.is_some() {
            let func: &F = &self.func;
            func(diamond, data);
        }
    }
}

} // verus!
