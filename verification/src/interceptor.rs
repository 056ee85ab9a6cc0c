//! The one hook of the executor: a collaborator that is told of every call
//! of a defined function.

use vstd::prelude::*;
use crate::executor::Signal;

verus! {

/// Told of each call of a defined function, by the function's name; what it
/// returns is the signal of that step.
pub trait Interceptor {
    fn invoke_func(&self, name: &String) -> (signal: Signal);
}

/// The interceptor that lets every call go on.
#[derive(Clone, Copy, Debug)]
pub struct NopInterceptor {}

impl NopInterceptor {
    pub fn new() -> (nop: NopInterceptor) {
        NopInterceptor {  }
    }
}

impl Interceptor for NopInterceptor {
    fn invoke_func(&self, name: &String) -> (signal: Signal)
        ensures
            signal == Signal::Next,
    {
        Signal::Next
    }
}

} // verus!
