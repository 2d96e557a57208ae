//! The executor: the only contract that calls job targets. It stores the
//! registry's address, holds no funds and has no privileges, so a target
//! only ever sees an invoker that owns nothing.
use vstd::prelude::*;

use crate::address::Address;

verus! {

/// A call that the executor forwards: `authorizer` must have authorised it,
/// and then `target.function(args)` is called and its result handed back.
#[derive(Clone, Debug, PartialEq, Eq)]
pub struct Forward {
    pub authorizer: Address,
    pub target: Address,
    pub function: String,
    /// The arguments, as the base64 XDR of an `ScVec`.
    pub args: String,
}

/// The executor contract, with the registry it serves.
#[derive(Clone, Copy, Debug, PartialEq, Eq, Structural)]
pub struct Executor {
    registry: Address,
}

impl Executor {
    /// The registry this executor serves.
    pub closed spec fn spec_registry(&self) -> Address {
        self.registry
    }

    /// An executor serving `registry`.
    pub fn __constructor(registry: Address) -> (e: Executor)
        ensures
            e.spec_registry() == registry,
    {
        Executor { registry }
    }

    /// Calls `target.function(args)` and returns its result.
    /// Only the registry may call this.
    pub fn execute(&self, target: Address, function: String, args: String) -> (f: Forward)
        ensures
            f == (Forward { authorizer: self.spec_registry(), target, function, args }),
    {
        Forward { authorizer: self.registry, target, function, args }
    }

    /// The registry this executor serves.
    pub fn registry(&self) -> (r: Address)
        ensures
            r == self.spec_registry(),
    {
        self.registry
    }
}

} // verus!
