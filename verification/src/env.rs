//! The environment a registry call runs in: the contract's own address, the
//! ledger time, the contract's storage, and the log of what the call asks
//! the host to do (check a signature, move tokens, call a target, publish an
//! event), in order.
use vstd::prelude::*;

use crate::address::Address;
use crate::events::{Event, JobRun};
use crate::storage::Storage;

verus! {

/// A token transfer of `amount` of `token` from `from` to `to`.
#[derive(Clone, Copy, Debug, PartialEq, Eq, Structural)]
pub struct Transfer {
    pub token: Address,
    pub from: Address,
    pub to: Address,
    pub amount: i128,
}

/// A call of `target.function(args)`, made through `executor`.
#[derive(Clone, Debug, PartialEq, Eq)]
pub struct TargetCall {
    pub executor: Address,
    pub target: Address,
    pub function: String,
    /// The arguments, as the base64 XDR of an `ScVec`.
    pub args: String,
}

/// One request to the host. Any request that the host cannot honour (a
/// missing signature, a failed transfer or target call) aborts the whole
/// call, and nothing that it did remains.
#[derive(Clone, Debug, PartialEq, Eq)]
pub enum HostOp {
    /// The address must have authorised this call.
    RequireAuth(Address),
    Transfer(Transfer),
    CallTarget(TargetCall),
    Publish(Event),
    /// Publish the `JobExecuted` event for this run, carrying the hash of the
    /// result of the target call just before it (see `JobExecuted::for_run`).
    ReportRun(JobRun),
}

#[derive(Clone, Debug)]
pub struct Context {
    /// The registry's own address.
    pub contract: Address,
    /// Ledger time, in seconds.
    pub timestamp: u64,
    pub storage: Storage,
    /// What the call asks of the host, in order.
    pub ops: Vec<HostOp>,
}

impl Context {
    /// Everything but the storage is as in `other`.
    pub open spec fn same_host(&self, other: &Context) -> bool {
        &&& self.contract == other.contract
        &&& self.timestamp == other.timestamp
        &&& self.ops@ == other.ops@
    }

    /// An environment with empty storage and nothing asked of the host yet.
    pub fn new(contract: Address, timestamp: u64) -> (env: Context)
        ensures
            env.contract == contract,
            env.timestamp == timestamp,
            env.storage.wf(),
            env.storage@ == Storage::empty_view(),
            env.ops@ == Seq::<HostOp>::empty(),
    {
        Context { contract, timestamp, storage: Storage::new(), ops: Vec::new() }
    }

    /// Asks the host to check that `a` authorised this call.
    pub fn require_auth(&mut self, a: &Address)
        ensures
            final(self).ops@ == old(self).ops@.push(HostOp::RequireAuth(*a)),
            final(self).contract == old(self).contract,
            final(self).timestamp == old(self).timestamp,
            final(self).storage == old(self).storage,
    {
        self.ops.push(HostOp::RequireAuth(*a));
    }

    /// Asks the host to move `amount` of `token` from `from` to `to`.
    pub fn transfer(&mut self, token: &Address, from: &Address, to: &Address, amount: i128)
        ensures
            final(self).ops@ == old(self).ops@.push(
                HostOp::Transfer(Transfer { token: *token, from: *from, to: *to, amount }),
            ),
            final(self).contract == old(self).contract,
            final(self).timestamp == old(self).timestamp,
            final(self).storage == old(self).storage,
    {
        self.ops.push(HostOp::Transfer(Transfer { token: *token, from: *from, to: *to, amount }));
    }

    /// Asks the host to call `target.function(args)` through `executor`.
    pub fn call_target(&mut self, call: TargetCall)
        ensures
            final(self).ops@ == old(self).ops@.push(HostOp::CallTarget(call)),
            final(self).contract == old(self).contract,
            final(self).timestamp == old(self).timestamp,
            final(self).storage == old(self).storage,
    {
        self.ops.push(HostOp::CallTarget(call));
    }

    /// Asks the host to report `run`, with the hash of its target call's result.
    pub fn report_run(&mut self, run: JobRun)
        ensures
            final(self).ops@ == old(self).ops@.push(HostOp::ReportRun(run)),
            final(self).contract == old(self).contract,
            final(self).timestamp == old(self).timestamp,
            final(self).storage == old(self).storage,
    {
        self.ops.push(HostOp::ReportRun(run));
    }

    /// Asks the host to publish `event`.
    pub fn publish(&mut self, event: Event)
        ensures
            final(self).ops@ == old(self).ops@.push(HostOp::Publish(event)),
            final(self).contract == old(self).contract,
            final(self).timestamp == old(self).timestamp,
            final(self).storage == old(self).storage,
    {
        self.ops.push(HostOp::Publish(event));
    }
}

} // verus!
