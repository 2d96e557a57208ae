//! Events emitted by the registry. Indexers and keeper bots rely on these,
//! so their fields are part of the public interface.
use vstd::prelude::*;

use crate::address::Address;
use crate::digest::{sha256, sha256_digest};

verus! {

/// A job was registered.
#[derive(Clone, Copy, Debug, PartialEq, Eq, Structural)]
pub struct JobCreated {
    pub job_id: u64,
    pub owner: Address,
    pub target: Address,
    pub interval: u64,
    pub fee_per_run: i128,
    pub deposit: i128,
}

/// A job's fee balance was topped up.
#[derive(Clone, Copy, Debug, PartialEq, Eq, Structural)]
pub struct JobFunded {
    pub job_id: u64,
    pub from: Address,
    pub amount: i128,
    pub balance: i128,
}

/// A job ran.
#[derive(Clone, Copy, Debug, PartialEq, Eq)]
pub struct JobExecuted {
    pub job_id: u64,
    pub keeper: Address,
    pub fee: i128,
    pub run: u32,
    pub next_run: u64,
    /// SHA-256 of the XDR-serialized return value of the target call. Lets
    /// indexers verify a run's outcome without re-simulating it.
    pub result_hash: [u8; 32],
}

/// What a run reports before its target call has returned: the
/// `JobExecuted` event without the hash of the call's result.
#[derive(Clone, Copy, Debug, PartialEq, Eq, Structural)]
pub struct JobRun {
    pub job_id: u64,
    pub keeper: Address,
    pub fee: i128,
    pub run: u32,
    pub next_run: u64,
}

impl JobExecuted {
    /// The event for `run`, whose target call returned the value whose XDR
    /// serialization is `result_xdr`.
    pub fn for_run(host: &soroban_sdk::Env, run: &JobRun, result_xdr: &Vec<u8>) -> (e: JobExecuted)
        ensures
            e.job_id == run.job_id,
            e.keeper == run.keeper,
            e.fee == run.fee,
            e.run == run.run,
            e.next_run == run.next_run,
            e.result_hash@ == sha256_digest(result_xdr@),
    {
        let result_hash = sha256(host, result_xdr);
        JobExecuted {
            job_id: run.job_id,
            keeper: run.keeper,
            fee: run.fee,
            run: run.run,
            next_run: run.next_run,
            result_hash,
        }
    }
}

/// A job's balance no longer covers a run.
#[derive(Clone, Copy, Debug, PartialEq, Eq, Structural)]
pub struct JobExhausted {
    pub job_id: u64,
    pub balance: i128,
}

/// A job was deleted and its balance refunded.
#[derive(Clone, Copy, Debug, PartialEq, Eq, Structural)]
pub struct JobCancelled {
    pub job_id: u64,
    pub refund: i128,
}

/// A job was paused or resumed.
#[derive(Clone, Copy, Debug, PartialEq, Eq, Structural)]
pub struct JobActiveSet {
    pub job_id: u64,
    pub active: bool,
}

/// A keeper added stake.
#[derive(Clone, Copy, Debug, PartialEq, Eq, Structural)]
pub struct KeeperStaked {
    pub keeper: Address,
    pub amount: i128,
    pub total: i128,
}

/// A keeper started unbonding.
#[derive(Clone, Copy, Debug, PartialEq, Eq, Structural)]
pub struct KeeperUnbonding {
    pub keeper: Address,
    pub withdrawable_at: u64,
}

/// A keeper withdrew its stake.
#[derive(Clone, Copy, Debug, PartialEq, Eq, Structural)]
pub struct KeeperWithdrawn {
    pub keeper: Address,
    pub amount: i128,
}

/// An admin handover was proposed.
#[derive(Clone, Copy, Debug, PartialEq, Eq, Structural)]
pub struct AdminProposed {
    pub current: Address,
    pub proposed: Address,
}

/// A pending admin handover was withdrawn.
#[derive(Clone, Copy, Debug, PartialEq, Eq, Structural)]
pub struct AdminProposalCancelled {
    pub current: Address,
    pub cancelled: Address,
}

/// The admin changed hands.
#[derive(Clone, Copy, Debug, PartialEq, Eq, Structural)]
pub struct AdminChanged {
    pub previous: Address,
    pub new_admin: Address,
}

/// The executor was connected.
#[derive(Clone, Copy, Debug, PartialEq, Eq, Structural)]
pub struct ExecutorSet {
    pub executor: Address,
}

/// The registry was paused or resumed.
#[derive(Clone, Copy, Debug, PartialEq, Eq, Structural)]
pub struct PausedSet {
    pub paused: bool,
}

/// The minimum keeper stake changed.
#[derive(Clone, Copy, Debug, PartialEq, Eq, Structural)]
pub struct MinStakeSet {
    pub min_stake: i128,
}

/// Any event of the registry.
#[derive(Clone, Copy, Debug, PartialEq, Eq)]
pub enum Event {
    JobCreated(JobCreated),
    JobFunded(JobFunded),
    JobExecuted(JobExecuted),
    JobExhausted(JobExhausted),
    JobCancelled(JobCancelled),
    JobActiveSet(JobActiveSet),
    KeeperStaked(KeeperStaked),
    KeeperUnbonding(KeeperUnbonding),
    KeeperWithdrawn(KeeperWithdrawn),
    AdminProposed(AdminProposed),
    AdminProposalCancelled(AdminProposalCancelled),
    AdminChanged(AdminChanged),
    ExecutorSet(ExecutorSet),
    PausedSet(PausedSet),
    MinStakeSet(MinStakeSet),
}

} // verus!
