//! The records that the registry keeps.
use vstd::prelude::*;

use crate::address::Address;

verus! {

/// Registry-wide settings, fixed at deployment except where an admin
/// function changes them.
#[derive(Clone, Copy, Debug, PartialEq, Eq, Structural)]
pub struct Config {
    pub admin: Address,
    /// Token that job owners deposit and keepers are paid in.
    pub fee_token: Address,
    /// Token that keepers stake. May be the same as `fee_token`.
    pub stake_token: Address,
    pub min_stake: i128,
    /// Seconds between `begin_unbonding` and `withdraw_stake`.
    pub unbonding_period: u64,
    pub paused: bool,
    /// The contract that performs every target call; connected once.
    pub executor: Option<Address>,
}

/// Input to `create_job`.
#[derive(Clone, Debug, PartialEq, Eq)]
pub struct JobParams {
    /// Contract to call.
    pub target: Address,
    /// Function to call on `target`.
    pub function: String,
    /// Arguments passed to `function`, as the base64 XDR of an `ScVec`.
    pub args: String,
    /// Minimum seconds between runs.
    pub interval: u64,
    /// Unix timestamp of the first eligible run. `0` (or any past time) means now.
    pub start_at: u64,
    /// Fee-token amount paid to the keeper for each run.
    pub fee_per_run: i128,
    /// Maximum number of runs. `0` means unlimited.
    pub max_runs: u32,
    /// Unix timestamp from which the job no longer runs. `0` means never.
    pub end_at: u64,
    /// Optional contract exposing `should_run(job_id: u64) -> bool`.
    pub resolver: Option<Address>,
}

/// A registered job.
#[derive(Debug, PartialEq, Eq)]
pub struct Job {
    pub id: u64,
    pub owner: Address,
    pub target: Address,
    pub function: String,
    /// Arguments, as the base64 XDR of an `ScVec`.
    pub args: String,
    pub interval: u64,
    /// Earliest timestamp at which the job may run next.
    pub next_run: u64,
    pub fee_per_run: i128,
    /// Remaining escrowed fee-token balance.
    pub balance: i128,
    pub max_runs: u32,
    pub runs: u32,
    /// Timestamp from which the job has expired; `0` means never.
    pub end_at: u64,
    pub resolver: Option<Address>,
    /// A paused job (`false`) keeps its balance and schedule but is not run.
    pub active: bool,
}

impl Clone for Job {
    fn clone(&self) -> (r: Self)
        ensures
            r == *self,
    {
        Job {
            id: self.id,
            owner: self.owner,
            target: self.target,
            function: self.function.clone(),
            args: self.args.clone(),
            interval: self.interval,
            next_run: self.next_run,
            fee_per_run: self.fee_per_run,
            balance: self.balance,
            max_runs: self.max_runs,
            runs: self.runs,
            end_at: self.end_at,
            resolver: self.resolver,
            active: self.active,
        }
    }
}

/// A keeper's stake and standing.
#[derive(Clone, Copy, Debug, PartialEq, Eq, Structural)]
pub struct Keeper {
    pub stake: i128,
    /// Set once unbonding starts: timestamp when stake becomes withdrawable.
    pub unbonding_at: Option<u64>,
    pub executions: u32,
}

} // verus!
