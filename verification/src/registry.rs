//! The registry: job owners register calls to be made on a schedule (and
//! optionally only when a resolver contract agrees), prepaying a per-run fee.
//! Staked keepers execute due jobs and collect the fee.
//!
//! The registry custodies funds but never calls job targets itself: target
//! calls go through a separate executor that holds nothing, so jobs cannot
//! borrow the registry's authority.
//!
//! Each entry point is described by a step function: from the storage
//! before the call, and the call's inputs, to its result, the storage after
//! it and what it asks of the host. The executable entry point is proved to
//! take exactly that step.
use vstd::prelude::*;

use crate::address::{is_some_address, same_address, Address};
use crate::env::{Context, HostOp, TargetCall, Transfer};
use crate::errors::Error;
use crate::events::{
    AdminChanged, AdminProposalCancelled, AdminProposed, Event, ExecutorSet, JobActiveSet,
    JobCancelled, JobCreated, JobFunded, JobRun, KeeperStaked, KeeperUnbonding,
    KeeperWithdrawn, MinStakeSet, PausedSet,
};
use crate::storage::{self, owner_ids, remove_first, StorageView};
use crate::types::{Config, Job, JobParams, Keeper};

verus! {

/// Name of the function a resolver contract must expose:
/// `should_run(job_id: u64) -> bool`.
pub const RESOLVER_FN: &'static str = "should_run";

/// What a call of a resolver's `should_run` came back with.
#[derive(Clone, Copy, Debug, PartialEq, Eq, Structural)]
pub enum ResolverReply {
    /// The resolver returned this boolean.
    Returned(bool),
    /// The resolver returned a value that is not a boolean.
    NotABool,
    /// The call failed: the resolver trapped, returned an error, or does not
    /// exist.
    Failed,
}

/// What a call does: its result, the storage after it, and what it asks of
/// the host, in order.
pub struct Step<T> {
    pub result: Result<T, Error>,
    pub storage: StorageView,
    pub ops: Seq<HostOp>,
}

/// A call that fails with `e` after asking for `ops` changes no storage.
pub open spec fn failed<T>(s: StorageView, ops: Seq<HostOp>, e: Error) -> Step<T> {
    Step { result: Err(e), storage: s, ops }
}

/// `new` is `old` after taking `step`.
pub open spec fn follows<T>(old: &Context, new: &Context, result: Result<T, Error>, step: Step<T>) -> bool {
    &&& result == step.result
    &&& new.storage@ == step.storage
    &&& new.ops@ =~= old.ops@ + step.ops
    &&& new.contract == old.contract
    &&& new.timestamp == old.timestamp
}

/// A stored job can pay for its runs and has a cadence.
pub open spec fn job_ok(j: Job) -> bool {
    &&& j.fee_per_run > 0
    &&& j.balance >= 0
    &&& j.interval > 0
}

/// What the registry keeps true of its storage once deployed.
pub open spec fn registry_inv(s: StorageView) -> bool {
    &&& s.config is Some
    &&& forall|id: u64| #[trigger] s.jobs.contains_key(id) ==> job_ok(s.jobs[id])
}

/// The environment holds a deployed registry.
pub open spec fn ready(env: &Context) -> bool {
    env.storage.wf() && registry_inv(env.storage@)
}

// ----------------------------------------------------------------------
// Rules
// ----------------------------------------------------------------------

/// The schedule after a run at `now` that was due at `scheduled`: the
/// job's own cadence, unless keepers were away for a whole interval or more,
/// in which case missed runs are skipped rather than fired back to back.
/// Additions saturate at `u64::MAX`.
pub open spec fn spec_next_run_after(scheduled: u64, interval: u64, now: u64) -> u64 {
    let next = scheduled.saturating_add(interval);
    if next <= now {
        now.saturating_add(interval)
    } else {
        next
    }
}

/// Next scheduled time. Keeps the job's cadence, but if keepers were
/// offline for several intervals it skips the missed runs instead of
/// letting them fire back-to-back.
pub fn next_run_after(scheduled: u64, interval: u64, now: u64) -> (r: u64)
    ensures
        r == spec_next_run_after(scheduled, interval, now),
        // never earlier than the previous schedule nor than now
        r >= scheduled,
        r >= now,
        // the exact cadence is kept when it fits and lies ahead
        scheduled + interval <= u64::MAX && scheduled + interval > now ==> r == scheduled
            + interval,
        // a cadence past the end of time pins the schedule there
        scheduled + interval > u64::MAX ==> r == u64::MAX,
        // without an interval the schedule is the later of the two times
        interval == 0 ==> r == (if scheduled >= now { scheduled } else { now }),
        // with an interval the schedule always moves forward, short of the ceiling
        interval > 0 && scheduled < u64::MAX ==> r > scheduled,
        interval > 0 && now < u64::MAX ==> r > now,
{
    let next = scheduled.saturating_add(interval);
    if next <= now {
        now.saturating_add(interval)
    } else {
        next
    }
}

/// The order in which a job's gates are checked: paused, then max runs,
/// then expiry (`end_at == 0` is never), then funding, then schedule (due
/// from `next_run` on, inclusive).
pub open spec fn spec_ensure_due(job: Job, now: u64) -> Result<(), Error> {
    if !job.active {
        Err(Error::JobPaused)
    } else if job.max_runs != 0 && job.runs >= job.max_runs {
        Err(Error::MaxRunsReached)
    } else if job.end_at != 0 && now >= job.end_at {
        Err(Error::JobExpired)
    } else if job.balance < job.fee_per_run {
        Err(Error::InsufficientJobBalance)
    } else if now < job.next_run {
        Err(Error::JobNotDue)
    } else {
        Ok(())
    }
}

/// Whether `job` may run at `now`, and if not, why.
pub fn ensure_due(job: &Job, now: u64) -> (r: Result<(), Error>)
    ensures
        r == spec_ensure_due(*job, now),
{
    if !job.active {
        return Err(Error::JobPaused);
    }
    if job.max_runs != 0 && job.runs >= job.max_runs {
        return Err(Error::MaxRunsReached);
    }
    if job.end_at != 0 && now >= job.end_at {
        return Err(Error::JobExpired);
    }
    if job.balance < job.fee_per_run {
        return Err(Error::InsufficientJobBalance);
    }
    if now < job.next_run {
        return Err(Error::JobNotDue);
    }
    Ok(())
}

/// `Paused` while the registry is paused.
pub fn ensure_not_paused(config: &Config) -> (r: Result<(), Error>)
    ensures
        r == (if config.paused { Err(Error::Paused) } else { Ok(()) }),
{
    if config.paused {
        Err(Error::Paused)
    } else {
        Ok(())
    }
}

/// A keeper may execute unless it is unbonding or below the minimum stake.
pub open spec fn spec_active_keeper(config: Config, keeper: Keeper) -> Result<(), Error> {
    if keeper.unbonding_at is Some {
        Err(Error::KeeperUnbonding)
    } else if keeper.stake < config.min_stake {
        Err(Error::InsufficientStake)
    } else {
        Ok(())
    }
}

/// Whether `keeper` may execute jobs, and if not, why.
pub fn ensure_active_keeper(config: &Config, keeper: &Keeper) -> (r: Result<(), Error>)
    ensures
        r == spec_active_keeper(*config, *keeper),
{
    if keeper.unbonding_at.is_some() {
        return Err(Error::KeeperUnbonding);
    }
    if keeper.stake < config.min_stake {
        return Err(Error::InsufficientStake);
    }
    Ok(())
}

/// Jobs may not target the registry itself, its executor, or the tokens it
/// custodies.
pub open spec fn spec_is_forbidden_target(contract: Address, config: Config, target: Address) -> bool {
    ||| target == contract
    ||| config.executor == Some(target)
    ||| target == config.fee_token
    ||| target == config.stake_token
}

/// Jobs may not target SoroCron's own contracts or the tokens it custodies.
/// The executor split already stops targets from using the registry's
/// authority; this is defence in depth.
pub fn is_forbidden_target(env: &Context, config: &Config, target: &Address) -> (r: bool)
    ensures
        r == spec_is_forbidden_target(env.contract, *config, *target),
{
    same_address(target, &env.contract) || is_some_address(&config.executor, target)
        || same_address(target, &config.fee_token) || same_address(target, &config.stake_token)
}

/// A job without a resolver always passes; with one, only a call that
/// returned `true` lets it run.
pub open spec fn spec_resolver_allows(job: Job, reply: ResolverReply) -> bool {
    job.resolver is None || reply == ResolverReply::Returned(true)
}

/// A job without a resolver always passes. A resolver that panics or returns
/// anything other than `true` blocks execution.
pub fn resolver_allows(job: &Job, reply: ResolverReply) -> (r: bool)
    ensures
        r == spec_resolver_allows(*job, reply),
{
    match job.resolver {
        None => true,
        Some(_) => match reply {
            ResolverReply::Returned(b) => b,
            _ => false,
        },
    }
}

// ----------------------------------------------------------------------
// Steps
// ----------------------------------------------------------------------

/// The settings a new registry starts with.
pub open spec fn initial_config(
    admin: Address,
    fee_token: Address,
    stake_token: Address,
    min_stake: i128,
    unbonding_period: u64,
) -> Config {
    Config {
        admin,
        fee_token,
        stake_token,
        min_stake,
        unbonding_period,
        paused: false,
        executor: None,
    }
}

pub open spec fn constructor_step(
    s: StorageView,
    admin: Address,
    fee_token: Address,
    stake_token: Address,
    min_stake: i128,
    unbonding_period: u64,
) -> Step<()> {
    if min_stake < 0 {
        failed(s, seq![], Error::InvalidAmount)
    } else {
        Step {
            result: Ok(()),
            storage: StorageView {
                config: Some(
                    initial_config(admin, fee_token, stake_token, min_stake, unbonding_period),
                ),
                ..s
            },
            ops: seq![],
        }
    }
}

/// The job that `create_job` stores under `id`.
pub open spec fn new_job(id: u64, owner: Address, params: JobParams, deposit: i128, now: u64) -> Job {
    Job {
        id,
        owner,
        target: params.target,
        function: params.function,
        args: params.args,
        interval: params.interval,
        next_run: if params.start_at >= now { params.start_at } else { now },
        fee_per_run: params.fee_per_run,
        balance: deposit,
        max_runs: params.max_runs,
        runs: 0,
        end_at: params.end_at,
        resolver: params.resolver,
        active: true,
    }
}

pub open spec fn create_job_step(
    s: StorageView,
    contract: Address,
    now: u64,
    owner: Address,
    params: JobParams,
    deposit: i128,
) -> Step<u64> {
    let config = s.config.unwrap();
    let auth = seq![HostOp::RequireAuth(owner)];
    if config.paused {
        failed(s, seq![], Error::Paused)
    } else if params.interval == 0 {
        failed(s, auth, Error::InvalidInterval)
    } else if params.fee_per_run <= 0 {
        failed(s, auth, Error::InvalidFee)
    } else if deposit < params.fee_per_run {
        failed(s, auth, Error::InvalidAmount)
    } else if spec_is_forbidden_target(contract, config, params.target) {
        failed(s, auth, Error::ForbiddenTarget)
    } else {
        let id = s.next_job_id;
        let job = new_job(id, owner, params, deposit, now);
        Step {
            result: Ok(id),
            storage: StorageView {
                next_job_id: (id + 1) as u64,
                jobs: s.jobs.insert(id, job),
                owner_jobs: s.owner_jobs.insert(owner, owner_ids(s, owner).push(id)),
                ..s
            },
            ops: auth + seq![
                HostOp::Transfer(
                    Transfer { token: config.fee_token, from: owner, to: contract, amount: deposit },
                ),
                HostOp::Publish(
                    Event::JobCreated(
                        JobCreated {
                            job_id: id,
                            owner,
                            target: params.target,
                            interval: params.interval,
                            fee_per_run: params.fee_per_run,
                            deposit,
                        },
                    ),
                ),
            ],
        }
    }
}

pub open spec fn fund_job_step(
    s: StorageView,
    contract: Address,
    from: Address,
    job_id: u64,
    amount: i128,
) -> Step<i128> {
    let config = s.config.unwrap();
    let auth = seq![HostOp::RequireAuth(from)];
    if config.paused {
        failed(s, seq![], Error::Paused)
    } else if amount <= 0 {
        failed(s, auth, Error::InvalidAmount)
    } else if !s.jobs.contains_key(job_id) {
        failed(s, auth, Error::JobNotFound)
    } else {
        let job = s.jobs[job_id];
        let balance = (job.balance + amount) as i128;
        Step {
            result: Ok(balance),
            storage: StorageView { jobs: s.jobs.insert(job_id, Job { balance, ..job }), ..s },
            ops: auth + seq![
                HostOp::Transfer(
                    Transfer { token: config.fee_token, from, to: contract, amount },
                ),
                HostOp::Publish(Event::JobFunded(JobFunded { job_id, from, amount, balance })),
            ],
        }
    }
}

/// The owner lists after `id` leaves `owner`'s list `ids`; nothing changes
/// when it is not listed.
pub open spec fn unlist(
    owner_jobs: Map<Address, Seq<u64>>,
    ids: Seq<u64>,
    owner: Address,
    id: u64,
) -> Map<Address, Seq<u64>> {
    if ids.contains(id) {
        owner_jobs.insert(owner, remove_first(ids, id))
    } else {
        owner_jobs
    }
}

pub open spec fn cancel_job_step(s: StorageView, contract: Address, job_id: u64) -> Step<i128> {
    let config = s.config.unwrap();
    if !s.jobs.contains_key(job_id) {
        failed(s, seq![], Error::JobNotFound)
    } else {
        let job = s.jobs[job_id];
        let refund = if job.balance > 0 {
            seq![
                HostOp::Transfer(
                    Transfer {
                        token: config.fee_token,
                        from: contract,
                        to: job.owner,
                        amount: job.balance,
                    },
                ),
            ]
        } else {
            seq![]
        };
        Step {
            result: Ok(job.balance),
            storage: StorageView {
                jobs: s.jobs.remove(job_id),
                owner_jobs: unlist(s.owner_jobs, owner_ids(s, job.owner), job.owner, job_id),
                ..s
            },
            ops: seq![HostOp::RequireAuth(job.owner)] + refund + seq![
                HostOp::Publish(Event::JobCancelled(JobCancelled { job_id, refund: job.balance })),
            ],
        }
    }
}

pub open spec fn set_job_active_step(s: StorageView, job_id: u64, active: bool) -> Step<()> {
    if !s.jobs.contains_key(job_id) {
        failed(s, seq![], Error::JobNotFound)
    } else {
        let job = s.jobs[job_id];
        Step {
            result: Ok(()),
            storage: StorageView { jobs: s.jobs.insert(job_id, Job { active, ..job }), ..s },
            ops: seq![
                HostOp::RequireAuth(job.owner),
                HostOp::Publish(Event::JobActiveSet(JobActiveSet { job_id, active })),
            ],
        }
    }
}

/// The job after a run at `now`.
pub open spec fn job_after_run(job: Job, now: u64) -> Job {
    Job {
        runs: (job.runs + 1) as u32,
        balance: (job.balance - job.fee_per_run) as i128,
        next_run: spec_next_run_after(job.next_run, job.interval, now),
        ..job
    }
}

/// The keeper's record after it ran a job.
pub open spec fn keeper_after_run(info: Keeper) -> Keeper {
    Keeper { executions: info.executions.saturating_add(1), ..info }
}

pub open spec fn execute_step(
    s: StorageView,
    contract: Address,
    now: u64,
    keeper: Address,
    job_id: u64,
    reply: ResolverReply,
) -> Step<()> {
    let config = s.config.unwrap();
    let auth = seq![HostOp::RequireAuth(keeper)];
    if config.paused {
        failed(s, seq![], Error::Paused)
    } else if config.executor is None {
        failed(s, seq![], Error::ExecutorNotSet)
    } else if !s.keepers.contains_key(keeper) {
        failed(s, auth, Error::KeeperNotFound)
    } else if spec_active_keeper(config, s.keepers[keeper]) is Err {
        failed(s, auth, spec_active_keeper(config, s.keepers[keeper])->Err_0)
    } else if !s.jobs.contains_key(job_id) {
        failed(s, auth, Error::JobNotFound)
    } else if spec_ensure_due(s.jobs[job_id], now) is Err {
        failed(s, auth, spec_ensure_due(s.jobs[job_id], now)->Err_0)
    } else if !spec_resolver_allows(s.jobs[job_id], reply) {
        failed(s, auth, Error::ResolverRejected)
    } else {
        let job = job_after_run(s.jobs[job_id], now);
        Step {
            result: Ok(()),
            storage: StorageView {
                jobs: s.jobs.insert(job_id, job),
                keepers: s.keepers.insert(keeper, keeper_after_run(s.keepers[keeper])),
                ..s
            },
            ops: auth + seq![
                HostOp::CallTarget(
                    TargetCall {
                        executor: config.executor.unwrap(),
                        target: job.target,
                        function: job.function,
                        args: job.args,
                    },
                ),
                HostOp::Transfer(
                    Transfer {
                        token: config.fee_token,
                        from: contract,
                        to: keeper,
                        amount: job.fee_per_run,
                    },
                ),
                HostOp::ReportRun(
                    JobRun {
                        job_id,
                        keeper,
                        fee: job.fee_per_run,
                        run: job.runs,
                        next_run: job.next_run,
                    },
                ),
            ],
        }
    }
}

/// The resolver that `execute` consults for this call, if it reaches that
/// point: every earlier gate passed and the job has a resolver.
pub open spec fn spec_execute_resolver(s: StorageView, now: u64, keeper: Address, job_id: u64) -> Option<
    Address,
> {
    let config = s.config.unwrap();
    if !config.paused && config.executor is Some && s.keepers.contains_key(keeper)
        && spec_active_keeper(config, s.keepers[keeper]) is Ok && s.jobs.contains_key(job_id)
        && spec_ensure_due(s.jobs[job_id], now) is Ok {
        s.jobs[job_id].resolver
    } else {
        None
    }
}

/// Whether `execute` would currently succeed for this job, ignoring keeper
/// eligibility.
pub open spec fn spec_is_due(s: StorageView, now: u64, job_id: u64, reply: ResolverReply) -> bool {
    let config = s.config.unwrap();
    &&& !config.paused
    &&& config.executor is Some
    &&& s.jobs.contains_key(job_id)
    &&& spec_ensure_due(s.jobs[job_id], now) is Ok
    &&& spec_resolver_allows(s.jobs[job_id], reply)
}

/// The resolver that `is_due` consults, if it reaches that point.
pub open spec fn spec_is_due_resolver(s: StorageView, now: u64, job_id: u64) -> Option<Address> {
    let config = s.config.unwrap();
    if !config.paused && config.executor is Some && s.jobs.contains_key(job_id) && spec_ensure_due(
        s.jobs[job_id],
        now,
    ) is Ok {
        s.jobs[job_id].resolver
    } else {
        None
    }
}

/// Most jobs that one call of `get_jobs` gives back.
pub const MAX_PAGE: u32 = 50;

/// The stored jobs with ids in `lo..hi`, in id order.
pub open spec fn jobs_between(jobs: Map<u64, Job>, lo: int, hi: int) -> Seq<Job>
    decreases hi - lo,
{
    if hi <= lo {
        Seq::empty()
    } else {
        jobs_between(jobs, lo, hi - 1) + if jobs.contains_key((hi - 1) as u64) {
            seq![jobs[(hi - 1) as u64]]
        } else {
            Seq::empty()
        }
    }
}

/// The page `get_jobs(start, limit)` gives: the stored jobs among the ids
/// from `start` to the end of the page or of the issued ids, whichever
/// comes first.
pub open spec fn spec_get_jobs(s: StorageView, start: u64, limit: u32) -> Seq<Job> {
    let page = if limit > MAX_PAGE {
        MAX_PAGE
    } else {
        limit
    };
    let end = if start + page <= s.next_job_id {
        start + page
    } else {
        s.next_job_id as int
    };
    jobs_between(s.jobs, start as int, end)
}

/// The record of a keeper that has not staked before.
pub open spec fn fresh_keeper() -> Keeper {
    Keeper { stake: 0, unbonding_at: None, executions: 0 }
}

/// The keeper's record, or a fresh one.
pub open spec fn keeper_or_fresh(s: StorageView, keeper: Address) -> Keeper {
    if s.keepers.contains_key(keeper) {
        s.keepers[keeper]
    } else {
        fresh_keeper()
    }
}

pub open spec fn stake_step(s: StorageView, contract: Address, keeper: Address, amount: i128) -> Step<
    i128,
> {
    let config = s.config.unwrap();
    let auth = seq![HostOp::RequireAuth(keeper)];
    let info = keeper_or_fresh(s, keeper);
    if config.paused {
        failed(s, seq![], Error::Paused)
    } else if amount <= 0 {
        failed(s, auth, Error::InvalidAmount)
    } else if info.unbonding_at is Some {
        failed(s, auth, Error::KeeperUnbonding)
    } else {
        let total = (info.stake + amount) as i128;
        Step {
            result: Ok(total),
            storage: StorageView {
                keepers: s.keepers.insert(keeper, Keeper { stake: total, ..info }),
                ..s
            },
            ops: auth + seq![
                HostOp::Transfer(
                    Transfer { token: config.stake_token, from: keeper, to: contract, amount },
                ),
                HostOp::Publish(Event::KeeperStaked(KeeperStaked { keeper, amount, total })),
            ],
        }
    }
}

pub open spec fn begin_unbonding_step(s: StorageView, now: u64, keeper: Address) -> Step<u64> {
    let config = s.config.unwrap();
    let auth = seq![HostOp::RequireAuth(keeper)];
    if !s.keepers.contains_key(keeper) {
        failed(s, auth, Error::KeeperNotFound)
    } else if s.keepers[keeper].unbonding_at is Some {
        failed(s, auth, Error::KeeperUnbonding)
    } else {
        let withdrawable_at = now.saturating_add(config.unbonding_period);
        Step {
            result: Ok(withdrawable_at),
            storage: StorageView {
                keepers: s.keepers.insert(
                    keeper,
                    Keeper { unbonding_at: Some(withdrawable_at), ..s.keepers[keeper] },
                ),
                ..s
            },
            ops: auth + seq![
                HostOp::Publish(
                    Event::KeeperUnbonding(KeeperUnbonding { keeper, withdrawable_at }),
                ),
            ],
        }
    }
}

pub open spec fn withdraw_stake_step(s: StorageView, contract: Address, now: u64, keeper: Address) -> Step<
    i128,
> {
    let config = s.config.unwrap();
    let auth = seq![HostOp::RequireAuth(keeper)];
    if !s.keepers.contains_key(keeper) {
        failed(s, auth, Error::KeeperNotFound)
    } else if s.keepers[keeper].unbonding_at is None {
        failed(s, auth, Error::UnbondingNotStarted)
    } else if now < s.keepers[keeper].unbonding_at.unwrap() {
        failed(s, auth, Error::UnbondingNotFinished)
    } else {
        let amount = s.keepers[keeper].stake;
        Step {
            result: Ok(amount),
            storage: StorageView { keepers: s.keepers.remove(keeper), ..s },
            ops: auth + seq![
                HostOp::Transfer(
                    Transfer { token: config.stake_token, from: contract, to: keeper, amount },
                ),
                HostOp::Publish(Event::KeeperWithdrawn(KeeperWithdrawn { keeper, amount })),
            ],
        }
    }
}

pub open spec fn set_executor_step(s: StorageView, executor: Address) -> Step<()> {
    let config = s.config.unwrap();
    let auth = seq![HostOp::RequireAuth(config.admin)];
    if config.executor is Some {
        failed(s, auth, Error::ExecutorAlreadySet)
    } else {
        Step {
            result: Ok(()),
            storage: StorageView { config: Some(Config { executor: Some(executor), ..config }), ..s },
            ops: auth + seq![HostOp::Publish(Event::ExecutorSet(ExecutorSet { executor }))],
        }
    }
}

pub open spec fn propose_admin_step(s: StorageView, new_admin: Address) -> Step<()> {
    let config = s.config.unwrap();
    Step {
        result: Ok(()),
        storage: StorageView { pending_admin: Some(new_admin), ..s },
        ops: seq![
            HostOp::RequireAuth(config.admin),
            HostOp::Publish(
                Event::AdminProposed(AdminProposed { current: config.admin, proposed: new_admin }),
            ),
        ],
    }
}

pub open spec fn accept_admin_step(s: StorageView) -> Step<()> {
    let config = s.config.unwrap();
    if s.pending_admin is None {
        failed(s, seq![], Error::NoPendingAdmin)
    } else {
        let pending = s.pending_admin.unwrap();
        Step {
            result: Ok(()),
            storage: StorageView {
                config: Some(Config { admin: pending, ..config }),
                pending_admin: None,
                ..s
            },
            ops: seq![
                HostOp::RequireAuth(pending),
                HostOp::Publish(
                    Event::AdminChanged(AdminChanged { previous: config.admin, new_admin: pending }),
                ),
            ],
        }
    }
}

pub open spec fn cancel_admin_proposal_step(s: StorageView) -> Step<()> {
    let config = s.config.unwrap();
    let auth = seq![HostOp::RequireAuth(config.admin)];
    if s.pending_admin is None {
        failed(s, auth, Error::NoPendingAdmin)
    } else {
        Step {
            result: Ok(()),
            storage: StorageView { pending_admin: None, ..s },
            ops: auth + seq![
                HostOp::Publish(
                    Event::AdminProposalCancelled(
                        AdminProposalCancelled {
                            current: config.admin,
                            cancelled: s.pending_admin.unwrap(),
                        },
                    ),
                ),
            ],
        }
    }
}

pub open spec fn set_paused_step(s: StorageView, paused: bool) -> Step<()> {
    let config = s.config.unwrap();
    Step {
        result: Ok(()),
        storage: StorageView { config: Some(Config { paused, ..config }), ..s },
        ops: seq![
            HostOp::RequireAuth(config.admin),
            HostOp::Publish(Event::PausedSet(PausedSet { paused })),
        ],
    }
}

pub open spec fn set_min_stake_step(s: StorageView, min_stake: i128) -> Step<()> {
    let config = s.config.unwrap();
    let auth = seq![HostOp::RequireAuth(config.admin)];
    if min_stake < 0 {
        failed(s, auth, Error::InvalidAmount)
    } else {
        Step {
            result: Ok(()),
            storage: StorageView { config: Some(Config { min_stake, ..config }), ..s },
            ops: auth + seq![HostOp::Publish(Event::MinStakeSet(MinStakeSet { min_stake }))],
        }
    }
}

// ----------------------------------------------------------------------
// Where a call would overflow
// ----------------------------------------------------------------------

/// `create_job` passes every check while every job id has been issued: the
/// next id does not fit, and the call aborts.
pub open spec fn spec_create_job_overflows(
    s: StorageView,
    contract: Address,
    now: u64,
    owner: Address,
    params: JobParams,
    deposit: i128,
) -> bool {
    create_job_step(s, contract, now, owner, params, deposit).result is Ok && s.next_job_id
        == u64::MAX
}

/// `fund_job` passes every check but the new balance does not fit.
pub open spec fn spec_fund_job_overflows(
    s: StorageView,
    contract: Address,
    from: Address,
    job_id: u64,
    amount: i128,
) -> bool {
    fund_job_step(s, contract, from, job_id, amount).result is Ok && s.jobs[job_id].balance
        + amount > i128::MAX
}

/// `execute` passes every check but the job's run count is full.
pub open spec fn spec_execute_overflows(
    s: StorageView,
    contract: Address,
    now: u64,
    keeper: Address,
    job_id: u64,
    reply: ResolverReply,
) -> bool {
    &&& execute_step(s, contract, now, keeper, job_id, reply).result is Ok
    &&& s.jobs[job_id].max_runs == 0
    &&& s.jobs[job_id].runs == u32::MAX
}

/// `stake` passes every check but the new stake does not fit.
pub open spec fn spec_stake_overflows(s: StorageView, contract: Address, keeper: Address, amount: i128) -> bool {
    stake_step(s, contract, keeper, amount).result is Ok && keeper_or_fresh(s, keeper).stake
        + amount > i128::MAX
}

// ----------------------------------------------------------------------
// Entry points
// ----------------------------------------------------------------------

/// The registry contract.
pub struct SoroCron;

impl SoroCron {
    /// Initializes the registry. Runs exactly once, at deploy time; the
    /// executor is connected afterwards with `set_executor`.
    pub fn __constructor(
        env: &mut Context,
        admin: Address,
        fee_token: Address,
        stake_token: Address,
        min_stake: i128,
        unbonding_period: u64,
    ) -> (r: Result<(), Error>)
        requires
            old(env).storage.wf(),
            forall|id: u64| #[trigger]
                old(env).storage@.jobs.contains_key(id) ==> job_ok(old(env).storage@.jobs[id]),
        ensures
            final(env).storage.wf(),
            follows(
                old(env),
                final(env),
                r,
                constructor_step(
                    old(env).storage@,
                    admin,
                    fee_token,
                    stake_token,
                    min_stake,
                    unbonding_period,
                ),
            ),
            r is Ok ==> ready(final(env)),
    {
        if min_stake < 0 {
            return Err(Error::InvalidAmount);
        }
        let config = Config {
            admin,
            fee_token,
            stake_token,
            min_stake,
            unbonding_period,
            paused: false,
            executor: None,
        };
        storage::set_config(env, &config);
        Ok(())
    }

    /// Registers a new job and escrows `deposit` of the fee token.
    /// Returns the new job id.
    pub fn create_job(env: &mut Context, owner: Address, params: JobParams, deposit: i128) -> (r: Result<
        u64,
        Error,
    >)
        requires
            ready(old(env)),
            !spec_create_job_overflows(
                old(env).storage@,
                old(env).contract,
                old(env).timestamp,
                owner,
                params,
                deposit,
            ),
        ensures
            ready(final(env)),
            follows(
                old(env),
                final(env),
                r,
                create_job_step(
                    old(env).storage@,
                    old(env).contract,
                    old(env).timestamp,
                    owner,
                    params,
                    deposit,
                ),
            ),
    {
        let config = storage::load_config(env);
        if let Err(e) = ensure_not_paused(&config) {
            return Err(e);
        }
        env.require_auth(&owner);
        if params.interval == 0 {
            return Err(Error::InvalidInterval);
        }
        if params.fee_per_run <= 0 {
            return Err(Error::InvalidFee);
        }
        if deposit < params.fee_per_run {
            return Err(Error::InvalidAmount);
        }
        if is_forbidden_target(env, &config, &params.target) {
            return Err(Error::ForbiddenTarget);
        }
        let this = env.contract;
        env.transfer(&config.fee_token, &owner, &this, deposit);
        let id = storage::take_next_job_id(env);
        let now = env.timestamp;
        let job = Job {
            id,
            owner,
            target: params.target,
            function: params.function,
            args: params.args,
            interval: params.interval,
            next_run: if params.start_at >= now {
                params.start_at
            } else {
                now
            },
            fee_per_run: params.fee_per_run,
            balance: deposit,
            max_runs: params.max_runs,
            runs: 0,
            end_at: params.end_at,
            resolver: params.resolver,
            active: true,
        };
        storage::set_job(env, &job);
        storage::add_owner_job(env, &owner, id);
        env.publish(
            Event::JobCreated(
                JobCreated {
                    job_id: id,
                    owner,
                    target: job.target,
                    interval: job.interval,
                    fee_per_run: job.fee_per_run,
                    deposit,
                },
            ),
        );
        Ok(id)
    }

    /// Tops up a job's fee balance. Anyone may fund any job.
    pub fn fund_job(env: &mut Context, from: Address, job_id: u64, amount: i128) -> (r: Result<
        i128,
        Error,
    >)
        requires
            ready(old(env)),
            !spec_fund_job_overflows(old(env).storage@, old(env).contract, from, job_id, amount),
        ensures
            ready(final(env)),
            follows(
                old(env),
                final(env),
                r,
                fund_job_step(old(env).storage@, old(env).contract, from, job_id, amount),
            ),
    {
        let config = storage::load_config(env);
        if let Err(e) = ensure_not_paused(&config) {
            return Err(e);
        }
        env.require_auth(&from);
        if amount <= 0 {
            return Err(Error::InvalidAmount);
        }
        let mut job = match storage::get_job(env, job_id) {
            Some(job) => job,
            None => {
                return Err(Error::JobNotFound);
            },
        };
        let this = env.contract;
        env.transfer(&config.fee_token, &from, &this, amount);
        job.balance = job.balance + amount;
        storage::set_job(env, &job);
        let balance = job.balance;
        env.publish(Event::JobFunded(JobFunded { job_id, from, amount, balance }));
        Ok(balance)
    }

    /// Deletes a job and refunds its remaining balance to the owner.
    /// Always allowed, even while the registry is paused.
    pub fn cancel_job(env: &mut Context, job_id: u64) -> (r: Result<i128, Error>)
        requires
            ready(old(env)),
        ensures
            ready(final(env)),
            follows(
                old(env),
                final(env),
                r,
                cancel_job_step(old(env).storage@, old(env).contract, job_id),
            ),
    {
        let config = storage::load_config(env);
        let job = match storage::get_job(env, job_id) {
            Some(job) => job,
            None => {
                return Err(Error::JobNotFound);
            },
        };
        env.require_auth(&job.owner);
        storage::remove_job(env, job_id);
        storage::remove_owner_job(env, &job.owner, job_id);
        if job.balance > 0 {
            let this = env.contract;
            env.transfer(&config.fee_token, &this, &job.owner, job.balance);
        }
        env.publish(Event::JobCancelled(JobCancelled { job_id, refund: job.balance }));
        Ok(job.balance)
    }

    /// Pauses (`active = false`) or resumes a job. A paused job keeps its
    /// balance and schedule but can't be executed; funding and cancelling
    /// still work. Owner only.
    pub fn set_job_active(env: &mut Context, job_id: u64, active: bool) -> (r: Result<(), Error>)
        requires
            ready(old(env)),
        ensures
            ready(final(env)),
            follows(old(env), final(env), r, set_job_active_step(old(env).storage@, job_id, active)),
    {
        let mut job = match storage::get_job(env, job_id) {
            Some(job) => job,
            None => {
                return Err(Error::JobNotFound);
            },
        };
        env.require_auth(&job.owner);
        job.active = active;
        storage::set_job(env, &job);
        env.publish(Event::JobActiveSet(JobActiveSet { job_id, active }));
        Ok(())
    }

    /// Executes a due job: calls the target through the executor, advances
    /// the schedule and pays `fee_per_run` to the calling keeper. `reply` is
    /// what the job's resolver answered, when `execute_resolver` says that
    /// this call consults one; it is not looked at otherwise.
    pub fn execute(env: &mut Context, keeper: Address, job_id: u64, reply: ResolverReply) -> (r: Result<
        (),
        Error,
    >)
        requires
            ready(old(env)),
            !spec_execute_overflows(
                old(env).storage@,
                old(env).contract,
                old(env).timestamp,
                keeper,
                job_id,
                reply,
            ),
        ensures
            ready(final(env)),
            follows(
                old(env),
                final(env),
                r,
                execute_step(
                    old(env).storage@,
                    old(env).contract,
                    old(env).timestamp,
                    keeper,
                    job_id,
                    reply,
                ),
            ),
    {
        let config = storage::load_config(env);
        if let Err(e) = ensure_not_paused(&config) {
            return Err(e);
        }
        let executor = match config.executor {
            Some(executor) => executor,
            None => {
                return Err(Error::ExecutorNotSet);
            },
        };
        env.require_auth(&keeper);
        let mut keeper_info = match storage::get_keeper(env, &keeper) {
            Some(info) => info,
            None => {
                return Err(Error::KeeperNotFound);
            },
        };
        match ensure_active_keeper(&config, &keeper_info) {
            Ok(()) => {},
            Err(e) => {
                return Err(e);
            },
        }
        let mut job = match storage::get_job(env, job_id) {
            Some(job) => job,
            None => {
                return Err(Error::JobNotFound);
            },
        };
        let now = env.timestamp;
        match ensure_due(&job, now) {
            Ok(()) => {},
            Err(e) => {
                return Err(e);
            },
        }
        if !resolver_allows(&job, reply) {
            return Err(Error::ResolverRejected);
        }
        // Effects before interactions.
        job.runs = job.runs + 1;
        job.balance = job.balance - job.fee_per_run;
        job.next_run = next_run_after(job.next_run, job.interval, now);
        storage::set_job(env, &job);
        keeper_info.executions = keeper_info.executions.saturating_add(1);
        storage::set_keeper(env, &keeper, &keeper_info);
        // Interactions.
        env.call_target(
            TargetCall {
                executor,
                target: job.target,
                function: job.function.clone(),
                args: job.args.clone(),
            },
        );
        let this = env.contract;
        env.transfer(&config.fee_token, &this, &keeper, job.fee_per_run);
        env.report_run(
            JobRun { job_id, keeper, fee: job.fee_per_run, run: job.runs, next_run: job.next_run },
        );
        Ok(())
    }

    /// The resolver that `execute` would ask before running this job, if the
    /// call gets that far: every earlier gate passes and the job has one.
    pub fn execute_resolver(env: &Context, keeper: &Address, job_id: u64) -> (r: Option<Address>)
        requires
            ready(env),
        ensures
            r == spec_execute_resolver(env.storage@, env.timestamp, *keeper, job_id),
    {
        let config = storage::load_config(env);
        if config.paused || config.executor.is_none() {
            return None;
        }
        let keeper_info = match storage::get_keeper(env, keeper) {
            Some(info) => info,
            None => {
                return None;
            },
        };
        if ensure_active_keeper(&config, &keeper_info).is_err() {
            return None;
        }
        let job = match storage::get_job(env, job_id) {
            Some(job) => job,
            None => {
                return None;
            },
        };
        if ensure_due(&job, env.timestamp).is_err() {
            return None;
        }
        job.resolver
    }

    /// Whether `create_job` would pass every check with no job id left to
    /// issue, so that the call must abort.
    pub fn create_job_overflows(env: &Context, owner: &Address, params: &JobParams, deposit: i128) -> (r: bool)
        requires
            ready(env),
        ensures
            r == spec_create_job_overflows(
                env.storage@,
                env.contract,
                env.timestamp,
                *owner,
                *params,
                deposit,
            ),
    {
        let config = storage::load_config(env);
        if config.paused || params.interval == 0 || params.fee_per_run <= 0 || deposit
            < params.fee_per_run || is_forbidden_target(env, &config, &params.target) {
            return false;
        }
        storage::next_job_id(env) == u64::MAX
    }

    /// Whether `fund_job` would pass every check with a balance that no
    /// longer fits, so that the call must abort.
    pub fn fund_job_overflows(env: &Context, from: &Address, job_id: u64, amount: i128) -> (r: bool)
        requires
            ready(env),
        ensures
            r == spec_fund_job_overflows(env.storage@, env.contract, *from, job_id, amount),
    {
        let config = storage::load_config(env);
        if config.paused || amount <= 0 {
            return false;
        }
        match storage::get_job(env, job_id) {
            Some(job) => job.balance.checked_add(amount).is_none(),
            None => false,
        }
    }

    /// Whether `execute` would pass every check with the job's run count
    /// full, so that the call must abort.
    pub fn execute_overflows(env: &Context, keeper: &Address, job_id: u64, reply: ResolverReply) -> (r:
        bool)
        requires
            ready(env),
        ensures
            r == spec_execute_overflows(
                env.storage@,
                env.contract,
                env.timestamp,
                *keeper,
                job_id,
                reply,
            ),
    {
        let config = storage::load_config(env);
        if config.paused || config.executor.is_none() {
            return false;
        }
        let info = match storage::get_keeper(env, keeper) {
            Some(info) => info,
            None => {
                return false;
            },
        };
        if ensure_active_keeper(&config, &info).is_err() {
            return false;
        }
        let job = match storage::get_job(env, job_id) {
            Some(job) => job,
            None => {
                return false;
            },
        };
        if ensure_due(&job, env.timestamp).is_err() || !resolver_allows(&job, reply) {
            return false;
        }
        job.max_runs == 0 && job.runs == u32::MAX
    }

    /// Whether `stake` would pass every check with a stake that no longer
    /// fits, so that the call must abort.
    pub fn stake_overflows(env: &Context, keeper: &Address, amount: i128) -> (r: bool)
        requires
            ready(env),
        ensures
            r == spec_stake_overflows(env.storage@, env.contract, *keeper, amount),
    {
        let config = storage::load_config(env);
        if config.paused || amount <= 0 {
            return false;
        }
        let info = match storage::get_keeper(env, keeper) {
            Some(info) => info,
            None => Keeper { stake: 0, unbonding_at: None, executions: 0 },
        };
        if info.unbonding_at.is_some() {
            return false;
        }
        info.stake.checked_add(amount).is_none()
    }

    // ------------------------------------------------------------------
    // Keepers
    // ------------------------------------------------------------------

    /// Stakes `amount` of the stake token. Registers the keeper on first call.
    pub fn stake(env: &mut Context, keeper: Address, amount: i128) -> (r: Result<i128, Error>)
        requires
            ready(old(env)),
            !spec_stake_overflows(old(env).storage@, old(env).contract, keeper, amount),
        ensures
            ready(final(env)),
            follows(
                old(env),
                final(env),
                r,
                stake_step(old(env).storage@, old(env).contract, keeper, amount),
            ),
    {
        let config = storage::load_config(env);
        if let Err(e) = ensure_not_paused(&config) {
            return Err(e);
        }
        env.require_auth(&keeper);
        if amount <= 0 {
            return Err(Error::InvalidAmount);
        }
        let mut info = match storage::get_keeper(env, &keeper) {
            Some(info) => info,
            None => Keeper { stake: 0, unbonding_at: None, executions: 0 },
        };
        if info.unbonding_at.is_some() {
            return Err(Error::KeeperUnbonding);
        }
        let this = env.contract;
        env.transfer(&config.stake_token, &keeper, &this, amount);
        info.stake = info.stake + amount;
        storage::set_keeper(env, &keeper, &info);
        env.publish(Event::KeeperStaked(KeeperStaked { keeper, amount, total: info.stake }));
        Ok(info.stake)
    }

    /// Starts the unbonding period. The keeper stops being eligible to
    /// execute immediately. Returns the timestamp when stake is withdrawable.
    pub fn begin_unbonding(env: &mut Context, keeper: Address) -> (r: Result<u64, Error>)
        requires
            ready(old(env)),
        ensures
            ready(final(env)),
            follows(
                old(env),
                final(env),
                r,
                begin_unbonding_step(old(env).storage@, old(env).timestamp, keeper),
            ),
    {
        let config = storage::load_config(env);
        env.require_auth(&keeper);
        let mut info = match storage::get_keeper(env, &keeper) {
            Some(info) => info,
            None => {
                return Err(Error::KeeperNotFound);
            },
        };
        if info.unbonding_at.is_some() {
            return Err(Error::KeeperUnbonding);
        }
        let withdrawable_at = env.timestamp.saturating_add(config.unbonding_period);
        info.unbonding_at = Some(withdrawable_at);
        storage::set_keeper(env, &keeper, &info);
        env.publish(Event::KeeperUnbonding(KeeperUnbonding { keeper, withdrawable_at }));
        Ok(withdrawable_at)
    }

    /// Withdraws the full stake once unbonding has finished.
    /// Always allowed, even while the registry is paused.
    pub fn withdraw_stake(env: &mut Context, keeper: Address) -> (r: Result<i128, Error>)
        requires
            ready(old(env)),
        ensures
            ready(final(env)),
            follows(
                old(env),
                final(env),
                r,
                withdraw_stake_step(old(env).storage@, old(env).contract, old(env).timestamp, keeper),
            ),
    {
        let config = storage::load_config(env);
        env.require_auth(&keeper);
        let info = match storage::get_keeper(env, &keeper) {
            Some(info) => info,
            None => {
                return Err(Error::KeeperNotFound);
            },
        };
        let withdrawable_at = match info.unbonding_at {
            Some(at) => at,
            None => {
                return Err(Error::UnbondingNotStarted);
            },
        };
        if env.timestamp < withdrawable_at {
            return Err(Error::UnbondingNotFinished);
        }
        storage::remove_keeper(env, &keeper);
        let this = env.contract;
        env.transfer(&config.stake_token, &this, &keeper, info.stake);
        env.publish(Event::KeeperWithdrawn(KeeperWithdrawn { keeper, amount: info.stake }));
        Ok(info.stake)
    }

    // ------------------------------------------------------------------
    // Admin
    // ------------------------------------------------------------------

    /// Connects the executor contract. Can only be done once, so users can
    /// verify which executor their jobs will run through.
    pub fn set_executor(env: &mut Context, executor: Address) -> (r: Result<(), Error>)
        requires
            ready(old(env)),
        ensures
            ready(final(env)),
            follows(old(env), final(env), r, set_executor_step(old(env).storage@, executor)),
    {
        let mut config = storage::load_config(env);
        env.require_auth(&config.admin);
        if config.executor.is_some() {
            return Err(Error::ExecutorAlreadySet);
        }
        config.executor = Some(executor);
        storage::set_config(env, &config);
        env.publish(Event::ExecutorSet(ExecutorSet { executor }));
        Ok(())
    }

    /// Starts an admin handover. The proposed admin must call `accept_admin`
    /// to take over. Proposing again replaces the pending proposal.
    pub fn propose_admin(env: &mut Context, new_admin: Address)
        requires
            ready(old(env)),
        ensures
            ready(final(env)),
            follows(old(env), final(env), Ok(()), propose_admin_step(old(env).storage@, new_admin)),
    {
        let config = storage::load_config(env);
        env.require_auth(&config.admin);
        storage::set_pending_admin(env, &new_admin);
        env.publish(
            Event::AdminProposed(AdminProposed { current: config.admin, proposed: new_admin }),
        );
    }

    /// Completes an admin handover. Must be signed by the proposed admin,
    /// which proves the new key is controlled before the old one lets go.
    pub fn accept_admin(env: &mut Context) -> (r: Result<(), Error>)
        requires
            ready(old(env)),
        ensures
            ready(final(env)),
            follows(old(env), final(env), r, accept_admin_step(old(env).storage@)),
    {
        let mut config = storage::load_config(env);
        let pending = match storage::get_pending_admin(env) {
            Some(pending) => pending,
            None => {
                return Err(Error::NoPendingAdmin);
            },
        };
        env.require_auth(&pending);
        storage::remove_pending_admin(env);
        let previous = config.admin;
        config.admin = pending;
        storage::set_config(env, &config);
        env.publish(Event::AdminChanged(AdminChanged { previous, new_admin: pending }));
        Ok(())
    }

    /// Admin proposed with `propose_admin` that hasn't accepted yet.
    pub fn pending_admin(env: &Context) -> (r: Option<Address>)
        ensures
            r == env.storage@.pending_admin,
    {
        storage::get_pending_admin(env)
    }

    /// Withdraws a pending admin proposal. Current admin only.
    pub fn cancel_admin_proposal(env: &mut Context) -> (r: Result<(), Error>)
        requires
            ready(old(env)),
        ensures
            ready(final(env)),
            follows(old(env), final(env), r, cancel_admin_proposal_step(old(env).storage@)),
    {
        let config = storage::load_config(env);
        env.require_auth(&config.admin);
        let pending = match storage::get_pending_admin(env) {
            Some(pending) => pending,
            None => {
                return Err(Error::NoPendingAdmin);
            },
        };
        storage::remove_pending_admin(env);
        env.publish(
            Event::AdminProposalCancelled(
                AdminProposalCancelled { current: config.admin, cancelled: pending },
            ),
        );
        Ok(())
    }

    /// Emergency switch. While paused, no jobs run and no new funds enter;
    /// cancellations and stake withdrawals keep working.
    pub fn set_paused(env: &mut Context, paused: bool)
        requires
            ready(old(env)),
        ensures
            ready(final(env)),
            follows(old(env), final(env), Ok(()), set_paused_step(old(env).storage@, paused)),
    {
        let mut config = storage::load_config(env);
        env.require_auth(&config.admin);
        config.paused = paused;
        storage::set_config(env, &config);
        env.publish(Event::PausedSet(PausedSet { paused }));
    }

    /// Changes the minimum stake a keeper needs to execute jobs.
    pub fn set_min_stake(env: &mut Context, min_stake: i128) -> (r: Result<(), Error>)
        requires
            ready(old(env)),
        ensures
            ready(final(env)),
            follows(old(env), final(env), r, set_min_stake_step(old(env).storage@, min_stake)),
    {
        let mut config = storage::load_config(env);
        env.require_auth(&config.admin);
        if min_stake < 0 {
            return Err(Error::InvalidAmount);
        }
        config.min_stake = min_stake;
        storage::set_config(env, &config);
        env.publish(Event::MinStakeSet(MinStakeSet { min_stake }));
        Ok(())
    }

    // ------------------------------------------------------------------
    // Views
    // ------------------------------------------------------------------

    /// The registry's settings.
    pub fn config(env: &Context) -> (c: Config)
        requires
            ready(env),
        ensures
            c == env.storage@.config.unwrap(),
    {
        storage::load_config(env)
    }

    /// The job stored under `job_id`.
    pub fn get_job(env: &Context, job_id: u64) -> (r: Option<Job>)
        requires
            ready(env),
        ensures
            r == (if env.storage@.jobs.contains_key(job_id) {
                Some(env.storage@.jobs[job_id])
            } else {
                None
            }),
    {
        storage::get_job(env, job_id)
    }

    /// The record of `keeper`.
    pub fn get_keeper(env: &Context, keeper: Address) -> (r: Option<Keeper>)
        requires
            ready(env),
        ensures
            r == (if env.storage@.keepers.contains_key(keeper) {
                Some(env.storage@.keepers[keeper])
            } else {
                None
            }),
    {
        storage::get_keeper(env, &keeper)
    }

    /// The ids of `owner`'s jobs, oldest first.
    pub fn jobs_by_owner(env: &Context, owner: Address) -> (ids: Vec<u64>)
        requires
            ready(env),
        ensures
            ids@ == owner_ids(env.storage@, owner),
    {
        storage::owner_jobs(env, &owner)
    }

    /// One page of jobs: those with ids from `start` on, among the next
    /// `limit` ids issued (at most `MAX_PAGE`), skipping cancelled ids.
    pub fn get_jobs(env: &Context, start: u64, limit: u32) -> (jobs: Vec<Job>)
        requires
            ready(env),
        ensures
            jobs@ == spec_get_jobs(env.storage@, start, limit),
    {
        let page: u64 = if limit > MAX_PAGE {
            MAX_PAGE as u64
        } else {
            limit as u64
        };
        let next = storage::next_job_id(env);
        let end: u64 = if start >= next {
            start
        } else if next - start <= page {
            next
        } else {
            start + page
        };
        let mut jobs: Vec<Job> = Vec::new();
        let mut id: u64 = start;
        while id < end
            invariant
                ready(env),
                start <= id <= end,
                jobs@ == jobs_between(env.storage@.jobs, start as int, id as int),
            decreases end - id,
        {
            match storage::get_job(env, id) {
                Some(job) => jobs.push(job),
                None => {},
            }
            id = id + 1;
        }
        jobs
    }

    /// Number of job ids ever issued. Ids run from `0` to `job_count - 1`;
    /// cancelled ids are not reused.
    pub fn job_count(env: &Context) -> (n: u64)
        ensures
            n == env.storage@.next_job_id,
    {
        storage::next_job_id(env)
    }

    /// Whether `execute` would currently succeed for this job (ignoring
    /// keeper eligibility). `reply` is what the job's resolver answered, when
    /// `is_due_resolver` says this call consults one; it is not looked at
    /// otherwise.
    pub fn is_due(env: &Context, job_id: u64, reply: ResolverReply) -> (r: bool)
        requires
            ready(env),
        ensures
            r == spec_is_due(env.storage@, env.timestamp, job_id, reply),
    {
        let config = storage::load_config(env);
        if config.paused || config.executor.is_none() {
            return false;
        }
        match storage::get_job(env, job_id) {
            Some(job) => ensure_due(&job, env.timestamp).is_ok() && resolver_allows(&job, reply),
            None => false,
        }
    }

    /// The resolver that `is_due` would ask about this job, if the call gets
    /// that far.
    pub fn is_due_resolver(env: &Context, job_id: u64) -> (r: Option<Address>)
        requires
            ready(env),
        ensures
            r == spec_is_due_resolver(env.storage@, env.timestamp, job_id),
    {
        let config = storage::load_config(env);
        if config.paused || config.executor.is_none() {
            return None;
        }
        match storage::get_job(env, job_id) {
            Some(job) => if ensure_due(&job, env.timestamp).is_ok() {
                job.resolver
            } else {
                None
            },
            None => None,
        }
    }
}

} // verus!
