//! What holds of the registry across calls.
use vstd::prelude::*;

use crate::address::Address;
use crate::env::HostOp;
use crate::errors::Error;
use crate::registry::{
    accept_admin_step, begin_unbonding_step, cancel_admin_proposal_step, set_min_stake_step,
    set_paused_step, cancel_job_step, create_job_step, execute_step,
    fund_job_step, job_after_run, job_ok, propose_admin_step, registry_inv, set_executor_step,
    set_job_active_step, spec_active_keeper, spec_create_job_overflows, spec_execute_overflows,
    spec_fund_job_overflows, spec_stake_overflows, spec_ensure_due, spec_is_due, spec_next_run_after,
    jobs_between, spec_execute_resolver, spec_get_jobs, spec_is_due_resolver, stake_step,
    withdraw_stake_step, ResolverReply, MAX_PAGE,
};
use crate::storage::{jobs_well_keyed, owner_ids, remove_first, StorageView};
use crate::types::{Config, Job, JobParams, Keeper};

verus! {

/// A job that passes its gates can pay its fee: taking the fee out of its
/// balance leaves a balance that is neither negative nor out of range.
pub proof fn lemma_due_job_can_pay(job: Job, now: u64)
    requires
        job.fee_per_run > 0,
        spec_ensure_due(job, now) is Ok,
    ensures
        0 <= job.balance - job.fee_per_run < i128::MAX,
{
}

/// A job that has just run at `now` is not due again at `now`: missed runs
/// never fire back to back, whatever the schedule had fallen behind by.
pub proof fn lemma_run_is_not_due_again(job: Job, now: u64)
    requires
        job_ok(job),
        now < u64::MAX,
        spec_ensure_due(job, now) is Ok,
        job.max_runs == 0 ==> job.runs < u32::MAX,
    ensures
        spec_ensure_due(job_after_run(job, now), now) is Err,
        job_after_run(job, now).next_run > now,
{
    assert(spec_next_run_after(job.next_run, job.interval, now) > now);
}

/// After a successful `execute` at `now`, executing the same job again at
/// `now` fails, whoever asks and whatever its resolver says.
pub proof fn lemma_no_back_to_back_runs(
    s: StorageView,
    contract: Address,
    now: u64,
    keeper: Address,
    job_id: u64,
    reply: ResolverReply,
    keeper2: Address,
    reply2: ResolverReply,
)
    requires
        registry_inv(s),
        now < u64::MAX,
        !spec_execute_overflows(s, contract, now, keeper, job_id, reply),
        execute_step(s, contract, now, keeper, job_id, reply).result is Ok,
    ensures
        execute_step(
            execute_step(s, contract, now, keeper, job_id, reply).storage,
            contract,
            now,
            keeper2,
            job_id,
            reply2,
        ).result is Err,
{
    lemma_run_is_not_due_again(s.jobs[job_id], now);
}

/// With an eligible keeper, `is_due` says exactly whether `execute` succeeds.
pub proof fn lemma_is_due_matches_execute(
    s: StorageView,
    contract: Address,
    now: u64,
    keeper: Address,
    job_id: u64,
    reply: ResolverReply,
)
    requires
        registry_inv(s),
        s.keepers.contains_key(keeper),
        spec_active_keeper(s.config.unwrap(), s.keepers[keeper]) is Ok,
    ensures
        spec_is_due(s, now, job_id, reply) <==> execute_step(
            s,
            contract,
            now,
            keeper,
            job_id,
            reply,
        ).result is Ok,
{
}

/// Job ids are issued in order and never reused: a new job gets the next
/// id, which no stored job holds and which exceeds every stored job's id.
pub proof fn lemma_job_ids_sequential(
    s: StorageView,
    contract: Address,
    now: u64,
    owner: Address,
    params: JobParams,
    deposit: i128,
)
    requires
        registry_inv(s),
        forall|id: u64| #[trigger] s.jobs.contains_key(id) ==> id < s.next_job_id,
        !spec_create_job_overflows(s, contract, now, owner, params, deposit),
        create_job_step(s, contract, now, owner, params, deposit).result is Ok,
    ensures
        ({
            let step = create_job_step(s, contract, now, owner, params, deposit);
            &&& step.result == Ok::<u64, Error>(s.next_job_id)
            &&& step.storage.next_job_id == s.next_job_id + 1
            &&& !s.jobs.contains_key(s.next_job_id)
            &&& forall|id: u64| #[trigger] s.jobs.contains_key(id) ==> id < s.next_job_id
            &&& step.storage.jobs.contains_key(s.next_job_id)
        }),
{
}

/// While the registry is paused no job runs and no funds enter: creating,
/// funding, executing and staking fail with `Paused`, ask nothing of the
/// host and change nothing.
pub proof fn lemma_pause_blocks_activity(
    s: StorageView,
    contract: Address,
    now: u64,
    who: Address,
    params: JobParams,
    job_id: u64,
    amount: i128,
    reply: ResolverReply,
)
    requires
        registry_inv(s),
        s.config.unwrap().paused,
    ensures
        create_job_step(s, contract, now, who, params, amount).result == Err::<u64, Error>(
            Error::Paused,
        ),
        create_job_step(s, contract, now, who, params, amount).storage == s,
        create_job_step(s, contract, now, who, params, amount).ops == Seq::<HostOp>::empty(),
        fund_job_step(s, contract, who, job_id, amount).result == Err::<i128, Error>(Error::Paused),
        fund_job_step(s, contract, who, job_id, amount).storage == s,
        fund_job_step(s, contract, who, job_id, amount).ops == Seq::<HostOp>::empty(),
        execute_step(s, contract, now, who, job_id, reply).result == Err::<(), Error>(Error::Paused),
        execute_step(s, contract, now, who, job_id, reply).storage == s,
        execute_step(s, contract, now, who, job_id, reply).ops == Seq::<HostOp>::empty(),
        stake_step(s, contract, who, amount).result == Err::<i128, Error>(Error::Paused),
        stake_step(s, contract, who, amount).storage == s,
        stake_step(s, contract, who, amount).ops == Seq::<HostOp>::empty(),
{
}

/// The storage `s` with the registry paused or resumed.
pub open spec fn with_paused(s: StorageView, paused: bool) -> StorageView {
    StorageView { config: Some(Config { paused, ..s.config.unwrap() }), ..s }
}

/// Pausing never blocks an exit: cancelling a job, starting to unbond and
/// withdrawing stake give the same result, and ask the same of the host,
/// whether or not the registry is paused.
pub proof fn lemma_pause_does_not_block_exits(
    s: StorageView,
    contract: Address,
    now: u64,
    job_id: u64,
    keeper: Address,
    paused: bool,
)
    requires
        registry_inv(s),
    ensures
        cancel_job_step(with_paused(s, paused), contract, job_id).result == cancel_job_step(
            s,
            contract,
            job_id,
        ).result,
        cancel_job_step(with_paused(s, paused), contract, job_id).ops == cancel_job_step(
            s,
            contract,
            job_id,
        ).ops,
        begin_unbonding_step(with_paused(s, paused), now, keeper).result == begin_unbonding_step(
            s,
            now,
            keeper,
        ).result,
        begin_unbonding_step(with_paused(s, paused), now, keeper).ops == begin_unbonding_step(
            s,
            now,
            keeper,
        ).ops,
        withdraw_stake_step(with_paused(s, paused), contract, now, keeper).result
            == withdraw_stake_step(s, contract, now, keeper).result,
        withdraw_stake_step(with_paused(s, paused), contract, now, keeper).ops
            == withdraw_stake_step(s, contract, now, keeper).ops,
{
}

/// An owner can always get out: cancelling an existing job succeeds,
/// refunds exactly its balance to the owner (when there is any), and
/// forgets the job, so that cancelling it again fails with `JobNotFound`.
pub proof fn lemma_cancel_refunds_and_forgets(s: StorageView, contract: Address, job_id: u64)
    requires
        registry_inv(s),
        s.jobs.contains_key(job_id),
    ensures
        ({
            let job = s.jobs[job_id];
            let step = cancel_job_step(s, contract, job_id);
            &&& step.result == Ok::<i128, Error>(job.balance)
            &&& !step.storage.jobs.contains_key(job_id)
            &&& step.ops[0] == HostOp::RequireAuth(job.owner)
            &&& job.balance > 0 ==> step.ops[1] == HostOp::Transfer(
                crate::env::Transfer {
                    token: s.config.unwrap().fee_token,
                    from: contract,
                    to: job.owner,
                    amount: job.balance,
                },
            )
            &&& cancel_job_step(step.storage, contract, job_id).result == Err::<i128, Error>(
                Error::JobNotFound,
            )
        }),
{
}

/// Funding a job and then cancelling it refunds the old balance plus what
/// was added.
pub proof fn lemma_fund_then_cancel(
    s: StorageView,
    contract: Address,
    from: Address,
    job_id: u64,
    amount: i128,
)
    requires
        registry_inv(s),
        !spec_fund_job_overflows(s, contract, from, job_id, amount),
        fund_job_step(s, contract, from, job_id, amount).result is Ok,
    ensures
        cancel_job_step(fund_job_step(s, contract, from, job_id, amount).storage, contract, job_id).result
            == Ok::<i128, Error>((s.jobs[job_id].balance + amount) as i128),
{
}

/// A paused job cannot run, and resuming it puts back exactly the job it was.
pub proof fn lemma_job_pause_and_resume(s: StorageView, job_id: u64, now: u64)
    requires
        registry_inv(s),
        s.jobs.contains_key(job_id),
    ensures
        ({
            let paused = set_job_active_step(s, job_id, false).storage;
            let resumed = set_job_active_step(paused, job_id, true).storage;
            &&& spec_ensure_due(paused.jobs[job_id], now) == Err::<(), Error>(Error::JobPaused)
            &&& s.jobs[job_id].active ==> resumed == s
        }),
{
    let paused = set_job_active_step(s, job_id, false).storage;
    let resumed = set_job_active_step(paused, job_id, true).storage;
    if s.jobs[job_id].active {
        assert(resumed.jobs =~= s.jobs);
    }
}

/// The admin changes only in two steps: a proposal leaves the admin as it
/// was, and the proposed address taking over, signed by itself, makes it the
/// admin and clears the proposal.
pub proof fn lemma_two_step_admin_transfer(s: StorageView, new_admin: Address)
    requires
        registry_inv(s),
    ensures
        ({
            let proposed = propose_admin_step(s, new_admin).storage;
            let accepted = accept_admin_step(proposed);
            &&& proposed.config.unwrap().admin == s.config.unwrap().admin
            &&& proposed.pending_admin == Some(new_admin)
            &&& accepted.result == Ok::<(), Error>(())
            &&& accepted.ops[0] == HostOp::RequireAuth(new_admin)
            &&& accepted.storage.config.unwrap().admin == new_admin
            &&& accepted.storage.pending_admin is None
        }),
{
}

/// A new proposal replaces the pending one: after proposing `first` and then
/// `second`, accepting hands the registry to `second`.
pub proof fn lemma_new_proposal_replaces_pending(s: StorageView, first: Address, second: Address)
    requires
        registry_inv(s),
    ensures
        accept_admin_step(
            propose_admin_step(propose_admin_step(s, first).storage, second).storage,
        ).storage.config.unwrap().admin == second,
{
}

/// Without a proposal, nobody can take over.
pub proof fn lemma_accept_needs_proposal(s: StorageView)
    requires
        registry_inv(s),
        s.pending_admin is None,
    ensures
        accept_admin_step(s).result == Err::<(), Error>(Error::NoPendingAdmin),
        accept_admin_step(s).storage == s,
{
}

/// The executor is connected once and for all: once set, setting it again
/// fails and leaves it as it was.
pub proof fn lemma_executor_set_once(s: StorageView, first: Address, second: Address)
    requires
        registry_inv(s),
        set_executor_step(s, first).result is Ok,
    ensures
        ({
            let set = set_executor_step(s, first).storage;
            &&& set.config.unwrap().executor == Some(first)
            &&& set_executor_step(set, second).result == Err::<(), Error>(Error::ExecutorAlreadySet)
            &&& set_executor_step(set, second).storage.config.unwrap().executor == Some(first)
        }),
{
}

/// Unbonding takes a keeper out of service at once and keeps its stake for
/// the unbonding period: it can no longer execute any job, whatever the
/// job's run count, or add stake (and `SoroCron::execute` and
/// `SoroCron::stake` accept the call and answer so), withdrawing
/// fails before the period is over, and from then on gives back the whole
/// stake and forgets the keeper.
pub proof fn lemma_unbonding_lifecycle(
    s: StorageView,
    contract: Address,
    now: u64,
    later: u64,
    keeper: Address,
    job_id: u64,
    amount: i128,
    reply: ResolverReply,
)
    requires
        registry_inv(s),
        begin_unbonding_step(s, now, keeper).result is Ok,
    ensures
        ({
            let step = begin_unbonding_step(s, now, keeper);
            let t = s.config.unwrap();
            let u = step.storage;
            let at = step.result->Ok_0;
            &&& at == now.saturating_add(t.unbonding_period)
            &&& (!t.paused && t.executor is Some) ==> execute_step(
                u,
                contract,
                later,
                keeper,
                job_id,
                reply,
            ).result == Err::<(), Error>(Error::KeeperUnbonding)
            &&& !spec_execute_overflows(u, contract, later, keeper, job_id, reply)
            &&& !spec_stake_overflows(u, contract, keeper, amount)
            &&& (!t.paused && amount > 0) ==> stake_step(u, contract, keeper, amount).result == Err::<
                i128,
                Error,
            >(Error::KeeperUnbonding)
            &&& later < at ==> withdraw_stake_step(u, contract, later, keeper).result == Err::<
                i128,
                Error,
            >(Error::UnbondingNotFinished)
            &&& later >= at ==> withdraw_stake_step(u, contract, later, keeper).result == Ok::<
                i128,
                Error,
            >(s.keepers[keeper].stake)
            &&& later >= at ==> !withdraw_stake_step(
                u,
                contract,
                later,
                keeper,
            ).storage.keepers.contains_key(keeper)
        }),
{
}

/// A keeper below the minimum stake cannot execute; raising the minimum
/// above a keeper's stake disqualifies it.
pub proof fn lemma_underbonded_keeper_cannot_execute(
    s: StorageView,
    contract: Address,
    now: u64,
    keeper: Address,
    job_id: u64,
    reply: ResolverReply,
)
    requires
        registry_inv(s),
        !s.config.unwrap().paused,
        s.config.unwrap().executor is Some,
        s.keepers.contains_key(keeper),
        s.keepers[keeper].unbonding_at is None,
        s.keepers[keeper].stake < s.config.unwrap().min_stake,
    ensures
        execute_step(s, contract, now, keeper, job_id, reply).result == Err::<(), Error>(
            Error::InsufficientStake,
        ),
{
}

/// Every failed call leaves the storage as it was.
pub proof fn lemma_failures_change_nothing(
    s: StorageView,
    contract: Address,
    now: u64,
    who: Address,
    params: JobParams,
    job_id: u64,
    amount: i128,
    reply: ResolverReply,
)
    requires
        registry_inv(s),
    ensures
        create_job_step(s, contract, now, who, params, amount).result is Err ==> create_job_step(
            s,
            contract,
            now,
            who,
            params,
            amount,
        ).storage == s,
        fund_job_step(s, contract, who, job_id, amount).result is Err ==> fund_job_step(
            s,
            contract,
            who,
            job_id,
            amount,
        ).storage == s,
        cancel_job_step(s, contract, job_id).result is Err ==> cancel_job_step(
            s,
            contract,
            job_id,
        ).storage == s,
        execute_step(s, contract, now, who, job_id, reply).result is Err ==> execute_step(
            s,
            contract,
            now,
            who,
            job_id,
            reply,
        ).storage == s,
        stake_step(s, contract, who, amount).result is Err ==> stake_step(
            s,
            contract,
            who,
            amount,
        ).storage == s,
        begin_unbonding_step(s, now, who).result is Err ==> begin_unbonding_step(
            s,
            now,
            who,
        ).storage == s,
        withdraw_stake_step(s, contract, now, who).result is Err ==> withdraw_stake_step(
            s,
            contract,
            now,
            who,
        ).storage == s,
{
}

/// The admin cannot move user funds: none of the admin's calls asks for a
/// token transfer.
pub proof fn lemma_admin_cannot_move_funds(
    s: StorageView,
    who: Address,
    paused: bool,
    min_stake: i128,
)
    requires
        registry_inv(s),
    ensures
        forall|i: int|
            0 <= i < set_executor_step(s, who).ops.len() ==> !(set_executor_step(
                s,
                who,
            ).ops[i] is Transfer),
        forall|i: int|
            0 <= i < propose_admin_step(s, who).ops.len() ==> !(propose_admin_step(
                s,
                who,
            ).ops[i] is Transfer),
        forall|i: int|
            0 <= i < accept_admin_step(s).ops.len() ==> !(accept_admin_step(s).ops[i] is Transfer),
        forall|i: int|
            0 <= i < cancel_admin_proposal_step(s).ops.len() ==> !(cancel_admin_proposal_step(
                s,
            ).ops[i] is Transfer),
        forall|i: int|
            0 <= i < set_paused_step(s, paused).ops.len() ==> !(set_paused_step(
                s,
                paused,
            ).ops[i] is Transfer),
        forall|i: int|
            0 <= i < set_min_stake_step(s, min_stake).ops.len() ==> !(set_min_stake_step(
                s,
                min_stake,
            ).ops[i] is Transfer),
{
}

/// Each owner's list names exactly that owner's stored jobs, once each.
pub open spec fn owner_index_consistent(s: StorageView) -> bool {
    &&& forall|o: Address, i: int|
        0 <= i < owner_ids(s, o).len() ==> s.jobs.contains_key(#[trigger] owner_ids(s, o)[i])
            && s.jobs[owner_ids(s, o)[i]].owner == o
    &&& forall|id: u64| #[trigger]
        s.jobs.contains_key(id) ==> owner_ids(s, s.jobs[id].owner).contains(id)
    &&& forall|o: Address| (#[trigger] owner_ids(s, o)).no_duplicates()
}

/// Removing the first occurrence of `x` from a list without repeats removes
/// `x` and keeps the rest, without repeats.
proof fn lemma_remove_first_no_duplicates(ids: Seq<u64>, x: u64)
    requires
        ids.no_duplicates(),
        ids.contains(x),
    ensures
        remove_first(ids, x).no_duplicates(),
        forall|y: u64| #[trigger] remove_first(ids, x).contains(y) <==> (ids.contains(y) && y != x),
{
    let i = choose|i: int| 0 <= i < ids.len() && ids[i] == x;
    assert forall|j: int| 0 <= j < i implies ids[j] != x by {
        if ids[j] == x {
            assert(ids[j] == ids[i]);
        }
    }
    crate::storage::lemma_remove_first_at(ids, x, i);
    let r = ids.remove(i);
    assert forall|y: u64| #[trigger] r.contains(y) <==> (ids.contains(y) && y != x) by {
        if r.contains(y) {
            let k = choose|k: int| 0 <= k < r.len() && r[k] == y;
            let k0 = if k < i { k } else { k + 1 };
            assert(ids[k0] == y);
            assert(k0 != i);
        }
        if ids.contains(y) && y != x {
            let k = choose|k: int| 0 <= k < ids.len() && ids[k] == y;
            assert(k != i);
            let k1 = if k < i { k } else { k - 1 };
            assert(r[k1] == y);
        }
    }
    assert forall|a: int, b: int| 0 <= a < r.len() && 0 <= b < r.len() && a != b implies r[a]
        != r[b] by {
        let a0 = if a < i { a } else { a + 1 };
        let b0 = if b < i { b } else { b + 1 };
        assert(ids[a0] != ids[b0]);
    }
}

/// `jobs_by_owner` stays exact: creating and cancelling jobs keep every
/// owner's list naming exactly that owner's jobs, once each.
pub proof fn lemma_owner_index_kept(
    s: StorageView,
    contract: Address,
    now: u64,
    owner: Address,
    params: JobParams,
    deposit: i128,
    job_id: u64,
)
    requires
        registry_inv(s),
        crate::storage::jobs_well_keyed(s.jobs, s.next_job_id),
        owner_index_consistent(s),
    ensures
        owner_index_consistent(create_job_step(s, contract, now, owner, params, deposit).storage),
        owner_index_consistent(cancel_job_step(s, contract, job_id).storage),
{
    let c = create_job_step(s, contract, now, owner, params, deposit);
    if c.result is Ok {
        let id = s.next_job_id;
        let t = c.storage;
        assert forall|o: Address| o != owner implies owner_ids(t, o) == owner_ids(s, o) by {}
        assert(owner_ids(t, owner) == owner_ids(s, owner).push(id));
        assert(!owner_ids(s, owner).contains(id)) by {
            if owner_ids(s, owner).contains(id) {
                let i = choose|i: int| 0 <= i < owner_ids(s, owner).len() && owner_ids(s, owner)[i] == id;
                assert(s.jobs.contains_key(owner_ids(s, owner)[i]));
            }
        }
        assert forall|o: Address, i: int| 0 <= i < owner_ids(t, o).len() implies t.jobs.contains_key(
            #[trigger] owner_ids(t, o)[i],
        ) && t.jobs[owner_ids(t, o)[i]].owner == o by {
            if o == owner && i == owner_ids(s, owner).len() {
            } else {
                assert(owner_ids(t, o)[i] == owner_ids(s, o)[i]);
                assert(s.jobs.contains_key(owner_ids(s, o)[i]));
                assert(owner_ids(s, o)[i] != id);
            }
        }
        assert forall|k: u64| #[trigger] t.jobs.contains_key(k) implies owner_ids(
            t,
            t.jobs[k].owner,
        ).contains(k) by {
            if k == id {
                assert(owner_ids(t, owner)[owner_ids(s, owner).len() as int] == id);
            } else {
                assert(owner_ids(s, s.jobs[k].owner).contains(k));
                let o = s.jobs[k].owner;
                if o == owner {
                    let i = choose|i: int| 0 <= i < owner_ids(s, o).len() && owner_ids(s, o)[i] == k;
                    assert(owner_ids(t, o)[i] == k);
                }
            }
        }
        assert forall|o: Address| (#[trigger] owner_ids(t, o)).no_duplicates() by {
            if o == owner {
                assert(owner_ids(s, owner).no_duplicates());
            } else {
                assert(owner_ids(s, o).no_duplicates());
            }
        }
    }
    let d = cancel_job_step(s, contract, job_id);
    if d.result is Ok {
        let job = s.jobs[job_id];
        let t = d.storage;
        let ids = owner_ids(s, job.owner);
        assert(ids.contains(job_id));
        assert(ids.no_duplicates());
        lemma_remove_first_no_duplicates(ids, job_id);
        assert(owner_ids(t, job.owner) == remove_first(ids, job_id));
        assert forall|o: Address| o != job.owner implies owner_ids(t, o) == owner_ids(s, o) by {}
        assert forall|o: Address, i: int| 0 <= i < owner_ids(t, o).len() implies t.jobs.contains_key(
            #[trigger] owner_ids(t, o)[i],
        ) && t.jobs[owner_ids(t, o)[i]].owner == o by {
            let x = owner_ids(t, o)[i];
            assert(owner_ids(t, o).contains(x));
            if o == job.owner {
                assert(ids.contains(x) && x != job_id);
                let k = choose|k: int| 0 <= k < ids.len() && ids[k] == x;
                assert(s.jobs.contains_key(owner_ids(s, o)[k]));
            } else {
                assert(s.jobs.contains_key(owner_ids(s, o)[i]));
                if x == job_id {
                    assert(s.jobs[job_id].owner == o);
                }
            }
        }
        assert forall|k: u64| #[trigger] t.jobs.contains_key(k) implies owner_ids(
            t,
            t.jobs[k].owner,
        ).contains(k) by {
            assert(owner_ids(s, s.jobs[k].owner).contains(k));
        }
        assert forall|o: Address| (#[trigger] owner_ids(t, o)).no_duplicates() by {
            assert(owner_ids(s, o).no_duplicates());
        }
    }
}

/// Funding, running and pausing a job keep the owner lists exact.
pub proof fn lemma_owner_index_kept_by_updates(
    s: StorageView,
    contract: Address,
    now: u64,
    who: Address,
    job_id: u64,
    amount: i128,
    active: bool,
    reply: ResolverReply,
)
    requires
        registry_inv(s),
        owner_index_consistent(s),
    ensures
        owner_index_consistent(fund_job_step(s, contract, who, job_id, amount).storage),
        owner_index_consistent(execute_step(s, contract, now, who, job_id, reply).storage),
        owner_index_consistent(set_job_active_step(s, job_id, active).storage),
{
    let f = fund_job_step(s, contract, who, job_id, amount).storage;
    assert(f.jobs.dom() =~= s.jobs.dom());
    lemma_job_update_keeps_index(s, f);
    let e = execute_step(s, contract, now, who, job_id, reply).storage;
    assert(e.jobs.dom() =~= s.jobs.dom());
    lemma_job_update_keeps_index(s, e);
    let a = set_job_active_step(s, job_id, active).storage;
    assert(a.jobs.dom() =~= s.jobs.dom());
    lemma_job_update_keeps_index(s, a);
}

/// Changing a stored job's fields other than its owner keeps the owner lists
/// exact.
proof fn lemma_job_update_keeps_index(s: StorageView, t: StorageView)
    requires
        owner_index_consistent(s),
        t.owner_jobs == s.owner_jobs,
        t.jobs.dom() == s.jobs.dom(),
        forall|k: u64| #[trigger] t.jobs.contains_key(k) ==> t.jobs[k].owner == s.jobs[k].owner,
    ensures
        owner_index_consistent(t),
{
    assert forall|o: Address| #[trigger] owner_ids(t, o) == owner_ids(s, o) by {}
    assert forall|o: Address, i: int| 0 <= i < owner_ids(t, o).len() implies t.jobs.contains_key(
        #[trigger] owner_ids(t, o)[i],
    ) && t.jobs[owner_ids(t, o)[i]].owner == o by {
        assert(s.jobs.contains_key(owner_ids(s, o)[i]));
    }
    assert forall|k: u64| #[trigger] t.jobs.contains_key(k) implies owner_ids(
        t,
        t.jobs[k].owner,
    ).contains(k) by {
        assert(s.jobs.contains_key(k));
    }
}

/// A new job is first due at its start time, or at once where that time
/// has already passed: its first run is never scheduled in the past, and
/// never before the start the owner asked for.
pub proof fn lemma_new_job_first_due(
    s: StorageView,
    contract: Address,
    now: u64,
    owner: Address,
    params: JobParams,
    deposit: i128,
)
    requires
        registry_inv(s),
    ensures
        ({
            let step = create_job_step(s, contract, now, owner, params, deposit);
            let id = step.result->Ok_0;
            step.result is Ok ==> {
                &&& step.storage.jobs.contains_key(id)
                &&& step.storage.jobs[id].next_run >= now
                &&& step.storage.jobs[id].next_run >= params.start_at
                &&& (step.storage.jobs[id].next_run == now || step.storage.jobs[id].next_run
                    == params.start_at)
            }
        }),
{
}

/// A new job is stored under the id it was given, which is the next id
/// issued, and holds what the owner asked for: the owner, the call, the
/// schedule, the fee, the whole deposit as its balance, no runs yet, and it
/// is active.
pub proof fn lemma_new_job_as_asked(
    s: StorageView,
    contract: Address,
    now: u64,
    owner: Address,
    params: JobParams,
    deposit: i128,
)
    requires
        registry_inv(s),
    ensures
        ({
            let step = create_job_step(s, contract, now, owner, params, deposit);
            let id = step.result->Ok_0;
            let j = step.storage.jobs[id];
            step.result is Ok ==> {
                &&& id == s.next_job_id
                &&& step.storage.jobs.contains_key(id)
                &&& j.id == id
                &&& j.owner == owner
                &&& j.target == params.target
                &&& j.function == params.function
                &&& j.args == params.args
                &&& j.interval == params.interval
                &&& j.fee_per_run == params.fee_per_run
                &&& j.balance == deposit
                &&& j.max_runs == params.max_runs
                &&& j.runs == 0
                &&& j.end_at == params.end_at
                &&& j.resolver == params.resolver
                &&& j.active
            }
        }),
{
}

/// A run counts once, pays exactly one fee out of the job's balance, and
/// moves the schedule past `now`: to one interval after the previous
/// schedule where that lies ahead, and otherwise (keepers were away for a
/// whole interval or more) to one interval after `now`, at most the end of
/// time. Everything else about the job stays as it was.
pub proof fn lemma_run_advances_job(
    s: StorageView,
    contract: Address,
    now: u64,
    keeper: Address,
    job_id: u64,
    reply: ResolverReply,
)
    requires
        registry_inv(s),
        !spec_execute_overflows(s, contract, now, keeper, job_id, reply),
    ensures
        ({
            let step = execute_step(s, contract, now, keeper, job_id, reply);
            let j = s.jobs[job_id];
            let k = step.storage.jobs[job_id];
            step.result is Ok ==> {
                &&& step.storage.jobs.contains_key(job_id)
                &&& k.runs == j.runs + 1
                &&& k.balance == j.balance - j.fee_per_run
                &&& k.balance >= 0
                &&& now < u64::MAX ==> k.next_run > now
                &&& j.next_run + j.interval > now && j.next_run + j.interval <= u64::MAX ==> k.next_run
                    == j.next_run + j.interval
                &&& j.next_run + j.interval <= now ==> k.next_run == (if now + j.interval
                    <= u64::MAX {
                    now + j.interval
                } else {
                    u64::MAX as int
                })
                &&& k == (Job { runs: k.runs, balance: k.balance, next_run: k.next_run, ..j })
            }
        }),
{
}

/// An eligible keeper's `execute` consults the same resolver that `is_due`
/// does.
pub proof fn lemma_execute_and_is_due_ask_the_same_resolver(
    s: StorageView,
    now: u64,
    keeper: Address,
    job_id: u64,
)
    requires
        registry_inv(s),
        s.keepers.contains_key(keeper),
        spec_active_keeper(s.config.unwrap(), s.keepers[keeper]) is Ok,
    ensures
        spec_execute_resolver(s, now, keeper, job_id) == spec_is_due_resolver(s, now, job_id),
{
}

/// The stored jobs with ids in `lo..hi` come in increasing id order, each
/// under its own id, and every stored job in that range is among them.
proof fn lemma_jobs_between(jobs: Map<u64, Job>, next: u64, lo: int, hi: int)
    requires
        jobs_well_keyed(jobs, next),
        0 <= lo,
        hi <= next,
    ensures
        jobs_between(jobs, lo, hi).len() <= if hi >= lo {
            hi - lo
        } else {
            0
        },
        forall|i: int|
            0 <= i < jobs_between(jobs, lo, hi).len() ==> {
                let j = #[trigger] jobs_between(jobs, lo, hi)[i];
                &&& lo <= j.id < hi
                &&& jobs.contains_key(j.id)
                &&& jobs[j.id] == j
            },
        forall|i: int, k: int|
            0 <= i < k < jobs_between(jobs, lo, hi).len() ==> (#[trigger] jobs_between(
                jobs,
                lo,
                hi,
            )[i]).id < (#[trigger] jobs_between(jobs, lo, hi)[k]).id,
        forall|id: u64|
            lo <= id < hi && #[trigger] jobs.contains_key(id) ==> jobs_between(
                jobs,
                lo,
                hi,
            ).contains(jobs[id]),
    decreases hi - lo,
{
    if hi > lo {
        lemma_jobs_between(jobs, next, lo, hi - 1);
        let prev = jobs_between(jobs, lo, hi - 1);
        let last = (hi - 1) as u64;
        let cur = jobs_between(jobs, lo, hi);
        if jobs.contains_key(last) {
            assert(cur == prev + seq![jobs[last]]);
            assert(cur =~= prev.push(jobs[last]));
            assert forall|id: u64| lo <= id < hi && #[trigger] jobs.contains_key(id) implies cur.contains(
                jobs[id],
            ) by {
                if id == last {
                    assert(cur[prev.len() as int] == jobs[id]);
                } else {
                    let i = choose|i: int| 0 <= i < prev.len() && prev[i] == jobs[id];
                    assert(cur[i] == jobs[id]);
                }
            }
        } else {
            assert(cur =~= prev);
        }
    }
}

/// A page of `get_jobs(start, limit)` holds exactly the stored jobs whose
/// ids lie in `start..start + min(limit, MAX_PAGE)`, each once, in
/// increasing id order: cancelled ids are skipped and nothing else is left
/// out.
pub proof fn lemma_get_jobs_page(s: StorageView, start: u64, limit: u32)
    requires
        jobs_well_keyed(s.jobs, s.next_job_id),
    ensures
        ({
            let page = spec_get_jobs(s, start, limit);
            let cap: int = if limit > MAX_PAGE {
                MAX_PAGE as int
            } else {
                limit as int
            };
            &&& page.len() <= cap
            &&& forall|i: int|
                0 <= i < page.len() ==> {
                    &&& start <= (#[trigger] page[i]).id < start + cap
                    &&& s.jobs.contains_key(page[i].id)
                    &&& s.jobs[page[i].id] == page[i]
                }
            &&& forall|i: int, k: int|
                0 <= i < k < page.len() ==> (#[trigger] page[i]).id < (#[trigger] page[k]).id
            &&& forall|id: u64|
                start <= id < start + cap && #[trigger] s.jobs.contains_key(id) ==> page.contains(
                    s.jobs[id],
                )
        }),
{
    let cap: int = if limit > MAX_PAGE {
        MAX_PAGE as int
    } else {
        limit as int
    };
    let end: int = if start + cap <= s.next_job_id {
        start + cap
    } else {
        s.next_job_id as int
    };
    lemma_jobs_between(s.jobs, s.next_job_id, start as int, end);
}

/// `execute` consults a job's resolver exactly when the answer decides the
/// call. Where `execute_resolver` names a resolver, it is the job's own, a
/// `true` from it lets the run go ahead and any other answer is
/// `ResolverRejected`; where it names none, the call ends the same whatever
/// the reply. So whenever a `true` would let a job with a resolver run, that
/// resolver is asked.
pub proof fn lemma_execute_asks_the_resolver_when_it_decides(
    s: StorageView,
    contract: Address,
    now: u64,
    keeper: Address,
    job_id: u64,
    reply: ResolverReply,
    other: ResolverReply,
)
    requires
        registry_inv(s),
    ensures
        spec_execute_resolver(s, now, keeper, job_id) is Some ==> {
            &&& s.jobs.contains_key(job_id)
            &&& s.jobs[job_id].resolver == spec_execute_resolver(s, now, keeper, job_id)
            &&& execute_step(s, contract, now, keeper, job_id, ResolverReply::Returned(true)).result is Ok
            &&& reply != ResolverReply::Returned(true) ==> execute_step(
                s,
                contract,
                now,
                keeper,
                job_id,
                reply,
            ).result == Err::<(), Error>(Error::ResolverRejected)
        },
        spec_execute_resolver(s, now, keeper, job_id) is None ==> execute_step(
            s,
            contract,
            now,
            keeper,
            job_id,
            reply,
        ) == execute_step(s, contract, now, keeper, job_id, other),
        execute_step(s, contract, now, keeper, job_id, ResolverReply::Returned(true)).result is Ok
            && s.jobs[job_id].resolver is Some ==> spec_execute_resolver(s, now, keeper, job_id)
            == s.jobs[job_id].resolver,
{
}

/// `is_due` consults a job's resolver exactly when the answer decides it.
/// Where `is_due_resolver` names a resolver, it is the job's own, and the
/// job is due if and only if it answers `true`; where it names none, the
/// answer is the same whatever the reply. So whenever a `true` would make a
/// job with a resolver due, that resolver is asked.
pub proof fn lemma_is_due_asks_the_resolver_when_it_decides(
    s: StorageView,
    now: u64,
    job_id: u64,
    reply: ResolverReply,
    other: ResolverReply,
)
    requires
        registry_inv(s),
    ensures
        spec_is_due_resolver(s, now, job_id) is Some ==> {
            &&& s.jobs.contains_key(job_id)
            &&& s.jobs[job_id].resolver == spec_is_due_resolver(s, now, job_id)
            &&& (spec_is_due(s, now, job_id, reply) <==> reply == ResolverReply::Returned(true))
        },
        spec_is_due_resolver(s, now, job_id) is None ==> (spec_is_due(s, now, job_id, reply)
            <==> spec_is_due(s, now, job_id, other)),
        spec_is_due(s, now, job_id, ResolverReply::Returned(true)) && s.jobs[job_id].resolver is Some
            ==> spec_is_due_resolver(s, now, job_id) == s.jobs[job_id].resolver,
{
}

/// A job may run at `now` exactly when it is active, has runs left, has
/// not expired (expiry is from `end_at` on; `0` is never), can pay its fee,
/// and its schedule has come (from `next_run` on).
pub proof fn lemma_due_exactly_when(job: Job, now: u64)
    ensures
        spec_ensure_due(job, now) is Ok <==> {
            &&& job.active
            &&& job.max_runs == 0 || job.runs < job.max_runs
            &&& job.end_at == 0 || now < job.end_at
            &&& job.balance >= job.fee_per_run
            &&& now >= job.next_run
        },
{
}

/// Funding adds exactly the amount to the job's balance, and gives back
/// the new balance; nothing else about the job changes. Only a positive
/// amount for a stored job is taken.
pub proof fn lemma_fund_adds_the_amount(
    s: StorageView,
    contract: Address,
    from: Address,
    job_id: u64,
    amount: i128,
)
    requires
        registry_inv(s),
        !spec_fund_job_overflows(s, contract, from, job_id, amount),
    ensures
        ({
            let step = fund_job_step(s, contract, from, job_id, amount);
            let j = s.jobs[job_id];
            step.result is Ok ==> {
                &&& amount > 0
                &&& s.jobs.contains_key(job_id)
                &&& step.result->Ok_0 == j.balance + amount
                &&& step.storage.jobs == s.jobs.insert(
                    job_id,
                    Job { balance: step.result->Ok_0, ..j },
                )
            }
        }),
        !s.config.unwrap().paused && amount > 0 && s.jobs.contains_key(job_id) ==> fund_job_step(
            s,
            contract,
            from,
            job_id,
            amount,
        ).result is Ok,
{
}

/// Staking adds exactly the amount to the keeper's stake (a new keeper
/// starts from nothing) and gives back the new total; a keeper that is
/// unbonding cannot add stake.
pub proof fn lemma_stake_adds_the_amount(s: StorageView, contract: Address, keeper: Address, amount: i128)
    requires
        registry_inv(s),
        !spec_stake_overflows(s, contract, keeper, amount),
    ensures
        ({
            let step = stake_step(s, contract, keeper, amount);
            let before: int = if s.keepers.contains_key(keeper) {
                s.keepers[keeper].stake as int
            } else {
                0
            };
            step.result is Ok ==> {
                &&& amount > 0
                &&& !s.keepers.contains_key(keeper) || s.keepers[keeper].unbonding_at is None
                &&& step.result->Ok_0 == before + amount
                &&& step.storage.keepers.contains_key(keeper)
                &&& step.storage.keepers[keeper].stake == step.result->Ok_0
                &&& step.storage.keepers[keeper].unbonding_at is None
            }
        }),
        !s.config.unwrap().paused && amount > 0 && (!s.keepers.contains_key(keeper)
            || s.keepers[keeper].unbonding_at is None) ==> stake_step(
            s,
            contract,
            keeper,
            amount,
        ).result is Ok,
{
}

/// A keeper may execute exactly when it is not unbonding and its stake is
/// at least the minimum.
pub proof fn lemma_active_keeper_exactly_when(config: Config, keeper: Keeper)
    ensures
        spec_active_keeper(config, keeper) is Ok <==> keeper.unbonding_at is None && keeper.stake
            >= config.min_stake,
{
}

} // verus!
