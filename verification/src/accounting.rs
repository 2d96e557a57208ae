//! Custody: what the registry holds of each token is the sum of the job
//! balances (in the fee token) plus the keeper stakes (in the stake token),
//! and every call changes that holding by exactly the net amount it moves
//! into the registry.
use vstd::prelude::*;

use crate::address::Address;
use crate::env::HostOp;
use crate::registry::{
    accept_admin_step, begin_unbonding_step, cancel_admin_proposal_step, cancel_job_step,
    create_job_step, execute_step, fund_job_step, propose_admin_step, registry_inv,
    set_executor_step, set_job_active_step, set_min_stake_step, set_paused_step,
    spec_fund_job_overflows, spec_stake_overflows, stake_step, withdraw_stake_step, ResolverReply,
};
use crate::storage::{Storage, StorageView};
use crate::types::{Job, JobParams, Keeper};

verus! {

/// The key-value pairs of a map.
pub open spec fn entries<K, V>(m: Map<K, V>) -> Set<(K, V)> {
    m.dom().map(|k: K| (k, m[k]))
}

/// One step of a weighted sum over pairs.
pub open spec fn add_weight<K, V>(w: spec_fn(V) -> int) -> spec_fn(int, (K, V)) -> int {
    |acc: int, e: (K, V)| acc + w(e.1)
}

/// The sum of `w` over the values of `m`.
pub open spec fn weighted_sum<K, V>(m: Map<K, V>, w: spec_fn(V) -> int) -> int {
    entries(m).fold(0int, add_weight::<K, V>(w))
}

proof fn lemma_add_weight_commutative<K, V>(w: spec_fn(V) -> int)
    ensures
        vstd::set::fold::is_fun_commutative(add_weight::<K, V>(w)),
{
}

/// Taking one key out of a finite map takes its value's weight out of the sum.
pub proof fn lemma_weighted_sum_remove<K, V>(m: Map<K, V>, w: spec_fn(V) -> int, k: K)
    requires
        m.dom().finite(),
        m.contains_key(k),
    ensures
        weighted_sum(m, w) == weighted_sum(m.remove(k), w) + w(m[k]),
{
    let r = m.remove(k);
    assert(entries(m) =~= entries(r).insert((k, m[k]))) by {
        assert forall|e: (K, V)| #[trigger] entries(m).contains(e) implies entries(r).insert(
            (k, m[k]),
        ).contains(e) by {
            let x = choose|x: K| m.dom().contains(x) && e == (x, m[x]);
            if x != k {
                assert(r.dom().contains(x) && e == (x, r[x]));
            }
        }
        assert forall|e: (K, V)| #[trigger] entries(r).insert((k, m[k])).contains(e) implies entries(
            m,
        ).contains(e) by {
            if e != (k, m[k]) {
                let x = choose|x: K| r.dom().contains(x) && e == (x, r[x]);
                assert(m.dom().contains(x) && e == (x, m[x]));
            } else {
                assert(m.dom().contains(k) && e == (k, m[k]));
            }
        }
    }
    r.dom().lemma_map_finite(|x: K| (x, r[x]));
    assert(!entries(r).contains((k, m[k])));
    lemma_add_weight_commutative::<K, V>(w);
    vstd::set::fold::lemma_fold_insert(entries(r), 0int, add_weight::<K, V>(w), (k, m[k]));
}

/// Storing a value under a key of a finite map changes the sum by the new
/// value's weight, less the old one's if the key was there.
pub proof fn lemma_weighted_sum_insert<K, V>(m: Map<K, V>, w: spec_fn(V) -> int, k: K, v: V)
    requires
        m.dom().finite(),
    ensures
        weighted_sum(m.insert(k, v), w) == weighted_sum(m, w) + w(v) - (if m.contains_key(k) {
            w(m[k])
        } else {
            0
        }),
{
    let n = m.insert(k, v);
    lemma_weighted_sum_remove(n, w, k);
    assert(n.remove(k) =~= m.remove(k));
    if m.contains_key(k) {
        lemma_weighted_sum_remove(m, w, k);
    } else {
        assert(m.remove(k) =~= m);
    }
}

/// The fee-token balances of all jobs.
pub open spec fn total_job_balance(jobs: Map<u64, Job>) -> int {
    weighted_sum(jobs, |j: Job| j.balance as int)
}

/// The stakes of all keepers.
pub open spec fn total_stake(keepers: Map<Address, Keeper>) -> int {
    weighted_sum(keepers, |k: Keeper| k.stake as int)
}

/// What the registry holds of `token`, by its own books.
pub open spec fn held(s: StorageView, token: Address) -> int {
    let config = s.config.unwrap();
    (if token == config.fee_token {
        total_job_balance(s.jobs)
    } else {
        0
    }) + (if token == config.stake_token {
        total_stake(s.keepers)
    } else {
        0
    })
}

/// How much of `token` one request moves into `contract` (negative when it
/// moves some out).
pub open spec fn flow(op: HostOp, token: Address, contract: Address) -> int {
    match op {
        HostOp::Transfer(t) => if t.token == token {
            (if t.to == contract {
                t.amount as int
            } else {
                0
            }) - (if t.from == contract {
                t.amount as int
            } else {
                0
            })
        } else {
            0
        },
        _ => 0,
    }
}

/// How much of `token` a sequence of requests moves into `contract`.
pub open spec fn net_inflow(ops: Seq<HostOp>, token: Address, contract: Address) -> int
    decreases ops.len(),
{
    if ops.len() == 0 {
        0
    } else {
        net_inflow(ops.drop_last(), token, contract) + flow(ops.last(), token, contract)
    }
}

/// The inflow of a concatenation is the sum of the inflows.
pub proof fn lemma_net_inflow_append(a: Seq<HostOp>, b: Seq<HostOp>, token: Address, contract: Address)
    ensures
        net_inflow(a + b, token, contract) == net_inflow(a, token, contract) + net_inflow(
            b,
            token,
            contract,
        ),
    decreases b.len(),
{
    if b.len() == 0 {
        assert(a + b =~= a);
    } else {
        assert((a + b).drop_last() =~= a + b.drop_last());
        lemma_net_inflow_append(a, b.drop_last(), token, contract);
    }
}

/// The inflow of a single request is its flow.
pub proof fn lemma_net_inflow_single(op: HostOp, token: Address, contract: Address)
    ensures
        net_inflow(seq![op], token, contract) == flow(op, token, contract),
{
    assert(seq![op].drop_last() =~= Seq::<HostOp>::empty());
    assert(net_inflow(Seq::<HostOp>::empty(), token, contract) == 0);
}

proof fn lemma_net_inflow_two(a: HostOp, b: HostOp, token: Address, contract: Address)
    ensures
        net_inflow(seq![a, b], token, contract) == flow(a, token, contract) + flow(b, token, contract),
{
    assert(seq![a, b] =~= seq![a] + seq![b]);
    lemma_net_inflow_append(seq![a], seq![b], token, contract);
    lemma_net_inflow_single(a, token, contract);
    lemma_net_inflow_single(b, token, contract);
}

proof fn lemma_net_inflow_three(a: HostOp, b: HostOp, c: HostOp, token: Address, contract: Address)
    ensures
        net_inflow(seq![a, b, c], token, contract) == flow(a, token, contract) + flow(
            b,
            token,
            contract,
        ) + flow(c, token, contract),
{
    assert(seq![a, b, c] =~= seq![a] + seq![b, c]);
    lemma_net_inflow_append(seq![a], seq![b, c], token, contract);
    lemma_net_inflow_single(a, token, contract);
    lemma_net_inflow_two(b, c, token, contract);
}

proof fn lemma_net_inflow_four(
    a: HostOp,
    b: HostOp,
    c: HostOp,
    d: HostOp,
    token: Address,
    contract: Address,
)
    ensures
        net_inflow(seq![a, b, c, d], token, contract) == flow(a, token, contract) + flow(
            b,
            token,
            contract,
        ) + flow(c, token, contract) + flow(d, token, contract),
{
    assert(seq![a, b, c, d] =~= seq![a] + seq![b, c, d]);
    lemma_net_inflow_append(seq![a], seq![b, c, d], token, contract);
    lemma_net_inflow_single(a, token, contract);
    lemma_net_inflow_three(b, c, d, token, contract);
}

/// Creating a job adds its deposit to the books and moves exactly that much
/// of the fee token in.
pub proof fn lemma_create_job_custody(
    st: Storage,
    contract: Address,
    now: u64,
    owner: Address,
    params: JobParams,
    deposit: i128,
    token: Address,
)
    requires
        st.wf(),
        registry_inv(st@),
        owner != contract,
    ensures
        ({
            let s = st@;
            let step = create_job_step(s, contract, now, owner, params, deposit);
            held(step.storage, token) == held(s, token) + net_inflow(step.ops, token, contract)
        }),
{
    let s = st@;
    st.lemma_finite();
    st.lemma_jobs_well_keyed();
    let step = create_job_step(s, contract, now, owner, params, deposit);
    if step.result is Ok {
        lemma_weighted_sum_insert(s.jobs, |j: Job| j.balance as int, s.next_job_id, step.storage.jobs[s.next_job_id]);
        assert(step.storage.jobs == s.jobs.insert(s.next_job_id, step.storage.jobs[s.next_job_id]));
        lemma_net_inflow_three(step.ops[0], step.ops[1], step.ops[2], token, contract);
        assert(step.ops =~= seq![step.ops[0], step.ops[1], step.ops[2]]);
    } else if step.ops.len() == 1 {
        lemma_net_inflow_single(step.ops[0], token, contract);
        assert(step.ops =~= seq![step.ops[0]]);
    }
}

/// Funding a job adds the amount to the books and moves exactly that much of
/// the fee token in.
pub proof fn lemma_fund_job_custody(
    st: Storage,
    contract: Address,
    from: Address,
    job_id: u64,
    amount: i128,
    token: Address,
)
    requires
        st.wf(),
        registry_inv(st@),
        from != contract,
        !spec_fund_job_overflows(st@, contract, from, job_id, amount),
    ensures
        ({
            let s = st@;
            let step = fund_job_step(s, contract, from, job_id, amount);
            held(step.storage, token) == held(s, token) + net_inflow(step.ops, token, contract)
        }),
{
    let s = st@;
    st.lemma_finite();
    st.lemma_jobs_well_keyed();
    let step = fund_job_step(s, contract, from, job_id, amount);
    if step.result is Ok {
        lemma_weighted_sum_insert(s.jobs, |j: Job| j.balance as int, job_id, step.storage.jobs[job_id]);
        assert(step.storage.jobs == s.jobs.insert(job_id, step.storage.jobs[job_id]));
        lemma_net_inflow_three(step.ops[0], step.ops[1], step.ops[2], token, contract);
        assert(step.ops =~= seq![step.ops[0], step.ops[1], step.ops[2]]);
    } else if step.ops.len() == 1 {
        lemma_net_inflow_single(step.ops[0], token, contract);
        assert(step.ops =~= seq![step.ops[0]]);
    }
}

/// Cancelling a job takes its balance off the books and moves exactly that
/// much of the fee token out, to the owner.
pub proof fn lemma_cancel_job_custody(st: Storage, contract: Address, job_id: u64, token: Address)
    requires
        st.wf(),
        registry_inv(st@),
        st@.jobs.contains_key(job_id) ==> st@.jobs[job_id].owner != contract,
    ensures
        ({
            let s = st@;
            let step = cancel_job_step(s, contract, job_id);
            held(step.storage, token) == held(s, token) + net_inflow(step.ops, token, contract)
        }),
{
    let s = st@;
    st.lemma_finite();
    st.lemma_jobs_well_keyed();
    let step = cancel_job_step(s, contract, job_id);
    if step.result is Ok {
        lemma_weighted_sum_remove(s.jobs, |j: Job| j.balance as int, job_id);
        if s.jobs[job_id].balance > 0 {
            lemma_net_inflow_three(step.ops[0], step.ops[1], step.ops[2], token, contract);
            assert(step.ops =~= seq![step.ops[0], step.ops[1], step.ops[2]]);
        } else {
            lemma_net_inflow_two(step.ops[0], step.ops[1], token, contract);
            assert(step.ops =~= seq![step.ops[0], step.ops[1]]);
        }
    }
}

/// A run takes the fee off the job's balance and moves exactly the fee out,
/// to the keeper; stakes are untouched.
pub proof fn lemma_execute_custody(
    st: Storage,
    contract: Address,
    now: u64,
    keeper: Address,
    job_id: u64,
    reply: ResolverReply,
    token: Address,
)
    requires
        st.wf(),
        registry_inv(st@),
        keeper != contract,
    ensures
        ({
            let s = st@;
            let step = execute_step(s, contract, now, keeper, job_id, reply);
            held(step.storage, token) == held(s, token) + net_inflow(step.ops, token, contract)
        }),
{
    let s = st@;
    st.lemma_finite();
    st.lemma_jobs_well_keyed();
    let step = execute_step(s, contract, now, keeper, job_id, reply);
    if step.result is Ok {
        lemma_weighted_sum_insert(s.jobs, |j: Job| j.balance as int, job_id, step.storage.jobs[job_id]);
        assert(step.storage.jobs == s.jobs.insert(job_id, step.storage.jobs[job_id]));
        lemma_weighted_sum_insert(s.keepers, |k: Keeper| k.stake as int, keeper, step.storage.keepers[keeper]);
        assert(step.storage.keepers == s.keepers.insert(keeper, step.storage.keepers[keeper]));
        lemma_net_inflow_four(step.ops[0], step.ops[1], step.ops[2], step.ops[3], token, contract);
        assert(step.ops =~= seq![step.ops[0], step.ops[1], step.ops[2], step.ops[3]]);
    } else if step.ops.len() == 1 {
        lemma_net_inflow_single(step.ops[0], token, contract);
        assert(step.ops =~= seq![step.ops[0]]);
    }
}

/// Staking adds the amount to the books and moves exactly that much of the
/// stake token in.
pub proof fn lemma_stake_custody(
    st: Storage,
    contract: Address,
    keeper: Address,
    amount: i128,
    token: Address,
)
    requires
        st.wf(),
        registry_inv(st@),
        keeper != contract,
        !spec_stake_overflows(st@, contract, keeper, amount),
    ensures
        ({
            let s = st@;
            let step = stake_step(s, contract, keeper, amount);
            held(step.storage, token) == held(s, token) + net_inflow(step.ops, token, contract)
        }),
{
    let s = st@;
    st.lemma_finite();
    st.lemma_jobs_well_keyed();
    let step = stake_step(s, contract, keeper, amount);
    if step.result is Ok {
        lemma_weighted_sum_insert(s.keepers, |k: Keeper| k.stake as int, keeper, step.storage.keepers[keeper]);
        assert(step.storage.keepers == s.keepers.insert(keeper, step.storage.keepers[keeper]));
        lemma_net_inflow_three(step.ops[0], step.ops[1], step.ops[2], token, contract);
        assert(step.ops =~= seq![step.ops[0], step.ops[1], step.ops[2]]);
    } else if step.ops.len() == 1 {
        lemma_net_inflow_single(step.ops[0], token, contract);
        assert(step.ops =~= seq![step.ops[0]]);
    }
}

/// Withdrawing takes the whole stake off the books and moves exactly that
/// much of the stake token out, to the keeper.
pub proof fn lemma_withdraw_stake_custody(
    st: Storage,
    contract: Address,
    now: u64,
    keeper: Address,
    token: Address,
)
    requires
        st.wf(),
        registry_inv(st@),
        keeper != contract,
    ensures
        ({
            let s = st@;
            let step = withdraw_stake_step(s, contract, now, keeper);
            held(step.storage, token) == held(s, token) + net_inflow(step.ops, token, contract)
        }),
{
    let s = st@;
    st.lemma_finite();
    st.lemma_jobs_well_keyed();
    let step = withdraw_stake_step(s, contract, now, keeper);
    if step.result is Ok {
        lemma_weighted_sum_remove(s.keepers, |k: Keeper| k.stake as int, keeper);
        lemma_net_inflow_three(step.ops[0], step.ops[1], step.ops[2], token, contract);
        assert(step.ops =~= seq![step.ops[0], step.ops[1], step.ops[2]]);
    } else {
        lemma_net_inflow_single(step.ops[0], token, contract);
        assert(step.ops =~= seq![step.ops[0]]);
    }
}

/// The calls that move no funds leave the books as they were and move
/// nothing in or out.
pub proof fn lemma_other_calls_move_nothing(
    st: Storage,
    now: u64,
    job_id: u64,
    active: bool,
    who: Address,
    paused: bool,
    min_stake: i128,
    token: Address,
    contract: Address,
)
    requires
        st.wf(),
        registry_inv(st@),
    ensures
        held(set_job_active_step(st@, job_id, active).storage, token) == held(st@, token),
        net_inflow(set_job_active_step(st@, job_id, active).ops, token, contract) == 0,
        held(begin_unbonding_step(st@, now, who).storage, token) == held(st@, token),
        net_inflow(begin_unbonding_step(st@, now, who).ops, token, contract) == 0,
        held(set_executor_step(st@, who).storage, token) == held(st@, token),
        net_inflow(set_executor_step(st@, who).ops, token, contract) == 0,
        held(propose_admin_step(st@, who).storage, token) == held(st@, token),
        net_inflow(propose_admin_step(st@, who).ops, token, contract) == 0,
        held(accept_admin_step(st@).storage, token) == held(st@, token),
        net_inflow(accept_admin_step(st@).ops, token, contract) == 0,
        held(cancel_admin_proposal_step(st@).storage, token) == held(st@, token),
        net_inflow(cancel_admin_proposal_step(st@).ops, token, contract) == 0,
        held(set_paused_step(st@, paused).storage, token) == held(st@, token),
        net_inflow(set_paused_step(st@, paused).ops, token, contract) == 0,
        held(set_min_stake_step(st@, min_stake).storage, token) == held(st@, token),
        net_inflow(set_min_stake_step(st@, min_stake).ops, token, contract) == 0,
{
    let s = st@;
    st.lemma_finite();
    st.lemma_jobs_well_keyed();
    let a = set_job_active_step(s, job_id, active);
    if a.result is Ok {
        lemma_weighted_sum_insert(s.jobs, |j: Job| j.balance as int, job_id, a.storage.jobs[job_id]);
        assert(a.storage.jobs == s.jobs.insert(job_id, a.storage.jobs[job_id]));
        lemma_net_inflow_two(a.ops[0], a.ops[1], token, contract);
        assert(a.ops =~= seq![a.ops[0], a.ops[1]]);
    }
    let b = begin_unbonding_step(s, now, who);
    if b.result is Ok {
        lemma_weighted_sum_insert(s.keepers, |k: Keeper| k.stake as int, who, b.storage.keepers[who]);
        assert(b.storage.keepers == s.keepers.insert(who, b.storage.keepers[who]));
        lemma_net_inflow_two(b.ops[0], b.ops[1], token, contract);
        assert(b.ops =~= seq![b.ops[0], b.ops[1]]);
    } else {
        lemma_net_inflow_single(b.ops[0], token, contract);
        assert(b.ops =~= seq![b.ops[0]]);
    }
    let c = set_executor_step(s, who);
    if c.result is Ok {
        lemma_net_inflow_two(c.ops[0], c.ops[1], token, contract);
        assert(c.ops =~= seq![c.ops[0], c.ops[1]]);
    } else {
        lemma_net_inflow_single(c.ops[0], token, contract);
        assert(c.ops =~= seq![c.ops[0]]);
    }
    let d = propose_admin_step(s, who);
    lemma_net_inflow_two(d.ops[0], d.ops[1], token, contract);
    assert(d.ops =~= seq![d.ops[0], d.ops[1]]);
    let e = accept_admin_step(s);
    if e.result is Ok {
        lemma_net_inflow_two(e.ops[0], e.ops[1], token, contract);
        assert(e.ops =~= seq![e.ops[0], e.ops[1]]);
    }
    let f = cancel_admin_proposal_step(s);
    if f.result is Ok {
        lemma_net_inflow_two(f.ops[0], f.ops[1], token, contract);
        assert(f.ops =~= seq![f.ops[0], f.ops[1]]);
    } else {
        lemma_net_inflow_single(f.ops[0], token, contract);
        assert(f.ops =~= seq![f.ops[0]]);
    }
    let g = set_paused_step(s, paused);
    lemma_net_inflow_two(g.ops[0], g.ops[1], token, contract);
    assert(g.ops =~= seq![g.ops[0], g.ops[1]]);
    let h = set_min_stake_step(s, min_stake);
    if h.result is Ok {
        lemma_net_inflow_two(h.ops[0], h.ops[1], token, contract);
        assert(h.ops =~= seq![h.ops[0], h.ops[1]]);
    } else {
        lemma_net_inflow_single(h.ops[0], token, contract);
        assert(h.ops =~= seq![h.ops[0]]);
    }
}


/// The registry's holding of each token matches its books, and every call
/// keeps it so, whether it succeeds or fails: where the registry holds
/// `balance` of `token` and its books account for exactly that much, after
/// the call it holds `balance` plus what the call moves in, and the books
/// account for exactly that again. Where one token is both the fee token and
/// the stake token, the books count the job balances and the stakes together.
pub proof fn lemma_holdings_match_books(
    st: Storage,
    contract: Address,
    now: u64,
    caller: Address,
    job_id: u64,
    params: JobParams,
    amount: i128,
    reply: ResolverReply,
    active: bool,
    token: Address,
    balance: int,
)
    requires
        st.wf(),
        registry_inv(st@),
        caller != contract,
        st@.jobs.contains_key(job_id) ==> st@.jobs[job_id].owner != contract,
        !spec_fund_job_overflows(st@, contract, caller, job_id, amount),
        !spec_stake_overflows(st@, contract, caller, amount),
        balance == held(st@, token),
    ensures
        ({
            let step = create_job_step(st@, contract, now, caller, params, amount);
            balance + net_inflow(step.ops, token, contract) == held(step.storage, token)
        }),
        ({
            let step = fund_job_step(st@, contract, caller, job_id, amount);
            balance + net_inflow(step.ops, token, contract) == held(step.storage, token)
        }),
        ({
            let step = cancel_job_step(st@, contract, job_id);
            balance + net_inflow(step.ops, token, contract) == held(step.storage, token)
        }),
        ({
            let step = execute_step(st@, contract, now, caller, job_id, reply);
            balance + net_inflow(step.ops, token, contract) == held(step.storage, token)
        }),
        ({
            let step = stake_step(st@, contract, caller, amount);
            balance + net_inflow(step.ops, token, contract) == held(step.storage, token)
        }),
        ({
            let step = withdraw_stake_step(st@, contract, now, caller);
            balance + net_inflow(step.ops, token, contract) == held(step.storage, token)
        }),
        ({
            let step = set_job_active_step(st@, job_id, active);
            balance + net_inflow(step.ops, token, contract) == held(step.storage, token)
        }),
        ({
            let step = begin_unbonding_step(st@, now, caller);
            balance + net_inflow(step.ops, token, contract) == held(step.storage, token)
        }),
{
    lemma_create_job_custody(st, contract, now, caller, params, amount, token);
    lemma_fund_job_custody(st, contract, caller, job_id, amount, token);
    lemma_cancel_job_custody(st, contract, job_id, token);
    lemma_execute_custody(st, contract, now, caller, job_id, reply, token);
    lemma_stake_custody(st, contract, caller, amount, token);
    lemma_withdraw_stake_custody(st, contract, now, caller, token);
    lemma_other_calls_move_nothing(st, now, job_id, active, caller, false, 0, token, contract);
}

} // verus!
