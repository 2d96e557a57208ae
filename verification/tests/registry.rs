use std::collections::HashMap;

use proptest::test_runner::{TestCaseError, TestRunner};

use sorocron::address::{Address, AddressKind};
use sorocron::env::{Context, HostOp, Transfer};
use sorocron::errors::Error;
use sorocron::events::{Event, JobExecuted, JobRun};
use sorocron::registry::{ResolverReply, SoroCron};
use sorocron::storage;
use sorocron::types::JobParams;

const MIN_STAKE: i128 = 1_000;
const UNBONDING: u64 = 3_600;
const START: u64 = 1_700_000_000;
const FEE: i128 = 10;
const INTERVAL: u64 = 60;
const INITIAL_BALANCE: i128 = 1_000_000;

const NO_RESOLVER: ResolverReply = ResolverReply::Failed;

fn account(n: u128) -> Address {
    Address { kind: AddressKind::Account, hi: 0, lo: n }
}

fn contract(n: u128) -> Address {
    Address { kind: AddressKind::Contract, hi: 0, lo: n }
}

/// The registry under test, with the host simulated around it: signatures
/// that are present, token balances, and how often each target was called.
struct Setup {
    env: Context,
    cron: Address,
    token: Address,
    target: Address,
    executor: Address,
    admin: Address,
    owner: Address,
    keeper: Address,
    /// Addresses whose signature the host accepts.
    signers: Vec<Address>,
    balances: HashMap<Address, i128>,
    calls: HashMap<Address, u32>,
}

#[derive(Debug, PartialEq)]
enum Outcome<T> {
    Done(T),
    Failed(Error),
    /// A signature the call needed was missing, so the host aborted it.
    AuthFailed,
}

impl Setup {
    /// Runs one registry call against the simulated host: signatures are
    /// checked, transfers applied and target calls counted; a call that
    /// fails in any way leaves nothing behind.
    fn call<T>(&mut self, f: impl FnOnce(&mut Context) -> Result<T, Error>) -> Outcome<T> {
        let snapshot = self.env.clone();
        let from = self.env.ops.len();
        let r = f(&mut self.env);
        let ops: Vec<HostOp> = self.env.ops[from..].to_vec();
        for op in &ops {
            if let HostOp::RequireAuth(a) = op {
                if !self.signers.contains(a) {
                    self.env = snapshot;
                    return Outcome::AuthFailed;
                }
            }
        }
        match r {
            Ok(v) => {
                for op in &ops {
                    match op {
                        HostOp::Transfer(t) => {
                            *self.balances.entry(t.from).or_insert(0) -= t.amount;
                            *self.balances.entry(t.to).or_insert(0) += t.amount;
                        }
                        HostOp::CallTarget(c) => {
                            *self.calls.entry(c.target).or_insert(0) += 1;
                        }
                        _ => {}
                    }
                }
                Outcome::Done(v)
            }
            Err(e) => {
                self.env = snapshot;
                Outcome::Failed(e)
            }
        }
    }

    fn balance(&self, a: &Address) -> i128 {
        *self.balances.get(a).unwrap_or(&0)
    }

    fn count(&self) -> u32 {
        *self.calls.get(&self.target).unwrap_or(&0)
    }

    fn advance(&mut self, seconds: u64) {
        self.env.timestamp += seconds;
    }

    fn create_job(&mut self, p: JobParams, deposit: i128) -> Outcome<u64> {
        let owner = self.owner;
        self.call(|env| SoroCron::create_job(env, owner, p, deposit))
    }

    fn execute_as(&mut self, keeper: Address, id: u64, reply: ResolverReply) -> Outcome<()> {
        self.call(|env| SoroCron::execute(env, keeper, id, reply))
    }

    fn execute(&mut self, id: u64) -> Outcome<()> {
        let keeper = self.keeper;
        self.execute_as(keeper, id, NO_RESOLVER)
    }

    fn is_due(&self, id: u64) -> bool {
        SoroCron::is_due(&self.env, id, NO_RESOLVER)
    }

    fn stake(&mut self, keeper: Address, amount: i128) -> Outcome<i128> {
        self.call(|env| SoroCron::stake(env, keeper, amount))
    }
}

fn setup() -> Setup {
    let mut s = setup_without_executor();
    let executor = s.executor;
    assert_eq!(s.call(|env| SoroCron::set_executor(env, executor)), Outcome::Done(()));
    s
}

fn setup_without_executor() -> Setup {
    let cron = contract(1);
    let token = contract(2);
    let target = contract(3);
    let executor = contract(4);
    let admin = account(10);
    let owner = account(11);
    let keeper = account(12);
    let mut env = Context::new(cron, START);
    SoroCron::__constructor(&mut env, admin, token, token, MIN_STAKE, UNBONDING).unwrap();
    let mut balances = HashMap::new();
    balances.insert(owner, INITIAL_BALANCE);
    balances.insert(keeper, INITIAL_BALANCE);
    let mut s = Setup {
        env,
        cron,
        token,
        target,
        executor,
        admin,
        owner,
        keeper,
        signers: vec![admin, owner, keeper],
        balances,
        calls: HashMap::new(),
    };
    assert_eq!(s.stake(keeper, MIN_STAKE), Outcome::Done(MIN_STAKE));
    s
}

fn params(s: &Setup) -> JobParams {
    JobParams {
        target: s.target,
        function: String::from("bump"),
        args: String::from("AAAAEAAAAAEAAAABAAAAAwAAAAE="),
        interval: INTERVAL,
        start_at: 0,
        fee_per_run: FEE,
        max_runs: 0,
        end_at: 0,
        resolver: None,
    }
}

// ---------------------------------------------------------------------------
// Construction
// ---------------------------------------------------------------------------

#[test]
fn constructor_stores_config() {
    let s = setup();
    let config = SoroCron::config(&s.env);
    assert_eq!(config.admin, s.admin);
    assert_eq!(config.fee_token, s.token);
    assert_eq!(config.min_stake, MIN_STAKE);
    assert_eq!(config.unbonding_period, UNBONDING);
    assert!(!config.paused);
    assert_eq!(SoroCron::job_count(&s.env), 0);
}

#[test]
fn constructor_rejects_negative_min_stake() {
    let mut env = Context::new(contract(1), START);
    assert_eq!(
        SoroCron::__constructor(&mut env, account(1), contract(2), contract(2), -1, UNBONDING),
        Err(Error::InvalidAmount)
    );
    assert!(env.ops.is_empty());
}

// ---------------------------------------------------------------------------
// Job creation
// ---------------------------------------------------------------------------

#[test]
fn create_job_escrows_deposit_and_stores_job() {
    let mut s = setup();
    let p = params(&s);
    assert_eq!(s.create_job(p, 100), Outcome::Done(0));
    let id = 0;

    assert_eq!(SoroCron::job_count(&s.env), 1);
    assert_eq!(s.balance(&s.owner), INITIAL_BALANCE - 100);

    let job = SoroCron::get_job(&s.env, id).unwrap();
    assert_eq!(job.owner, s.owner);
    assert_eq!(job.balance, 100);
    assert_eq!(job.next_run, START);
    assert_eq!(job.runs, 0);
}

#[test]
fn create_job_assigns_sequential_ids() {
    let mut s = setup();
    let p = params(&s);
    assert_eq!(s.create_job(p.clone(), 100), Outcome::Done(0));
    assert_eq!(s.create_job(p, 100), Outcome::Done(1));
    assert_eq!(SoroCron::job_count(&s.env), 2);
}

#[test]
fn create_job_validates_params() {
    let mut s = setup();

    let mut p = params(&s);
    p.interval = 0;
    assert_eq!(s.create_job(p, 100), Outcome::Failed(Error::InvalidInterval));

    let mut p = params(&s);
    p.fee_per_run = 0;
    assert_eq!(s.create_job(p, 100), Outcome::Failed(Error::InvalidFee));

    let p = params(&s);
    assert_eq!(s.create_job(p, FEE - 1), Outcome::Failed(Error::InvalidAmount));
}

#[test]
fn create_job_rejects_custodied_token_and_self_as_target() {
    let mut s = setup();

    let mut p = params(&s);
    p.target = s.token;
    assert_eq!(s.create_job(p, 100), Outcome::Failed(Error::ForbiddenTarget));

    let mut p = params(&s);
    p.target = s.cron;
    assert_eq!(s.create_job(p, 100), Outcome::Failed(Error::ForbiddenTarget));

    let mut p = params(&s);
    p.target = SoroCron::config(&s.env).executor.unwrap();
    assert_eq!(s.create_job(p, 100), Outcome::Failed(Error::ForbiddenTarget));
}

#[test]
fn create_job_needs_the_owners_signature() {
    let mut s = setup();
    s.signers.retain(|a| *a != s.owner);
    let p = params(&s);
    assert_eq!(s.create_job(p, 100), Outcome::AuthFailed);
    assert_eq!(SoroCron::job_count(&s.env), 0);
}

#[test]
fn start_at_in_future_delays_first_run() {
    let mut s = setup();
    let mut p = params(&s);
    p.start_at = START + 500;
    let id = match s.create_job(p, 100) {
        Outcome::Done(id) => id,
        other => panic!("{:?}", other),
    };

    assert!(!s.is_due(id));
    assert_eq!(s.execute(id), Outcome::Failed(Error::JobNotDue));

    s.advance(500);
    assert!(s.is_due(id));
    assert_eq!(s.execute(id), Outcome::Done(()));
}

#[test]
fn job_expires_at_end_at() {
    let mut s = setup();
    let mut p = params(&s);
    p.end_at = START + INTERVAL;
    assert_eq!(s.create_job(p, 100), Outcome::Done(0));
    assert_eq!(s.execute(0), Outcome::Done(()));
    s.advance(INTERVAL);
    assert_eq!(s.execute(0), Outcome::Failed(Error::JobExpired));
}

// ---------------------------------------------------------------------------
// Execution
// ---------------------------------------------------------------------------

#[test]
fn execute_calls_target_pays_keeper_and_advances_schedule() {
    let mut s = setup();
    let p = params(&s);
    assert_eq!(s.create_job(p, 100), Outcome::Done(0));
    let keeper_before = s.balance(&s.keeper);

    assert_eq!(s.execute(0), Outcome::Done(()));

    assert_eq!(s.count(), 1);
    assert_eq!(s.balance(&s.keeper), keeper_before + FEE);

    let job = SoroCron::get_job(&s.env, 0).unwrap();
    assert_eq!(job.runs, 1);
    assert_eq!(job.balance, 100 - FEE);
    assert_eq!(job.next_run, START + INTERVAL);
    assert_eq!(SoroCron::get_keeper(&s.env, s.keeper).unwrap().executions, 1);
}

#[test]
fn execute_goes_through_the_executor_and_reports_the_run() {
    let mut s = setup();
    let p = params(&s);
    assert_eq!(s.create_job(p, 100), Outcome::Done(0));
    let from = s.env.ops.len();
    assert_eq!(s.execute(0), Outcome::Done(()));
    let ops = &s.env.ops[from..];
    assert_eq!(ops.len(), 4);
    assert_eq!(ops[0], HostOp::RequireAuth(s.keeper));
    match &ops[1] {
        HostOp::CallTarget(c) => {
            assert_eq!(c.executor, s.executor);
            assert_eq!(c.target, s.target);
            assert_eq!(c.function, "bump");
            assert_eq!(c.args, "AAAAEAAAAAEAAAABAAAAAwAAAAE=");
        }
        other => panic!("{:?}", other),
    }
    assert_eq!(
        ops[2],
        HostOp::Transfer(Transfer { token: s.token, from: s.cron, to: s.keeper, amount: FEE })
    );
    assert_eq!(
        ops[3],
        HostOp::ReportRun(JobRun {
            job_id: 0,
            keeper: s.keeper,
            fee: FEE,
            run: 1,
            next_run: START + INTERVAL,
        })
    );
}

#[test]
fn execute_respects_interval() {
    let mut s = setup();
    let p = params(&s);
    assert_eq!(s.create_job(p, 100), Outcome::Done(0));
    assert_eq!(s.execute(0), Outcome::Done(()));

    assert_eq!(s.execute(0), Outcome::Failed(Error::JobNotDue));

    s.advance(INTERVAL - 1);
    assert_eq!(s.execute(0), Outcome::Failed(Error::JobNotDue));

    s.advance(1);
    assert_eq!(s.execute(0), Outcome::Done(()));
    assert_eq!(s.count(), 2);
}

#[test]
fn missed_runs_do_not_fire_back_to_back() {
    let mut s = setup();
    let p = params(&s);
    assert_eq!(s.create_job(p, 1_000), Outcome::Done(0));
    assert_eq!(s.execute(0), Outcome::Done(()));

    // Keepers offline for 10 intervals.
    s.advance(INTERVAL * 10);
    assert_eq!(s.execute(0), Outcome::Done(()));

    let now = s.env.timestamp;
    assert_eq!(SoroCron::get_job(&s.env, 0).unwrap().next_run, now + INTERVAL);
    assert_eq!(s.execute(0), Outcome::Failed(Error::JobNotDue));
}

#[test]
fn execute_stops_at_max_runs() {
    let mut s = setup();
    let mut p = params(&s);
    p.max_runs = 2;
    assert_eq!(s.create_job(p, 1_000), Outcome::Done(0));

    assert_eq!(s.execute(0), Outcome::Done(()));
    s.advance(INTERVAL);
    assert_eq!(s.execute(0), Outcome::Done(()));
    s.advance(INTERVAL);

    assert!(!s.is_due(0));
    assert_eq!(s.execute(0), Outcome::Failed(Error::MaxRunsReached));
}

#[test]
fn execute_stops_when_balance_runs_out_and_resumes_after_funding() {
    let mut s = setup();
    let p = params(&s);
    assert_eq!(s.create_job(p, FEE), Outcome::Done(0));
    assert_eq!(s.execute(0), Outcome::Done(()));
    s.advance(INTERVAL);

    assert_eq!(s.execute(0), Outcome::Failed(Error::InsufficientJobBalance));

    let funder = account(99);
    s.signers.push(funder);
    s.balances.insert(funder, FEE);
    assert_eq!(s.call(|env| SoroCron::fund_job(env, funder, 0, FEE)), Outcome::Done(FEE));

    assert_eq!(s.execute(0), Outcome::Done(()));
    assert_eq!(s.count(), 2);
}

#[test]
fn execute_requires_registered_staked_keeper() {
    let mut s = setup();
    let p = params(&s);
    assert_eq!(s.create_job(p, 100), Outcome::Done(0));

    let stranger = account(50);
    s.signers.push(stranger);
    assert_eq!(s.execute_as(stranger, 0, NO_RESOLVER), Outcome::Failed(Error::KeeperNotFound));

    let small = account(51);
    s.signers.push(small);
    s.balances.insert(small, MIN_STAKE);
    assert_eq!(s.stake(small, MIN_STAKE - 1), Outcome::Done(MIN_STAKE - 1));
    assert_eq!(s.execute_as(small, 0, NO_RESOLVER), Outcome::Failed(Error::InsufficientStake));

    assert_eq!(s.stake(small, 1), Outcome::Done(MIN_STAKE));
    assert_eq!(s.execute_as(small, 0, NO_RESOLVER), Outcome::Done(()));
}

#[test]
fn raising_min_stake_disqualifies_underbonded_keepers() {
    let mut s = setup();
    let p = params(&s);
    assert_eq!(s.create_job(p, 100), Outcome::Done(0));

    assert_eq!(s.call(|env| SoroCron::set_min_stake(env, MIN_STAKE + 1)), Outcome::Done(()));
    assert_eq!(s.execute(0), Outcome::Failed(Error::InsufficientStake));
}

#[test]
fn set_min_stake_rejects_negative_values() {
    let mut s = setup();
    assert_eq!(s.call(|env| SoroCron::set_min_stake(env, -1)), Outcome::Failed(Error::InvalidAmount));
    assert_eq!(SoroCron::config(&s.env).min_stake, MIN_STAKE);
}

#[test]
fn execute_missing_job_fails() {
    let mut s = setup();
    assert_eq!(s.execute(42), Outcome::Failed(Error::JobNotFound));
    assert!(!s.is_due(42));
}

#[test]
fn keeper_executions_saturate() {
    let mut s = setup();
    let p = params(&s);
    assert_eq!(s.create_job(p, 100), Outcome::Done(0));
    let keeper = s.keeper;
    let mut info = SoroCron::get_keeper(&s.env, keeper).unwrap();
    info.executions = u32::MAX;
    sorocron::storage::set_keeper(&mut s.env, &keeper, &info);
    assert_eq!(s.execute(0), Outcome::Done(()));
    assert_eq!(SoroCron::get_keeper(&s.env, keeper).unwrap().executions, u32::MAX);
}

// ---------------------------------------------------------------------------
// Resolvers
// ---------------------------------------------------------------------------

#[test]
fn resolver_gates_execution() {
    let mut s = setup();
    let resolver = contract(20);
    let mut p = params(&s);
    p.resolver = Some(resolver);
    assert_eq!(s.create_job(p, 100), Outcome::Done(0));

    assert_eq!(SoroCron::is_due_resolver(&s.env, 0), Some(resolver));
    assert_eq!(SoroCron::execute_resolver(&s.env, &s.keeper, 0), Some(resolver));

    let not_ready = ResolverReply::Returned(false);
    assert!(!SoroCron::is_due(&s.env, 0, not_ready));
    let keeper = s.keeper;
    assert_eq!(s.execute_as(keeper, 0, not_ready), Outcome::Failed(Error::ResolverRejected));

    let ready = ResolverReply::Returned(true);
    assert!(SoroCron::is_due(&s.env, 0, ready));
    assert_eq!(s.execute_as(keeper, 0, ready), Outcome::Done(()));
    assert_eq!(s.count(), 1);
}

#[test]
fn broken_resolver_blocks_instead_of_panicking() {
    let mut s = setup();
    let mut p = params(&s);
    // The target has no `should_run`, so the resolver call fails.
    p.resolver = Some(s.target);
    assert_eq!(s.create_job(p, 100), Outcome::Done(0));

    assert!(!SoroCron::is_due(&s.env, 0, ResolverReply::Failed));
    let keeper = s.keeper;
    assert_eq!(s.execute_as(keeper, 0, ResolverReply::Failed), Outcome::Failed(Error::ResolverRejected));
    assert_eq!(
        s.execute_as(keeper, 0, ResolverReply::NotABool),
        Outcome::Failed(Error::ResolverRejected)
    );
}

#[test]
fn resolver_is_not_consulted_before_the_job_is_due() {
    let mut s = setup();
    let mut p = params(&s);
    p.resolver = Some(contract(20));
    p.start_at = START + 10;
    assert_eq!(s.create_job(p, 100), Outcome::Done(0));
    assert_eq!(SoroCron::is_due_resolver(&s.env, 0), None);
    assert_eq!(SoroCron::execute_resolver(&s.env, &s.keeper, 0), None);
    assert_eq!(SoroCron::execute_resolver(&s.env, &account(77), 0), None);
}

// ---------------------------------------------------------------------------
// Cancellation and funding
// ---------------------------------------------------------------------------

#[test]
fn cancel_job_refunds_owner_and_removes_job() {
    let mut s = setup();
    let p = params(&s);
    assert_eq!(s.create_job(p, 100), Outcome::Done(0));
    assert_eq!(s.execute(0), Outcome::Done(()));

    assert_eq!(s.call(|env| SoroCron::cancel_job(env, 0)), Outcome::Done(100 - FEE));
    assert_eq!(s.balance(&s.owner), INITIAL_BALANCE - FEE);
    assert!(SoroCron::get_job(&s.env, 0).is_none());
    assert_eq!(s.call(|env| SoroCron::cancel_job(env, 0)), Outcome::Failed(Error::JobNotFound));
}

#[test]
fn cancelled_ids_are_not_reused() {
    let mut s = setup();
    let p = params(&s);
    assert_eq!(s.create_job(p.clone(), 100), Outcome::Done(0));
    assert_eq!(s.call(|env| SoroCron::cancel_job(env, 0)), Outcome::Done(100));
    assert_eq!(s.create_job(p, 100), Outcome::Done(1));
    assert_eq!(SoroCron::job_count(&s.env), 2);
}

#[test]
fn fund_job_adds_to_the_balance() {
    let mut s = setup();
    let p = params(&s);
    assert_eq!(s.create_job(p, 100), Outcome::Done(0));
    let owner = s.owner;
    assert_eq!(s.call(|env| SoroCron::fund_job(env, owner, 0, 25)), Outcome::Done(125));
    assert_eq!(s.call(|env| SoroCron::fund_job(env, owner, 0, 0)), Outcome::Failed(Error::InvalidAmount));
    assert_eq!(s.call(|env| SoroCron::fund_job(env, owner, 9, 5)), Outcome::Failed(Error::JobNotFound));
    assert_eq!(s.call(|env| SoroCron::cancel_job(env, 0)), Outcome::Done(125));
    assert_eq!(s.balance(&owner), INITIAL_BALANCE);
}

// ---------------------------------------------------------------------------
// Keeper staking
// ---------------------------------------------------------------------------

#[test]
fn unbonding_disables_keeper_and_releases_stake_after_delay() {
    let mut s = setup();
    let p = params(&s);
    assert_eq!(s.create_job(p, 100), Outcome::Done(0));
    let keeper = s.keeper;

    assert_eq!(s.call(|env| SoroCron::begin_unbonding(env, keeper)), Outcome::Done(START + UNBONDING));

    assert_eq!(s.execute(0), Outcome::Failed(Error::KeeperUnbonding));
    assert_eq!(s.stake(keeper, 1), Outcome::Failed(Error::KeeperUnbonding));
    assert_eq!(s.call(|env| SoroCron::begin_unbonding(env, keeper)), Outcome::Failed(Error::KeeperUnbonding));

    s.advance(UNBONDING - 1);
    assert_eq!(
        s.call(|env| SoroCron::withdraw_stake(env, keeper)),
        Outcome::Failed(Error::UnbondingNotFinished)
    );

    s.advance(1);
    assert_eq!(s.call(|env| SoroCron::withdraw_stake(env, keeper)), Outcome::Done(MIN_STAKE));
    assert_eq!(s.balance(&keeper), INITIAL_BALANCE);
    assert!(SoroCron::get_keeper(&s.env, keeper).is_none());
}

#[test]
fn withdraw_without_unbonding_fails() {
    let mut s = setup();
    let keeper = s.keeper;
    assert_eq!(
        s.call(|env| SoroCron::withdraw_stake(env, keeper)),
        Outcome::Failed(Error::UnbondingNotStarted)
    );
}

#[test]
fn stake_rejects_non_positive_amount() {
    let mut s = setup();
    let keeper = s.keeper;
    assert_eq!(s.stake(keeper, 0), Outcome::Failed(Error::InvalidAmount));
}

#[test]
fn unknown_keeper_cannot_unbond_or_withdraw() {
    let mut s = setup();
    let stranger = account(60);
    s.signers.push(stranger);
    assert_eq!(s.call(|env| SoroCron::begin_unbonding(env, stranger)), Outcome::Failed(Error::KeeperNotFound));
    assert_eq!(s.call(|env| SoroCron::withdraw_stake(env, stranger)), Outcome::Failed(Error::KeeperNotFound));
}

#[test]
fn unbonding_period_saturates_at_the_end_of_time() {
    let mut s = setup();
    s.env.timestamp = u64::MAX - 1;
    let keeper = s.keeper;
    assert_eq!(s.call(|env| SoroCron::begin_unbonding(env, keeper)), Outcome::Done(u64::MAX));
}

// ---------------------------------------------------------------------------
// Pause
// ---------------------------------------------------------------------------

#[test]
fn pause_blocks_activity_but_not_exits() {
    let mut s = setup();
    let p = params(&s);
    assert_eq!(s.create_job(p, 100), Outcome::Done(0));

    assert_eq!(s.call(|env| { SoroCron::set_paused(env, true); Ok(()) }), Outcome::Done(()));
    assert!(SoroCron::config(&s.env).paused);
    assert!(!s.is_due(0));
    assert_eq!(s.execute(0), Outcome::Failed(Error::Paused));
    let p = params(&s);
    assert_eq!(s.create_job(p, 100), Outcome::Failed(Error::Paused));
    let owner = s.owner;
    assert_eq!(s.call(|env| SoroCron::fund_job(env, owner, 0, 10)), Outcome::Failed(Error::Paused));

    // Exits keep working while paused.
    assert_eq!(s.call(|env| SoroCron::cancel_job(env, 0)), Outcome::Done(100));
    let keeper = s.keeper;
    assert_eq!(s.call(|env| SoroCron::begin_unbonding(env, keeper)), Outcome::Done(START + UNBONDING));
    s.advance(UNBONDING);
    assert_eq!(s.call(|env| SoroCron::withdraw_stake(env, keeper)), Outcome::Done(MIN_STAKE));

    assert_eq!(s.call(|env| { SoroCron::set_paused(env, false); Ok(()) }), Outcome::Done(()));
    assert!(!SoroCron::config(&s.env).paused);
}

// ---------------------------------------------------------------------------
// Executor
// ---------------------------------------------------------------------------

#[test]
fn execute_requires_executor() {
    let mut s = setup_without_executor();
    let p = params(&s);
    assert_eq!(s.create_job(p, 100), Outcome::Done(0));

    assert!(!s.is_due(0));
    assert_eq!(s.execute(0), Outcome::Failed(Error::ExecutorNotSet));
}

#[test]
fn executor_can_only_be_set_once() {
    let mut s = setup();
    let other = contract(30);
    assert_eq!(s.call(|env| SoroCron::set_executor(env, other)), Outcome::Failed(Error::ExecutorAlreadySet));
    assert_eq!(SoroCron::config(&s.env).executor, Some(s.executor));
}

// ---------------------------------------------------------------------------
// Admin handover
// ---------------------------------------------------------------------------

fn propose(s: &mut Setup, a: Address) -> Outcome<()> {
    s.call(|env| {
        SoroCron::propose_admin(env, a);
        Ok(())
    })
}

#[test]
fn two_step_admin_transfer() {
    let mut s = setup();
    let new_admin = account(40);
    s.signers.push(new_admin);
    assert_eq!(SoroCron::pending_admin(&s.env), None);

    assert_eq!(propose(&mut s, new_admin), Outcome::Done(()));
    assert_eq!(SoroCron::pending_admin(&s.env), Some(new_admin));
    assert_eq!(SoroCron::config(&s.env).admin, s.admin, "unchanged until accepted");

    assert_eq!(s.call(|env| SoroCron::accept_admin(env)), Outcome::Done(()));
    assert_eq!(SoroCron::config(&s.env).admin, new_admin);
    assert_eq!(SoroCron::pending_admin(&s.env), None);
}

#[test]
fn accept_admin_without_proposal_fails() {
    let mut s = setup();
    assert_eq!(s.call(|env| SoroCron::accept_admin(env)), Outcome::Failed(Error::NoPendingAdmin));
}

#[test]
fn new_admin_proposal_replaces_pending_one() {
    let mut s = setup();
    let first = account(41);
    let second = account(42);
    s.signers.push(second);

    assert_eq!(propose(&mut s, first), Outcome::Done(()));
    assert_eq!(propose(&mut s, second), Outcome::Done(()));
    assert_eq!(SoroCron::pending_admin(&s.env), Some(second));

    assert_eq!(s.call(|env| SoroCron::accept_admin(env)), Outcome::Done(()));
    assert_eq!(SoroCron::config(&s.env).admin, second);
}

#[test]
fn only_admin_proposes_and_only_proposed_accepts() {
    let mut s = setup();
    let new_admin = account(43);
    let stranger = account(44);

    s.signers = vec![stranger];
    assert_eq!(propose(&mut s, new_admin), Outcome::AuthFailed);

    s.signers = vec![s.admin];
    assert_eq!(propose(&mut s, new_admin), Outcome::Done(()));

    s.signers = vec![stranger];
    assert_eq!(s.call(|env| SoroCron::accept_admin(env)), Outcome::AuthFailed);

    s.signers = vec![new_admin];
    assert_eq!(s.call(|env| SoroCron::accept_admin(env)), Outcome::Done(()));
    assert_eq!(SoroCron::config(&s.env).admin, new_admin);
}

#[test]
fn admin_can_cancel_a_proposal() {
    let mut s = setup();
    let new_admin = account(45);
    s.signers.push(new_admin);
    assert_eq!(s.call(|env| SoroCron::cancel_admin_proposal(env)), Outcome::Failed(Error::NoPendingAdmin));
    assert_eq!(propose(&mut s, new_admin), Outcome::Done(()));
    assert_eq!(s.call(|env| SoroCron::cancel_admin_proposal(env)), Outcome::Done(()));
    assert_eq!(SoroCron::pending_admin(&s.env), None);
    assert_eq!(s.call(|env| SoroCron::accept_admin(env)), Outcome::Failed(Error::NoPendingAdmin));
    assert_eq!(SoroCron::config(&s.env).admin, s.admin);
}

// ---------------------------------------------------------------------------
// Per-job pause
// ---------------------------------------------------------------------------

#[test]
fn owner_can_pause_and_resume_a_job() {
    let mut s = setup();
    let p = params(&s);
    assert_eq!(s.create_job(p, 100), Outcome::Done(0));
    assert!(SoroCron::get_job(&s.env, 0).unwrap().active);

    assert_eq!(s.call(|env| SoroCron::set_job_active(env, 0, false)), Outcome::Done(()));
    assert!(!SoroCron::get_job(&s.env, 0).unwrap().active);
    assert!(!s.is_due(0));
    assert_eq!(s.execute(0), Outcome::Failed(Error::JobPaused));

    // Funding still works while paused.
    let owner = s.owner;
    assert_eq!(s.call(|env| SoroCron::fund_job(env, owner, 0, 10)), Outcome::Done(110));

    assert_eq!(s.call(|env| SoroCron::set_job_active(env, 0, true)), Outcome::Done(()));
    assert!(s.is_due(0));
    assert_eq!(s.execute(0), Outcome::Done(()));
    assert_eq!(s.count(), 1);
}

#[test]
fn paused_job_can_still_be_cancelled() {
    let mut s = setup();
    let p = params(&s);
    assert_eq!(s.create_job(p, 100), Outcome::Done(0));
    assert_eq!(s.call(|env| SoroCron::set_job_active(env, 0, false)), Outcome::Done(()));
    assert_eq!(s.call(|env| SoroCron::cancel_job(env, 0)), Outcome::Done(100));
}

#[test]
fn only_owner_can_pause_a_job() {
    let mut s = setup();
    let p = params(&s);
    assert_eq!(s.create_job(p, 100), Outcome::Done(0));
    let stranger = account(46);

    s.signers = vec![stranger];
    assert_eq!(s.call(|env| SoroCron::set_job_active(env, 0, false)), Outcome::AuthFailed);
    assert!(SoroCron::get_job(&s.env, 0).unwrap().active);
}

#[test]
fn pausing_missing_job_fails() {
    let mut s = setup();
    assert_eq!(s.call(|env| SoroCron::set_job_active(env, 7, false)), Outcome::Failed(Error::JobNotFound));
}

// ---------------------------------------------------------------------------
// Custody
// ---------------------------------------------------------------------------

#[test]
fn registry_holds_exactly_job_balances_plus_stakes() {
    let mut s = setup();
    let p = params(&s);
    assert_eq!(s.create_job(p.clone(), 100), Outcome::Done(0));
    assert_eq!(s.create_job(p, 50), Outcome::Done(1));
    assert_eq!(s.execute(0), Outcome::Done(()));
    let owner = s.owner;
    assert_eq!(s.call(|env| SoroCron::fund_job(env, owner, 1, 7)), Outcome::Done(57));
    assert_eq!(s.call(|env| SoroCron::cancel_job(env, 1)), Outcome::Done(57));

    let jobs: i128 = (0..SoroCron::job_count(&s.env))
        .filter_map(|id| SoroCron::get_job(&s.env, id))
        .map(|j| j.balance)
        .sum();
    let stakes = SoroCron::get_keeper(&s.env, s.keeper).unwrap().stake;
    assert_eq!(s.balance(&s.cron), jobs + stakes);
    assert_eq!(s.balance(&s.cron), 100 - FEE + MIN_STAKE);
}

#[test]
fn custody_holds_over_random_call_sequences() {
    let mut runner = TestRunner::default();
    runner
        .run(&proptest::collection::vec((0..7u8, 0..4u64, 1..300i128, 0..200u64), 1..40), |calls| {
            let mut s = setup();
            let owner = s.owner;
            let keeper = s.keeper;
            for (kind, id, amount, wait) in calls {
                s.advance(wait);
                match kind {
                    0 => {
                        let p = params(&s);
                        let _ = s.create_job(p, amount);
                    }
                    1 => {
                        let _ = s.call(|env| SoroCron::fund_job(env, owner, id, amount));
                    }
                    2 => {
                        let _ = s.execute(id);
                    }
                    3 => {
                        let _ = s.call(|env| SoroCron::cancel_job(env, id));
                    }
                    4 => {
                        let _ = s.stake(keeper, amount);
                    }
                    5 => {
                        let _ = s.call(|env| SoroCron::begin_unbonding(env, keeper));
                    }
                    _ => {
                        let _ = s.call(|env| SoroCron::withdraw_stake(env, keeper));
                    }
                }
                let jobs: i128 = (0..SoroCron::job_count(&s.env))
                    .filter_map(|id| SoroCron::get_job(&s.env, id))
                    .map(|j| j.balance)
                    .sum();
                let stakes = SoroCron::get_keeper(&s.env, keeper).map(|k| k.stake).unwrap_or(0);
                if s.balance(&s.cron) != jobs + stakes {
                    return Err(TestCaseError::fail("books and holdings differ"));
                }
            }
            Ok(())
        })
        .unwrap();
}

#[test]
fn jobs_by_owner_lists_live_jobs_in_order() {
    let mut s = setup();
    let p = params(&s);
    assert_eq!(s.create_job(p.clone(), 100), Outcome::Done(0));
    assert_eq!(s.create_job(p.clone(), 100), Outcome::Done(1));
    assert_eq!(s.create_job(p, 100), Outcome::Done(2));
    assert_eq!(SoroCron::jobs_by_owner(&s.env, s.owner), vec![0, 1, 2]);
    assert_eq!(s.call(|env| SoroCron::cancel_job(env, 1)), Outcome::Done(100));
    assert_eq!(SoroCron::jobs_by_owner(&s.env, s.owner), vec![0, 2]);
    assert!(SoroCron::jobs_by_owner(&s.env, s.keeper).is_empty());
}

#[test]
fn get_jobs_pages_skip_cancelled_ids_and_cap_the_limit() {
    let mut s = setup();
    let p = params(&s);
    for expected in 0..60u64 {
        assert_eq!(s.create_job(p.clone(), 100), Outcome::Done(expected));
    }
    assert_eq!(s.call(|env| SoroCron::cancel_job(env, 3)), Outcome::Done(100));
    let ids = |jobs: Vec<sorocron::Job>| jobs.iter().map(|j| j.id).collect::<Vec<u64>>();
    assert_eq!(ids(SoroCron::get_jobs(&s.env, 0, 5)), vec![0, 1, 2, 4]);
    assert_eq!(SoroCron::get_jobs(&s.env, 0, 1_000).len(), 49);
    assert_eq!(ids(SoroCron::get_jobs(&s.env, 55, 50)), vec![55, 56, 57, 58, 59]);
    assert!(SoroCron::get_jobs(&s.env, 60, 10).is_empty());
    assert!(SoroCron::get_jobs(&s.env, u64::MAX, 10).is_empty());
    assert!(SoroCron::get_jobs(&s.env, 0, 0).is_empty());
}

#[test]
fn execution_event_carries_the_hash_of_the_result() {
    let host = soroban_sdk::Env::default();
    let run = JobRun { job_id: 7, keeper: account(9), fee: FEE, run: 3, next_run: 12_345 };
    let e = JobExecuted::for_run(&host, &run, &Vec::new());
    assert_eq!(e.job_id, 7);
    assert_eq!(e.keeper, account(9));
    assert_eq!(e.fee, FEE);
    assert_eq!(e.run, 3);
    assert_eq!(e.next_run, 12_345);
    // SHA-256 of no bytes at all.
    let empty: [u8; 32] = [
        0xe3, 0xb0, 0xc4, 0x42, 0x98, 0xfc, 0x1c, 0x14, 0x9a, 0xfb, 0xf4, 0xc8, 0x99, 0x6f, 0xb9,
        0x24, 0x27, 0xae, 0x41, 0xe4, 0x64, 0x9b, 0x93, 0x4c, 0xa4, 0x95, 0x99, 0x1b, 0x78, 0x52,
        0xb8, 0x55,
    ];
    assert_eq!(e.result_hash, empty);
    // The hash follows the result, not the run.
    let other = JobExecuted::for_run(&host, &run, &vec![0u8, 0, 0, 1]);
    assert_ne!(other.result_hash, empty);
    assert_eq!(other.run, 3);
}

#[test]
fn overflow_queries_flag_only_the_arithmetic_that_would_overflow() {
    let mut s = setup();
    let p = params(&s);
    let owner = s.owner;
    let keeper = s.keeper;
    assert!(!SoroCron::create_job_overflows(&s.env, &owner, &p, 100));
    assert_eq!(s.create_job(p.clone(), 100), Outcome::Done(0));

    // A balance or a stake that would not fit.
    assert!(SoroCron::fund_job_overflows(&s.env, &owner, 0, i128::MAX));
    assert!(!SoroCron::fund_job_overflows(&s.env, &owner, 0, 1));
    assert!(!SoroCron::fund_job_overflows(&s.env, &owner, 99, i128::MAX));
    assert!(SoroCron::stake_overflows(&s.env, &keeper, i128::MAX));
    assert!(!SoroCron::stake_overflows(&s.env, &keeper, 0));

    // A run counter that is full, on a job without a run limit.
    let mut job = SoroCron::get_job(&s.env, 0).unwrap();
    job.runs = u32::MAX;
    storage::set_job(&mut s.env, &job);
    assert!(SoroCron::execute_overflows(&s.env, &keeper, 0, NO_RESOLVER));
    assert!(!SoroCron::execute_overflows(&s.env, &keeper, 1, NO_RESOLVER));

    // The id counter at its ceiling.
    storage::restore_next_job_id(&mut s.env, u64::MAX);
    assert!(SoroCron::create_job_overflows(&s.env, &owner, &p, 100));
    assert!(!SoroCron::create_job_overflows(&s.env, &owner, &p, 0));

    // A paused registry answers `Paused` first: nothing would overflow.
    SoroCron::set_paused(&mut s.env, true);
    assert!(!SoroCron::create_job_overflows(&s.env, &owner, &p, 100));
    assert!(!SoroCron::fund_job_overflows(&s.env, &owner, 0, i128::MAX));
    assert!(!SoroCron::execute_overflows(&s.env, &keeper, 0, NO_RESOLVER));
    assert!(!SoroCron::stake_overflows(&s.env, &keeper, i128::MAX));
}

#[test]
fn unbonding_keeper_is_refused_even_with_a_full_run_counter() {
    let mut s = setup();
    let p = params(&s);
    let keeper = s.keeper;
    assert_eq!(s.create_job(p, 100), Outcome::Done(0));
    let mut job = SoroCron::get_job(&s.env, 0).unwrap();
    job.runs = u32::MAX;
    storage::set_job(&mut s.env, &job);
    assert_eq!(
        s.call(|env| SoroCron::begin_unbonding(env, keeper)),
        Outcome::Done(START + UNBONDING)
    );
    assert!(!SoroCron::execute_overflows(&s.env, &keeper, 0, NO_RESOLVER));
    assert_eq!(s.execute(0), Outcome::Failed(Error::KeeperUnbonding));
}
