use proptest::arbitrary::any;
use proptest::strategy::{Strategy, Union};
use proptest::test_runner::{TestCaseError, TestRunner};

use sorocron::address::{Address, AddressKind};
use sorocron::errors::Error;
use sorocron::executor::{Executor, Forward};
use sorocron::registry::{ensure_due, next_run_after};
use sorocron::types::Job;

/// Timestamps: mostly ordinary seconds, some anywhere, some at the top of
/// the range.
fn ts() -> impl Strategy<Value = u64> {
    Union::new_weighted(vec![
        (6, (0..64u64).boxed()),
        (4, any::<u64>().boxed()),
        (2, (u64::MAX - 63..=u64::MAX).boxed()),
    ])
}

fn check(ok: bool, what: &str) -> Result<(), TestCaseError> {
    if ok {
        Ok(())
    } else {
        Err(TestCaseError::fail(what.to_string()))
    }
}

/// A job that is due right now: active, funded, unlimited runs, no expiry.
fn sample_job() -> Job {
    Job {
        id: 0,
        owner: Address { kind: AddressKind::Account, hi: 0, lo: 1 },
        target: Address { kind: AddressKind::Contract, hi: 0, lo: 2 },
        function: String::from("fuzz"),
        args: String::new(),
        interval: 1,
        next_run: 0,
        fee_per_run: 1,
        balance: i128::MAX,
        max_runs: 0,
        runs: 0,
        end_at: 0,
        resolver: None,
        active: true,
    }
}

#[test]
fn next_run_after_is_total_at_timestamp_ceiling() {
    for interval in [0u64, 1, 60, u64::MAX] {
        for now in [0u64, 1, u64::MAX - 1, u64::MAX] {
            assert_eq!(next_run_after(u64::MAX, interval, now), u64::MAX);
        }
    }
}

#[test]
fn next_run_after_keeps_cadence_and_skips_missed_runs() {
    assert_eq!(next_run_after(1_000, 60, 1_000), 1_060);
    assert_eq!(next_run_after(1_000, 60, 1_059), 1_060);
    assert_eq!(next_run_after(1_000, 60, 1_060), 1_120);
    assert_eq!(next_run_after(1_000, 60, 1_600), 1_660);
}

#[test]
fn next_run_after_never_regresses_or_panics() {
    let mut runner = TestRunner::default();
    runner
        .run(&(ts(), ts(), ts()), |(scheduled, interval, now)| {
            let next = next_run_after(scheduled, interval, now);
            check(next >= scheduled, "went before scheduled")?;
            check(next >= now, "went before now")?;
            match scheduled.checked_add(interval) {
                Some(exact) => {
                    if exact > now {
                        check(next == exact, "must keep the exact cadence when it fits")?;
                    }
                }
                None => check(next == u64::MAX, "saturated cadence must pin at u64::MAX")?,
            }
            Ok(())
        })
        .unwrap();
}

#[test]
fn zero_interval_never_goes_backwards() {
    let mut runner = TestRunner::default();
    runner
        .run(&(ts(), ts()), |(scheduled, now)| {
            check(next_run_after(scheduled, 0, now) == scheduled.max(now), "max(scheduled, now)")
        })
        .unwrap();
}

#[test]
fn schedule_always_advances_until_ceiling() {
    let mut runner = TestRunner::default();
    runner
        .run(&(ts(), 1..=u64::MAX, ts()), |(start, interval, skip)| {
            let mut next_run = start;
            for _ in 0..64 {
                let now = next_run.saturating_add(skip);
                let advanced = next_run_after(next_run, interval, now);
                check(advanced > next_run || next_run == u64::MAX, "schedule stalled")?;
                check(advanced >= now, "advanced run fell behind now")?;
                next_run = advanced;
            }
            Ok(())
        })
        .unwrap();
}

#[test]
fn ensure_due_matches_gate_specification() {
    let mut runner = TestRunner::default();
    let case = (
        any::<bool>(),
        (0..=4u32, 0..=4u32),
        (any::<i128>(), any::<i128>()),
        (ts(), ts(), ts()),
    );
    runner
        .run(&case, |(active, (runs, max_runs), (balance, fee_per_run), (end_at, next_run, now))| {
            let mut job = sample_job();
            job.active = active;
            job.runs = runs;
            job.max_runs = max_runs;
            job.end_at = end_at;
            job.balance = balance;
            job.fee_per_run = fee_per_run;
            job.next_run = next_run;
            let expected = if !active {
                Err(Error::JobPaused)
            } else if max_runs != 0 && runs >= max_runs {
                Err(Error::MaxRunsReached)
            } else if end_at != 0 && now >= end_at {
                Err(Error::JobExpired)
            } else if balance < fee_per_run {
                Err(Error::InsufficientJobBalance)
            } else if now < next_run {
                Err(Error::JobNotDue)
            } else {
                Ok(())
            };
            check(ensure_due(&job, now) == expected, "gate order")
        })
        .unwrap();
}

#[test]
fn admitted_jobs_can_pay_their_fee() {
    let mut runner = TestRunner::default();
    runner
        .run(&(any::<i128>(), 1..=i128::MAX, ts(), ts()), |(balance, fee, next_run, now)| {
            let mut job = sample_job();
            job.balance = balance;
            job.fee_per_run = fee;
            job.next_run = next_run;
            if ensure_due(&job, now).is_ok() {
                let remaining = job.balance.checked_sub(job.fee_per_run);
                check(matches!(remaining, Some(paid) if paid >= 0), "fee payment underflowed")?;
            }
            Ok(())
        })
        .unwrap();
}

#[test]
fn due_boundary_is_inclusive() {
    for next_run in [1u64, 2, 1_700_000_000, u64::MAX] {
        let mut job = sample_job();
        job.next_run = next_run;
        assert!(ensure_due(&job, next_run - 1).is_err());
        assert!(ensure_due(&job, next_run).is_ok());
        assert!(ensure_due(&job, next_run.saturating_add(1)).is_ok());
    }
}

#[test]
fn expiry_boundary_is_exclusive() {
    for end_at in [1u64, 2, 1_700_000_000, u64::MAX] {
        let mut job = sample_job();
        job.end_at = end_at;
        assert!(ensure_due(&job, end_at - 1).is_ok());
        assert_eq!(ensure_due(&job, end_at), Err(Error::JobExpired));
        if end_at < u64::MAX {
            assert_eq!(ensure_due(&job, end_at + 1), Err(Error::JobExpired));
        }
    }
}

#[test]
fn error_codes_are_stable() {
    assert_eq!(Error::Paused.code(), 1);
    assert_eq!(Error::JobNotFound.code(), 2);
    assert_eq!(Error::ResolverRejected.code(), 10);
    assert_eq!(Error::JobPaused.code(), 19);
    assert_eq!(Error::TooManyArgs.code(), 22);
    for c in 1..=22u32 {
        assert_eq!(Error::from_code(c).unwrap().code(), c);
    }
    assert_eq!(Error::from_code(0), None);
    assert_eq!(Error::from_code(23), None);
}

#[test]
fn stores_registry() {
    let registry = Address { kind: AddressKind::Contract, hi: 1, lo: 1 };
    assert_eq!(Executor::__constructor(registry).registry(), registry);
}

#[test]
fn forwards_call_on_behalf_of_the_registry() {
    let registry = Address { kind: AddressKind::Contract, hi: 1, lo: 1 };
    let echo = Address { kind: AddressKind::Contract, hi: 1, lo: 2 };
    let f = Executor::__constructor(registry).execute(echo, String::from("echo"), String::from("AAAAAw=="));
    assert_eq!(
        f,
        Forward {
            authorizer: registry,
            target: echo,
            function: String::from("echo"),
            args: String::from("AAAAAw=="),
        }
    );
}
