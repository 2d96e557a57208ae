//! Errors of the registry. Their codes are part of the public interface:
//! they are never renumbered, only appended.
use vstd::prelude::*;

verus! {

#[derive(Clone, Copy, Debug, PartialEq, Eq, Hash, Structural)]
pub enum Error {
    Paused,
    JobNotFound,
    InvalidInterval,
    InvalidFee,
    InvalidAmount,
    ForbiddenTarget,
    JobNotDue,
    InsufficientJobBalance,
    MaxRunsReached,
    ResolverRejected,
    KeeperNotFound,
    InsufficientStake,
    KeeperUnbonding,
    UnbondingNotStarted,
    UnbondingNotFinished,
    ExecutorNotSet,
    ExecutorAlreadySet,
    NoPendingAdmin,
    JobPaused,
    JobExpired,
    IntervalTooShort,
    TooManyArgs,
}

/// The number of each error on the wire.
pub open spec fn error_code(e: Error) -> u32 {
    match e {
        Error::Paused => 1,
        Error::JobNotFound => 2,
        Error::InvalidInterval => 3,
        Error::InvalidFee => 4,
        Error::InvalidAmount => 5,
        Error::ForbiddenTarget => 6,
        Error::JobNotDue => 7,
        Error::InsufficientJobBalance => 8,
        Error::MaxRunsReached => 9,
        Error::ResolverRejected => 10,
        Error::KeeperNotFound => 11,
        Error::InsufficientStake => 12,
        Error::KeeperUnbonding => 13,
        Error::UnbondingNotStarted => 14,
        Error::UnbondingNotFinished => 15,
        Error::ExecutorNotSet => 16,
        Error::ExecutorAlreadySet => 17,
        Error::NoPendingAdmin => 18,
        Error::JobPaused => 19,
        Error::JobExpired => 20,
        Error::IntervalTooShort => 21,
        Error::TooManyArgs => 22,
    }
}

impl Error {
    /// The error's code.
    pub fn code(&self) -> (c: u32)
        ensures
            c == error_code(*self),
    {
        match self {
            Error::Paused => 1,
            Error::JobNotFound => 2,
            Error::InvalidInterval => 3,
            Error::InvalidFee => 4,
            Error::InvalidAmount => 5,
            Error::ForbiddenTarget => 6,
            Error::JobNotDue => 7,
            Error::InsufficientJobBalance => 8,
            Error::MaxRunsReached => 9,
            Error::ResolverRejected => 10,
            Error::KeeperNotFound => 11,
            Error::InsufficientStake => 12,
            Error::KeeperUnbonding => 13,
            Error::UnbondingNotStarted => 14,
            Error::UnbondingNotFinished => 15,
            Error::ExecutorNotSet => 16,
            Error::ExecutorAlreadySet => 17,
            Error::NoPendingAdmin => 18,
            Error::JobPaused => 19,
            Error::JobExpired => 20,
            Error::IntervalTooShort => 21,
            Error::TooManyArgs => 22,
        }
    }

    /// The error with code `c`, if there is one.
    pub fn from_code(c: u32) -> (r: Option<Error>)
        ensures
            match r {
                Some(e) => error_code(e) == c,
                None => forall|e: Error| error_code(e) != c,
            },
    {
        match c {
            1 => Some(Error::Paused),
            2 => Some(Error::JobNotFound),
            3 => Some(Error::InvalidInterval),
            4 => Some(Error::InvalidFee),
            5 => Some(Error::InvalidAmount),
            6 => Some(Error::ForbiddenTarget),
            7 => Some(Error::JobNotDue),
            8 => Some(Error::InsufficientJobBalance),
            9 => Some(Error::MaxRunsReached),
            10 => Some(Error::ResolverRejected),
            11 => Some(Error::KeeperNotFound),
            12 => Some(Error::InsufficientStake),
            13 => Some(Error::KeeperUnbonding),
            14 => Some(Error::UnbondingNotStarted),
            15 => Some(Error::UnbondingNotFinished),
            16 => Some(Error::ExecutorNotSet),
            17 => Some(Error::ExecutorAlreadySet),
            18 => Some(Error::NoPendingAdmin),
            19 => Some(Error::JobPaused),
            20 => Some(Error::JobExpired),
            21 => Some(Error::IntervalTooShort),
            22 => Some(Error::TooManyArgs),
            _ => None,
        }
    }
}

/// Distinct errors have distinct codes, and every code lies in `1..=22`.
pub proof fn lemma_error_codes_distinct(a: Error, b: Error)
    ensures
        error_code(a) == error_code(b) <==> a == b,
        1 <= error_code(a) <= 22,
{
}

} // verus!
