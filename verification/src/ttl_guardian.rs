//! The TTL guardian. Stellar archives contract data whose TTL (time to live,
//! in ledgers) runs out, and extending it is permissionless but somebody has
//! to remember to do it. Scheduled as a job, `extend(contract, threshold,
//! extend_to)` keeps a contract's instance and code alive.
use vstd::prelude::*;

use crate::address::Address;

verus! {

/// Hard cap on how many contracts `extend_many` will process in one call.
pub const MAX_EXTEND_MANY: u32 = 20;

#[derive(Clone, Copy, Debug, PartialEq, Eq, Hash, Structural)]
pub enum Error {
    /// `threshold` must not exceed `extend_to` (after capping to the network maximum).
    InvalidTtl,
    /// `contracts` passed to `extend_many` is longer than `MAX_EXTEND_MANY`.
    TooManyContracts,
}

impl Error {
    /// The error's code on the wire.
    pub fn code(&self) -> (c: u32)
        ensures
            c == (match *self {
                Error::InvalidTtl => 1u32,
                Error::TooManyContracts => 2u32,
            }),
    {
        match self {
            Error::InvalidTtl => 1,
            Error::TooManyContracts => 2,
        }
    }
}

/// An extension of `contract`'s instance and code TTL: if it is below
/// `threshold` ledgers, it is raised to `extend_to`. Also the event that
/// reports it.
#[derive(Clone, Copy, Debug, PartialEq, Eq, Structural)]
pub struct TtlExtended {
    pub contract: Address,
    pub threshold: u32,
    pub extend_to: u32,
}

/// `extend_to`, capped at the network's maximum TTL.
pub open spec fn capped(extend_to: u32, max_ttl: u32) -> u32 {
    if extend_to <= max_ttl {
        extend_to
    } else {
        max_ttl
    }
}

/// The extension of one contract, or why there is none.
pub open spec fn spec_extend_one(max_ttl: u32, contract: Address, threshold: u32, extend_to: u32) -> Result<
    TtlExtended,
    Error,
> {
    let extend_to = capped(extend_to, max_ttl);
    if threshold > extend_to {
        Err(Error::InvalidTtl)
    } else {
        Ok(TtlExtended { contract, threshold, extend_to })
    }
}

/// The extensions of several contracts, one each in the same order, or why
/// there are none.
pub open spec fn spec_extend_many(
    max_ttl: u32,
    contracts: Seq<Address>,
    threshold: u32,
    extend_to: u32,
) -> Result<Seq<TtlExtended>, Error> {
    if contracts.len() > MAX_EXTEND_MANY {
        Err(Error::TooManyContracts)
    } else if contracts.len() > 0 && threshold > capped(extend_to, max_ttl) {
        Err(Error::InvalidTtl)
    } else {
        Ok(
            contracts.map_values(
                |c: Address|
                    TtlExtended { contract: c, threshold, extend_to: capped(extend_to, max_ttl) },
            ),
        )
    }
}

/// One extension never goes past the network maximum nor past what was
/// asked: it asks for `extend_to`, or the network maximum where that is
/// smaller, keeps the threshold and contract it was given, and is refused
/// exactly when the threshold exceeds that target.
pub proof fn lemma_extend_one_is_capped(max_ttl: u32, contract: Address, threshold: u32, extend_to: u32)
    ensures
        match spec_extend_one(max_ttl, contract, threshold, extend_to) {
            Ok(x) => {
                &&& x.contract == contract
                &&& x.threshold == threshold
                &&& x.extend_to <= max_ttl
                &&& x.extend_to <= extend_to
                &&& (x.extend_to == extend_to || x.extend_to == max_ttl)
                &&& x.threshold <= x.extend_to
            },
            Err(e) => {
                &&& e == Error::InvalidTtl
                &&& threshold > extend_to || threshold > max_ttl
            },
        },
{
}

/// Extending several contracts in one call extends each exactly as
/// extending it alone would, in the given order: every extension is capped
/// at the network maximum, and the call fails only where there are too many
/// contracts or where extending one of them alone fails, with that error.
pub proof fn lemma_extend_many_is_extend_each(
    max_ttl: u32,
    contracts: Seq<Address>,
    threshold: u32,
    extend_to: u32,
)
    ensures
        match spec_extend_many(max_ttl, contracts, threshold, extend_to) {
            Ok(v) => {
                &&& contracts.len() <= MAX_EXTEND_MANY
                &&& v.len() == contracts.len()
                &&& forall|i: int|
                    0 <= i < v.len() ==> {
                        &&& spec_extend_one(max_ttl, contracts[i], threshold, extend_to) == Ok::<
                            TtlExtended,
                            Error,
                        >(#[trigger] v[i])
                        &&& v[i].extend_to <= max_ttl
                    }
            },
            Err(e) => contracts.len() > MAX_EXTEND_MANY && e == Error::TooManyContracts || exists|
                i: int,
            |
                0 <= i < contracts.len() && spec_extend_one(
                    max_ttl,
                    #[trigger] contracts[i],
                    threshold,
                    extend_to,
                ) == Err::<TtlExtended, Error>(e),
        },
        contracts.len() <= MAX_EXTEND_MANY && (forall|i: int|
            0 <= i < contracts.len() ==> (#[trigger] spec_extend_one(
                max_ttl,
                contracts[i],
                threshold,
                extend_to,
            )) is Ok) ==> spec_extend_many(max_ttl, contracts, threshold, extend_to) is Ok,
{
    if contracts.len() > 0 {
        let first = spec_extend_one(max_ttl, contracts[0], threshold, extend_to);
        assert(first is Ok <==> threshold <= capped(extend_to, max_ttl));
    }
}

fn extend_one(max_ttl: u32, contract: Address, threshold: u32, extend_to: u32) -> (r: Result<
    TtlExtended,
    Error,
>)
    ensures
        r == spec_extend_one(max_ttl, contract, threshold, extend_to),
{
    let extend_to = if extend_to <= max_ttl {
        extend_to
    } else {
        max_ttl
    };
    if threshold > extend_to {
        return Err(Error::InvalidTtl);
    }
    Ok(TtlExtended { contract, threshold, extend_to })
}

/// The guardian contract. `max_ttl` is the network's maximum TTL.
pub struct TtlGuardian;

impl TtlGuardian {
    /// If `contract`'s instance or code TTL is below `threshold` ledgers,
    /// extends it to `extend_to` ledgers. `extend_to` is capped at the
    /// network's maximum TTL; the extension gives the value applied.
    pub fn extend(max_ttl: u32, contract: Address, threshold: u32, extend_to: u32) -> (r: Result<
        TtlExtended,
        Error,
    >)
        ensures
            r == spec_extend_one(max_ttl, contract, threshold, extend_to),
            r is Ok ==> r->Ok_0.extend_to <= max_ttl && r->Ok_0.extend_to <= extend_to,
    {
        extend_one(max_ttl, contract, threshold, extend_to)
    }

    /// Like `extend`, but for several contracts in one call. Every contract
    /// gets the same `threshold`/`extend_to`. Bounded to `MAX_EXTEND_MANY`
    /// contracts so one job can't grow unboundedly expensive. Gives the
    /// extension of each, in the same order.
    pub fn extend_many(max_ttl: u32, contracts: &Vec<Address>, threshold: u32, extend_to: u32) -> (r:
        Result<Vec<TtlExtended>, Error>)
        ensures
            match r {
                Ok(v) => spec_extend_many(max_ttl, contracts@, threshold, extend_to) == Ok::<
                    Seq<TtlExtended>,
                    Error,
                >(v@),
                Err(e) => spec_extend_many(max_ttl, contracts@, threshold, extend_to) == Err::<
                    Seq<TtlExtended>,
                    Error,
                >(e),
            },
    {
        if contracts.len() > MAX_EXTEND_MANY as usize {
            return Err(Error::TooManyContracts);
        }
        let mut applied: Vec<TtlExtended> = Vec::new();
        let mut i: usize = 0;
        while i < contracts.len()
            invariant
                i <= contracts@.len(),
                contracts@.len() <= MAX_EXTEND_MANY,
                i > 0 ==> threshold <= capped(extend_to, max_ttl),
                applied@ == contracts@.take(i as int).map_values(
                    |c: Address|
                        TtlExtended {
                            contract: c,
                            threshold,
                            extend_to: capped(extend_to, max_ttl),
                        },
                ),
            decreases contracts@.len() - i,
        {
            match extend_one(max_ttl, contracts[i], threshold, extend_to) {
                Ok(ext) => applied.push(ext),
                Err(e) => {
                    return Err(e);
                },
            }
            i = i + 1;
            assert(contracts@.take(i as int) =~= contracts@.take((i - 1) as int).push(
                contracts@[i - 1],
            ));
        }
        assert(contracts@.take(i as int) =~= contracts@);
        Ok(applied)
    }
}

} // verus!
