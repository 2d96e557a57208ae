use sorocron::address::{Address, AddressKind};
use sorocron::ttl_guardian::{Error, TtlExtended, TtlGuardian, MAX_EXTEND_MANY};

/// The network maximum TTL used by these tests.
const MAX_TTL: u32 = 3_110_400;

fn contract(n: u128) -> Address {
    Address { kind: AddressKind::Contract, hi: 7, lo: n }
}

#[test]
fn extends_instance_ttl_below_threshold() {
    let dummy = contract(1);
    let before = 4_096u32;
    let target = before + 10_000;
    let ext = TtlGuardian::extend(MAX_TTL, dummy, target, target).unwrap();
    assert_eq!(ext.extend_to, target);
    assert_eq!(ext, TtlExtended { contract: dummy, threshold: target, extend_to: target });
}

#[test]
fn caps_extension_at_network_maximum() {
    let dummy = contract(1);
    let ext = TtlGuardian::extend(MAX_TTL, dummy, MAX_TTL, u32::MAX).unwrap();
    assert_eq!(ext.extend_to, MAX_TTL);
}

#[test]
fn extends_many_contracts_in_one_call() {
    let (a, b, c) = (contract(1), contract(2), contract(3));
    let target = 4_096 + 10_000;
    let applied = TtlGuardian::extend_many(MAX_TTL, &vec![a, b, c], target, target).unwrap();
    let extend_to: Vec<u32> = applied.iter().map(|e| e.extend_to).collect();
    assert_eq!(extend_to, vec![target, target, target]);
    let order: Vec<Address> = applied.iter().map(|e| e.contract).collect();
    assert_eq!(order, vec![a, b, c]);
}

#[test]
fn extend_many_rejects_too_many_contracts() {
    let dummy = contract(1);
    let contracts = vec![dummy; MAX_EXTEND_MANY as usize + 1];
    assert_eq!(TtlGuardian::extend_many(MAX_TTL, &contracts, 1_000, 1_000), Err(Error::TooManyContracts));
}

#[test]
fn extend_many_accepts_exactly_the_cap() {
    let contracts = vec![contract(1); MAX_EXTEND_MANY as usize];
    assert_eq!(TtlGuardian::extend_many(MAX_TTL, &contracts, 1_000, 1_000).unwrap().len(), 20);
}

#[test]
fn rejects_threshold_above_extend_to() {
    assert_eq!(TtlGuardian::extend(MAX_TTL, contract(1), 2_000, 1_000), Err(Error::InvalidTtl));
    assert_eq!(
        TtlGuardian::extend_many(MAX_TTL, &vec![contract(1)], 2_000, 1_000),
        Err(Error::InvalidTtl)
    );
}

#[test]
fn threshold_is_checked_against_the_capped_extension() {
    assert_eq!(TtlGuardian::extend(100, contract(1), 150, 200), Err(Error::InvalidTtl));
}

#[test]
fn extend_many_of_nothing_extends_nothing() {
    assert_eq!(TtlGuardian::extend_many(MAX_TTL, &vec![], 2_000, 1_000), Ok(vec![]));
}

#[test]
fn guardian_error_codes() {
    assert_eq!(Error::InvalidTtl.code(), 1);
    assert_eq!(Error::TooManyContracts.code(), 2);
}

#[test]
fn leaves_ttl_alone_above_threshold() {
    // The host only extends a contract whose TTL is below the threshold; the
    // guardian asks for exactly the threshold and target it was given, so a
    // contract with `before` ledgers left is left alone.
    let dummy = contract(1);
    let before = 4_096u32;
    let ext = TtlGuardian::extend(MAX_TTL, dummy, before / 2, before + 10_000).unwrap();
    assert_eq!(ext, TtlExtended { contract: dummy, threshold: before / 2, extend_to: before + 10_000 });
    assert!(ext.threshold < before);
}

#[test]
fn keeps_contract_alive_past_original_expiry() {
    // Just before expiry the guardian asks for 50 000 more ledgers, well past
    // the original TTL.
    let dummy = contract(1);
    let ttl = 4_096u32;
    let ext = TtlGuardian::extend(MAX_TTL, dummy, 50_000, 50_000).unwrap();
    assert_eq!(ext, TtlExtended { contract: dummy, threshold: 50_000, extend_to: 50_000 });
    assert!(ext.extend_to > ttl * 2);
}
