use sorocron::address::{Address, AddressKind, AddressMap};
use sorocron::env::Context;
use sorocron::storage::{
    add_owner_job, get_keeper, get_pending_admin, next_job_id, owner_jobs, remove_keeper,
    remove_owner_job, remove_pending_admin, set_keeper, set_pending_admin, take_next_job_id,
};
use sorocron::types::Keeper;

fn account(n: u128) -> Address {
    Address { kind: AddressKind::Account, hi: 3, lo: n }
}

fn fresh() -> Context {
    Context::new(Address { kind: AddressKind::Contract, hi: 0, lo: 1 }, 0)
}

#[test]
fn owner_job_lists_append_and_remove_the_first_match() {
    let mut env = fresh();
    let owner = account(1);
    assert!(owner_jobs(&env, &owner).is_empty());
    add_owner_job(&mut env, &owner, 4);
    add_owner_job(&mut env, &owner, 7);
    add_owner_job(&mut env, &owner, 4);
    assert_eq!(owner_jobs(&env, &owner), vec![4, 7, 4]);
    remove_owner_job(&mut env, &owner, 4);
    assert_eq!(owner_jobs(&env, &owner), vec![7, 4]);
    remove_owner_job(&mut env, &owner, 9);
    assert_eq!(owner_jobs(&env, &owner), vec![7, 4]);
    assert!(owner_jobs(&env, &account(2)).is_empty());
}

#[test]
fn job_ids_are_taken_in_order() {
    let mut env = fresh();
    assert_eq!(next_job_id(&env), 0);
    assert_eq!(take_next_job_id(&mut env), 0);
    assert_eq!(take_next_job_id(&mut env), 1);
    assert_eq!(next_job_id(&env), 2);
}

#[test]
fn keeper_records_are_kept_per_address() {
    let mut env = fresh();
    let (a, b) = (account(1), account(2));
    let ka = Keeper { stake: 5, unbonding_at: None, executions: 0 };
    let kb = Keeper { stake: 9, unbonding_at: Some(3), executions: 1 };
    set_keeper(&mut env, &a, &ka);
    set_keeper(&mut env, &b, &kb);
    assert_eq!(get_keeper(&env, &a), Some(ka));
    assert_eq!(get_keeper(&env, &b), Some(kb));
    let ka2 = Keeper { stake: 6, ..ka };
    set_keeper(&mut env, &a, &ka2);
    assert_eq!(get_keeper(&env, &a), Some(ka2));
    remove_keeper(&mut env, &a);
    assert_eq!(get_keeper(&env, &a), None);
    assert_eq!(get_keeper(&env, &b), Some(kb));
}

#[test]
fn pending_admin_is_set_and_cleared() {
    let mut env = fresh();
    assert_eq!(get_pending_admin(&env), None);
    set_pending_admin(&mut env, &account(8));
    assert_eq!(get_pending_admin(&env), Some(account(8)));
    remove_pending_admin(&mut env);
    assert_eq!(get_pending_admin(&env), None);
}

#[test]
fn address_map_keeps_one_entry_per_address() {
    let mut m: AddressMap<u32> = AddressMap::new();
    m.insert(account(1), 10);
    m.insert(account(2), 20);
    m.insert(account(1), 11);
    assert_eq!(m.get(&account(1)), Some(&11));
    assert_eq!(m.get(&account(2)), Some(&20));
    assert_eq!(m.remove(&account(1)), Some(11));
    assert_eq!(m.remove(&account(1)), None);
    assert_eq!(m.get(&account(2)), Some(&20));
    // Same payload, other kind: another address.
    let contract = Address { kind: AddressKind::Contract, hi: 3, lo: 2 };
    assert_eq!(m.get(&contract), None);
}
