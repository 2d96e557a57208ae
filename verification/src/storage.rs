//! The registry's storage, and the helpers through which every read and
//! write of it goes.
use vstd::prelude::*;

use std::collections::HashMap;

use crate::address::{Address, AddressMap};
use crate::env::Context;
use crate::types::{Config, Job, Keeper};

verus! {

broadcast use vstd::std_specs::hash::group_hash_axioms;

/// What the storage holds.
pub struct StorageView {
    pub config: Option<Config>,
    /// The next job id to issue; ids are never reused.
    pub next_job_id: u64,
    pub jobs: Map<u64, Job>,
    pub keepers: Map<Address, Keeper>,
    pub pending_admin: Option<Address>,
    pub owner_jobs: Map<Address, Seq<u64>>,
}

#[derive(Clone, Debug)]
pub struct Storage {
    config: Option<Config>,
    next_job_id: u64,
    jobs: HashMap<u64, Job>,
    keepers: AddressMap<Keeper>,
    pending_admin: Option<Address>,
    owner_jobs: AddressMap<Vec<u64>>,
}

impl View for Storage {
    type V = StorageView;

    closed spec fn view(&self) -> StorageView {
        StorageView {
            config: self.config,
            next_job_id: self.next_job_id,
            jobs: self.jobs@,
            keepers: self.keepers@,
            pending_admin: self.pending_admin,
            owner_jobs: self.owner_jobs@.map_values(|ids: Vec<u64>| ids@),
        }
    }
}

/// Every stored job is stored under its own id, and that id has been issued.
pub open spec fn jobs_well_keyed(jobs: Map<u64, Job>, next_job_id: u64) -> bool {
    forall|id: u64| #[trigger] jobs.contains_key(id) ==> jobs[id].id == id && id < next_job_id
}

impl Storage {
    /// The storage is well formed: its maps keep each key once and every job
    /// sits under an id that has been issued.
    pub closed spec fn wf(&self) -> bool {
        &&& self.keepers.wf()
        &&& self.owner_jobs.wf()
        &&& jobs_well_keyed(self.jobs@, self.next_job_id)
    }

    /// A storage holds finitely many jobs and keepers.
    pub proof fn lemma_finite(&self)
        ensures
            self@.jobs.dom().finite(),
            self@.keepers.dom().finite(),
    {
        self.keepers.lemma_finite();
    }

    /// In a well-formed storage every job sits under its own issued id.
    pub proof fn lemma_jobs_well_keyed(&self)
        requires
            self.wf(),
        ensures
            jobs_well_keyed(self@.jobs, self@.next_job_id),
    {
    }

    /// The view of an empty storage.
    pub open spec fn empty_view() -> StorageView {
        StorageView {
            config: None,
            next_job_id: 0,
            jobs: Map::empty(),
            keepers: Map::empty(),
            pending_admin: None,
            owner_jobs: Map::empty(),
        }
    }

    /// An empty storage.
    pub fn new() -> (s: Storage)
        ensures
            s.wf(),
            s@ == Storage::empty_view(),
    {
        let s = Storage {
            config: None,
            next_job_id: 0,
            jobs: HashMap::new(),
            keepers: AddressMap::new(),
            pending_admin: None,
            owner_jobs: AddressMap::new(),
        };
        assert(s@.owner_jobs =~= Map::<Address, Seq<u64>>::empty());
        s
    }
}

/// The stored settings.
pub fn load_config(env: &Context) -> (c: Config)
    requires
        env.storage@.config is Some,
    ensures
        c == env.storage@.config.unwrap(),
{
    match env.storage.config {
        Some(c) => c,
        None => {
            proof {
                assert(false);
            }
            env.storage.config.unwrap()
        },
    }
}

/// Stores the settings.
pub fn set_config(env: &mut Context, config: &Config)
    requires
        old(env).storage.wf(),
    ensures
        final(env).storage.wf(),
        final(env).same_host(old(env)),
        final(env).storage@ == (StorageView { config: Some(*config), ..old(env).storage@ }),
{
    env.storage.config = Some(*config);
}

/// Number of job ids issued so far, which is the next id to issue.
pub fn next_job_id(env: &Context) -> (id: u64)
    ensures
        id == env.storage@.next_job_id,
{
    env.storage.next_job_id
}

/// Loads the count of issued job ids, as `take_next_job_id` keeps it in
/// storage, into a storage whose jobs all have smaller ids.
pub fn restore_next_job_id(env: &mut Context, next: u64)
    requires
        old(env).storage.wf(),
        forall|id: u64| #[trigger] old(env).storage@.jobs.contains_key(id) ==> id < next,
    ensures
        final(env).storage.wf(),
        final(env).same_host(old(env)),
        final(env).storage@ == (StorageView { next_job_id: next, ..old(env).storage@ }),
{
    env.storage.next_job_id = next;
}

/// Returns the next free job id and reserves it.
pub fn take_next_job_id(env: &mut Context) -> (id: u64)
    requires
        old(env).storage.wf(),
        old(env).storage@.next_job_id < u64::MAX,
    ensures
        final(env).storage.wf(),
        final(env).same_host(old(env)),
        id == old(env).storage@.next_job_id,
        !old(env).storage@.jobs.contains_key(id),
        final(env).storage@ == (StorageView { next_job_id: (id + 1) as u64, ..old(env).storage@ }),
{
    let id = env.storage.next_job_id;
    env.storage.next_job_id = id + 1;
    id
}

/// The job stored under `id`.
pub fn get_job(env: &Context, id: u64) -> (r: Option<Job>)
    requires
        env.storage.wf(),
    ensures
        match r {
            Some(job) => {
                &&& env.storage@.jobs.contains_key(id)
                &&& env.storage@.jobs[id] == job
                &&& job.id == id
                &&& id < env.storage@.next_job_id
            },
            None => !env.storage@.jobs.contains_key(id),
        },
{
    match env.storage.jobs.get(&id) {
        Some(job) => Some(job.clone()),
        None => None,
    }
}

/// Stores `job` under its id, which must have been issued.
pub fn set_job(env: &mut Context, job: &Job)
    requires
        old(env).storage.wf(),
        job.id < old(env).storage@.next_job_id,
    ensures
        final(env).storage.wf(),
        final(env).same_host(old(env)),
        final(env).storage@ == (StorageView {
            jobs: old(env).storage@.jobs.insert(job.id, *job),
            ..old(env).storage@
        }),
{
    env.storage.jobs.insert(job.id, job.clone());
}

/// Deletes the job stored under `id`, if any.
pub fn remove_job(env: &mut Context, id: u64)
    requires
        old(env).storage.wf(),
    ensures
        final(env).storage.wf(),
        final(env).same_host(old(env)),
        final(env).storage@ == (StorageView {
            jobs: old(env).storage@.jobs.remove(id),
            ..old(env).storage@
        }),
{
    env.storage.jobs.remove(&id);
}

/// The record of `keeper`.
pub fn get_keeper(env: &Context, keeper: &Address) -> (r: Option<Keeper>)
    requires
        env.storage.wf(),
    ensures
        match r {
            Some(info) => env.storage@.keepers.contains_key(*keeper) && env.storage@.keepers[*keeper]
                == info,
            None => !env.storage@.keepers.contains_key(*keeper),
        },
{
    match env.storage.keepers.get(keeper) {
        Some(info) => Some(*info),
        None => None,
    }
}

/// Stores the record of `keeper`.
pub fn set_keeper(env: &mut Context, keeper: &Address, info: &Keeper)
    requires
        old(env).storage.wf(),
    ensures
        final(env).storage.wf(),
        final(env).same_host(old(env)),
        final(env).storage@ == (StorageView {
            keepers: old(env).storage@.keepers.insert(*keeper, *info),
            ..old(env).storage@
        }),
{
    env.storage.keepers.insert(*keeper, *info);
}

/// Deletes the record of `keeper`.
pub fn remove_keeper(env: &mut Context, keeper: &Address)
    requires
        old(env).storage.wf(),
    ensures
        final(env).storage.wf(),
        final(env).same_host(old(env)),
        final(env).storage@ == (StorageView {
            keepers: old(env).storage@.keepers.remove(*keeper),
            ..old(env).storage@
        }),
{
    env.storage.keepers.remove(keeper);
}

/// The proposed admin that has not accepted yet.
pub fn get_pending_admin(env: &Context) -> (r: Option<Address>)
    ensures
        r == env.storage@.pending_admin,
{
    env.storage.pending_admin
}

/// Records `admin` as the proposed admin.
pub fn set_pending_admin(env: &mut Context, admin: &Address)
    requires
        old(env).storage.wf(),
    ensures
        final(env).storage.wf(),
        final(env).same_host(old(env)),
        final(env).storage@ == (StorageView { pending_admin: Some(*admin), ..old(env).storage@ }),
{
    env.storage.pending_admin = Some(*admin);
}

/// Forgets the proposed admin.
pub fn remove_pending_admin(env: &mut Context)
    requires
        old(env).storage.wf(),
    ensures
        final(env).storage.wf(),
        final(env).same_host(old(env)),
        final(env).storage@ == (StorageView { pending_admin: None, ..old(env).storage@ }),
{
    env.storage.pending_admin = None;
}

/// The ids listed for `owner`; none if nothing is stored for it.
pub open spec fn owner_ids(s: StorageView, owner: Address) -> Seq<u64> {
    if s.owner_jobs.contains_key(owner) {
        s.owner_jobs[owner]
    } else {
        Seq::empty()
    }
}

/// `s` without the first occurrence of `x`.
pub open spec fn remove_first(s: Seq<u64>, x: u64) -> Seq<u64>
    decreases s.len(),
{
    if s.len() == 0 {
        s
    } else if s[0] == x {
        s.drop_first()
    } else {
        seq![s[0]] + remove_first(s.drop_first(), x)
    }
}

/// Removing the first occurrence of `x`, found at `i`, removes index `i`.
pub proof fn lemma_remove_first_at(s: Seq<u64>, x: u64, i: int)
    requires
        0 <= i < s.len(),
        s[i] == x,
        forall|j: int| 0 <= j < i ==> s[j] != x,
    ensures
        remove_first(s, x) == s.remove(i),
    decreases i,
{
    if i == 0 {
        assert(s.drop_first() =~= s.remove(0));
    } else {
        lemma_remove_first_at(s.drop_first(), x, i - 1);
        assert(seq![s[0]] + s.drop_first().remove(i - 1) =~= s.remove(i));
    }
}

/// The job ids listed for `owner`.
pub fn owner_jobs(env: &Context, owner: &Address) -> (ids: Vec<u64>)
    requires
        env.storage.wf(),
    ensures
        ids@ == owner_ids(env.storage@, *owner),
{
    match env.storage.owner_jobs.get(owner) {
        Some(ids) => {
            let r = ids.clone();
            assert(r@ =~= ids@);
            r
        },
        None => Vec::new(),
    }
}

/// Appends `job_id` to the ids listed for `owner`.
pub fn add_owner_job(env: &mut Context, owner: &Address, job_id: u64)
    requires
        old(env).storage.wf(),
    ensures
        final(env).storage.wf(),
        final(env).same_host(old(env)),
        final(env).storage@ == (StorageView {
            owner_jobs: old(env).storage@.owner_jobs.insert(
                *owner,
                owner_ids(old(env).storage@, *owner).push(job_id),
            ),
            ..old(env).storage@
        }),
{
    let mut ids = owner_jobs(env, owner);
    ids.push(job_id);
    let ghost pushed = ids@;
    env.storage.owner_jobs.insert(*owner, ids);
    assert(env.storage@.owner_jobs =~= old(env).storage@.owner_jobs.insert(*owner, pushed));
}

/// Removes the first occurrence of `job_id` from the ids listed for `owner`;
/// nothing is written when it is not listed.
pub fn remove_owner_job(env: &mut Context, owner: &Address, job_id: u64)
    requires
        old(env).storage.wf(),
    ensures
        final(env).storage.wf(),
        final(env).same_host(old(env)),
        owner_ids(old(env).storage@, *owner).contains(job_id) ==> final(env).storage@ == (
        StorageView {
            owner_jobs: old(env).storage@.owner_jobs.insert(
                *owner,
                remove_first(owner_ids(old(env).storage@, *owner), job_id),
            ),
            ..old(env).storage@
        }),
        !owner_ids(old(env).storage@, *owner).contains(job_id) ==> final(env).storage@ == old(
            env,
        ).storage@,
{
    let mut ids = owner_jobs(env, owner);
    let ghost s = ids@;
    let mut i: usize = 0;
    while i < ids.len()
        invariant
            env.storage.wf(),
            env.storage@ == old(env).storage@,
            env.same_host(old(env)),
            s == owner_ids(old(env).storage@, *owner),
            ids@ == s,
            i <= s.len(),
            forall|j: int| 0 <= j < i ==> s[j] != job_id,
        decreases s.len() - i,
    {
        if ids[i] == job_id {
            proof {
                lemma_remove_first_at(s, job_id, i as int);
            }
            ids.remove(i);
            let ghost removed = ids@;
            env.storage.owner_jobs.insert(*owner, ids);
            assert(env.storage@.owner_jobs =~= old(env).storage@.owner_jobs.insert(*owner, removed));
            return;
        }
        i = i + 1;
    }
    assert(!s.contains(job_id));
}

} // verus!
