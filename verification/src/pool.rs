//! Which worker owns which script.

use vstd::prelude::*;
use std::collections::HashMap;
use std::path::PathBuf;

use crate::text::{concat2, decimal_text};

verus! {

broadcast use vstd::std_specs::hash::group_hash_axioms;

/// Nanoseconds in half a second, the default time between looks at the disk.
pub const DEFAULT_RELOAD_NANOS: u128 = 500_000_000;

/// How many workers there are where the number of cores is not known.
pub const FALLBACK_WORKERS: usize = 4;

/// How scripts are run.
pub struct LuaScriptPlugin {
    /// How often, in nanoseconds, each worker looks on disk for changes of its
    /// own scripts. `None` turns that off.
    pub hot_reload_interval: Option<u128>,
    /// How many workers are started.
    pub worker_count: usize,
}

impl LuaScriptPlugin {
    /// The default settings on a machine with so many cores, where that is
    /// known: one worker for each.
    pub fn for_cores(cores: Option<usize>) -> (r: Self)
        ensures
            r.hot_reload_interval == Some(DEFAULT_RELOAD_NANOS),
            r.worker_count == (match cores {
                Some(n) => n,
                None => FALLBACK_WORKERS,
            }),
    {
        LuaScriptPlugin {
            hot_reload_interval: Some(DEFAULT_RELOAD_NANOS),
            worker_count: match cores {
                Some(n) => n,
                None => FALLBACK_WORKERS,
            },
        }
    }
}

/// Binds an entity to a Lua script on disk.
#[derive(Debug)]
pub struct LuaScript {
    pub path: PathBuf,
}

impl Clone for LuaScript {
    /// The same script.
    fn clone(&self) -> (r: Self)
        ensures
            r == *self,
    {
        LuaScript { path: self.path.clone() }
    }
}

impl LuaScript {
    /// A script at a path.
    pub fn new<P: Into<PathBuf>>(path: P) -> (r: Self)
        ensures
            call_ensures(P::into, (path,), r.path),
    {
        LuaScript { path: path.into() }
    }
}

/// What a worker is asked to do.
pub enum WorkerRequest {
    /// Load a script for an entity.
    LoadScript { entity: u64, path: PathBuf },
    /// Forget an entity's script.
    Unload { entity: u64 },
    /// A frame went by, with so many nanoseconds since the one before.
    Tick { elapsed: u128 },
    /// Stop.
    Shutdown,
}

/// A pool, as contracts see it: how many workers it has, which worker owns
/// each entity, and whose turn comes next.
#[verifier::ext_equal]
pub struct PoolModel {
    pub workers: nat,
    pub owners: Map<u64, nat>,
    pub next: nat,
}

impl PoolModel {
    /// There is a worker, and all that is written down are workers.
    pub open spec fn valid(self) -> bool {
        &&& self.workers > 0
        &&& self.next < self.workers
        &&& forall|e: u64| #[trigger] self.owners.dom().contains(e) ==> self.owners[e] < self.workers
    }

    /// The entity goes to the worker whose turn it is.
    pub open spec fn dispatched(self, entity: u64) -> PoolModel {
        PoolModel {
            workers: self.workers,
            owners: self.owners.insert(entity, self.next),
            next: (self.next + 1) % self.workers,
        }
    }

    /// Nobody owns the entity any more.
    pub open spec fn unloaded(self, entity: u64) -> PoolModel {
        PoolModel { owners: self.owners.remove(entity), ..self }
    }

    /// The entities of a list, one after the other.
    pub open spec fn dispatched_all(self, entities: Seq<u64>) -> PoolModel
        decreases entities.len(),
    {
        if entities.len() == 0 {
            self
        } else {
            self.dispatched_all(entities.drop_last()).dispatched(entities.last())
        }
    }
}

/// The workers, and which of them owns which entity's script.
pub struct LuaWorkerPool {
    workers: usize,
    assignments: HashMap<u64, usize>,
    next_worker: usize,
}

impl LuaWorkerPool {
    /// What the pool stands for.
    pub closed spec fn view(&self) -> PoolModel {
        PoolModel {
            workers: self.workers as nat,
            owners: self.assignments@.map_values(|w: usize| w as nat),
            next: self.next_worker as nat,
        }
    }

    /// A pool of so many workers, and of one where none are asked for.
    pub fn with_workers(worker_count: usize) -> (r: Self)
        ensures
            r@.valid(),
            r@.workers == (if worker_count == 0 {
                1
            } else {
                worker_count as nat
            }),
            r@.owners == Map::<u64, nat>::empty(),
            r@.next == 0,
    {
        let workers = if worker_count == 0 {
            1
        } else {
            worker_count
        };
        let r = LuaWorkerPool { workers, assignments: HashMap::new(), next_worker: 0 };
        assert(r@.owners == Map::<u64, nat>::empty());
        r
    }

    /// How many workers there are.
    pub fn worker_count(&self) -> (r: usize)
        ensures
            r == self@.workers,
    {
        self.workers
    }

    /// Gives an entity's script to the worker whose turn it is: which worker,
    /// and what to send it.
    pub fn dispatch_new_script(&mut self, entity: u64, path: PathBuf) -> (r: (usize, WorkerRequest))
        requires
            old(self)@.valid(),
        ensures
            final(self)@ == old(self)@.dispatched(entity),
            final(self)@.valid(),
            r.0 == old(self)@.next,
            r.1 == (WorkerRequest::LoadScript { entity, path }),
    {
        let worker = self.next_worker;
        self.next_worker = (self.next_worker + 1) % self.workers;
        self.assignments.insert(entity, worker);
        assert(self@.owners == old(self)@.owners.insert(entity, worker as nat));
        (worker, WorkerRequest::LoadScript { entity, path })
    }

    /// Takes an entity's script from the worker that owns it: which worker,
    /// and what to send it. Nothing where nobody owns the entity.
    pub fn unload(&mut self, entity: u64) -> (r: Option<(usize, WorkerRequest)>)
        requires
            old(self)@.valid(),
        ensures
            final(self)@ == old(self)@.unloaded(entity),
            final(self)@.valid(),
            match r {
                Some((worker, request)) => {
                    &&& old(self)@.owners.dom().contains(entity)
                    &&& worker == old(self)@.owners[entity]
                    &&& request == (WorkerRequest::Unload { entity })
                },
                None => !old(self)@.owners.dom().contains(entity),
            },
    {
        let removed = self.assignments.remove(&entity);
        assert(self@.owners == old(self)@.owners.remove(entity));
        match removed {
            Some(worker) => Some((worker, WorkerRequest::Unload { entity })),
            None => None,
        }
    }
}

/// The name of a worker's thread.
pub open spec fn worker_name_text(id: nat) -> Seq<char> {
    "lua-script-worker-"@ + crate::text::decimal(id)
}

/// Names a worker's thread.
pub fn worker_name(id: usize) -> (r: String)
    ensures
        r@ == worker_name_text(id as nat),
{
    concat2("lua-script-worker-", decimal_text(id as u64).as_str())
}

// ---------------------------------------------------------------------------
// Laws
// ---------------------------------------------------------------------------

/// The worker that the `i`th of several scripts goes to.
pub open spec fn turn(pool: PoolModel, i: int) -> nat {
    ((pool.next + i) % pool.workers as int) as nat
}

/// Scripts go to the workers in turn: the `i`th of a list of new entities is
/// owned by the worker `i` turns after the first one. Afterwards the turn has
/// moved on by as many, and the number of workers is what it was.
pub proof fn law_scripts_go_round(pool: PoolModel, entities: Seq<u64>)
    requires
        pool.valid(),
        entities.no_duplicates(),
    ensures
        pool.dispatched_all(entities).valid(),
        pool.dispatched_all(entities).workers == pool.workers,
        pool.dispatched_all(entities).next == turn(pool, entities.len() as int),
        forall|i: int|
            0 <= i < entities.len() ==> pool.dispatched_all(entities).owners.contains_pair(
                #[trigger] entities[i],
                turn(pool, i),
            ),
    decreases entities.len(),
{
    let n = entities.len() as int;
    if n == 0 {
        vstd::arithmetic::div_mod::lemma_small_mod(pool.next, pool.workers);
    } else {
        let rest = entities.drop_last();
        law_scripts_go_round(pool, rest);
        let before = pool.dispatched_all(rest);
        let w = pool.workers as int;
        vstd::arithmetic::div_mod::lemma_add_mod_noop(pool.next + (n - 1), 1, w);
        vstd::arithmetic::div_mod::lemma_add_mod_noop((pool.next + (n - 1)) % w, 1, w);
        vstd::arithmetic::div_mod::lemma_mod_twice(pool.next + (n - 1), w);
        vstd::arithmetic::div_mod::lemma_mod_bound(pool.next + (n - 1), w);
        vstd::arithmetic::div_mod::lemma_mod_bound((before.next + 1) as int, w);
        assert(before.next as int == (pool.next + (n - 1)) % w);
        assert((before.next + 1) as int % w == (pool.next + n) % w);
        assert forall|i: int| 0 <= i < n implies pool.dispatched_all(entities).owners.contains_pair(
            #[trigger] entities[i],
            turn(pool, i),
        ) by {
            if i < n - 1 {
                assert(rest[i] == entities[i]);
                assert(entities[i] != entities[n - 1]);
            }
        }
    }
}

/// No worker gets two of as many scripts in a row as there are workers.
pub proof fn law_turns_differ(pool: PoolModel, i: int, j: int)
    requires
        pool.valid(),
        0 <= i < j < i + pool.workers,
    ensures
        turn(pool, i) != turn(pool, j),
{
    let w = pool.workers as int;
    let a = pool.next + i;
    let b = pool.next + j;
    if a % w == b % w {
        vstd::arithmetic::div_mod::lemma_mod_equivalence(b, a, w);
        vstd::arithmetic::div_mod::lemma_small_mod((b - a) as nat, pool.workers);
    }
    vstd::arithmetic::div_mod::lemma_mod_bound(a, w);
    vstd::arithmetic::div_mod::lemma_mod_bound(b, w);
}

/// Every worker gets one of as many scripts in a row as there are workers.
pub proof fn law_every_worker_has_its_turn(pool: PoolModel, worker: nat)
    requires
        pool.valid(),
        worker < pool.workers,
    ensures
        exists|i: int| 0 <= i < pool.workers && #[trigger] turn(pool, i) == worker,
{
    let w = pool.workers as int;
    let i = if worker >= pool.next {
        worker - pool.next
    } else {
        worker + w - pool.next
    };
    if worker >= pool.next {
        vstd::arithmetic::div_mod::lemma_small_mod(worker, pool.workers);
    } else {
        vstd::arithmetic::div_mod::lemma_mod_add_multiples_vanish(worker as int, w);
        vstd::arithmetic::div_mod::lemma_small_mod(worker, pool.workers);
    }
    assert(turn(pool, i) == worker);
}

/// An entity keeps its worker until it is unloaded: what happens to other
/// entities does not touch it.
pub proof fn law_owner_stays(pool: PoolModel, entity: u64, other: u64)
    requires
        pool.owners.dom().contains(entity),
        entity != other,
    ensures
        pool.dispatched(other).owners.contains_pair(entity, pool.owners[entity]),
        pool.unloaded(other).owners.contains_pair(entity, pool.owners[entity]),
{
}

/// Unloading a new entity undoes its dispatch, but for the turn, which has
/// passed; and unloading it again changes nothing.
pub proof fn law_unload_undoes_dispatch(pool: PoolModel, entity: u64)
    requires
        !pool.owners.dom().contains(entity),
    ensures
        pool.dispatched(entity).owners.contains_pair(entity, pool.next),
        pool.dispatched(entity).unloaded(entity).owners == pool.owners,
        pool.dispatched(entity).unloaded(entity).unloaded(entity) == pool.dispatched(
            entity,
        ).unloaded(entity),
{
    assert(pool.dispatched(entity).unloaded(entity).owners == pool.owners);
    assert(pool.owners.remove(entity) == pool.owners);
}

/// Two workers' threads have two names.
pub proof fn law_worker_names_differ(a: nat, b: nat)
    requires
        a != b,
    ensures
        worker_name_text(a) != worker_name_text(b),
{
    let head = "lua-script-worker-"@;
    if worker_name_text(a) == worker_name_text(b) {
        assert(worker_name_text(a).skip(head.len() as int) == crate::text::decimal(a));
        assert(worker_name_text(b).skip(head.len() as int) == crate::text::decimal(b));
        crate::text::law_decimal_is_injective(a, b);
    }
}

/// A dispatch gives the entity to the worker whose turn it is, also where
/// another one had it, and the turn goes to the next worker, and from the last
/// one to the first.
pub proof fn law_a_dispatch_takes_one_turn(pool: PoolModel, entity: u64)
    requires
        pool.valid(),
    ensures
        pool.dispatched(entity).workers == pool.workers,
        pool.dispatched(entity).owners == pool.owners.insert(entity, pool.next),
        pool.next + 1 < pool.workers ==> pool.dispatched(entity).next == pool.next + 1,
        pool.next + 1 == pool.workers ==> pool.dispatched(entity).next == 0,
{
    if pool.next + 1 < pool.workers {
        vstd::arithmetic::div_mod::lemma_small_mod(pool.next + 1, pool.workers);
    } else {
        vstd::arithmetic::div_mod::lemma_mod_self_0(pool.workers as int);
    }
}

/// After an unload nobody owns the entity, and nothing else has changed.
pub proof fn law_an_unload_takes_only_the_entity(pool: PoolModel, entity: u64, other: u64)
    ensures
        !pool.unloaded(entity).owners.dom().contains(entity),
        other != entity ==> (pool.unloaded(entity).owners.dom().contains(other)
            <==> pool.owners.dom().contains(other)),
        other != entity && pool.owners.dom().contains(other) ==> pool.unloaded(
            entity,
        ).owners[other] == pool.owners[other],
        pool.unloaded(entity).workers == pool.workers,
        pool.unloaded(entity).next == pool.next,
{
}

/// A worker's name ends with its number in decimal digits, behind words that
/// are the same for all.
pub proof fn law_workers_are_named_by_number(id: nat)
    ensures
        ({
            let head = "lua-script-worker-"@;
            &&& worker_name_text(id).take(head.len() as int) == head
            &&& crate::text::decimal_value(worker_name_text(id).skip(head.len() as int)) == id
        }),
{
    let head = "lua-script-worker-"@;
    crate::text::law_decimal_reads_back(id);
    assert(worker_name_text(id).take(head.len() as int) == head);
    assert(worker_name_text(id).skip(head.len() as int) == crate::text::decimal(id));
}

/// A new pool has the workers that were asked for, and one where none were; no
/// one owns anything, and the first worker's turn comes first.
pub proof fn law_a_pool_has_its_workers(worker_count: usize, pool: LuaWorkerPool)
    requires
        call_ensures(LuaWorkerPool::with_workers, (worker_count,), pool),
    ensures
        pool@.workers == (if worker_count > 0 {
            worker_count as int
        } else {
            1
        }),
        forall|e: u64| !(#[trigger] pool@.owners.dom().contains(e)),
        pool@.next == 0,
{
}

/// What is dispatched is sent to the worker that owns it from then on, and its
/// unload goes to that worker, whatever was dispatched in between for others.
pub proof fn law_an_unload_reaches_the_owner(
    first: &mut LuaWorkerPool,
    entity: u64,
    path: PathBuf,
    sent: (usize, WorkerRequest),
    second: &mut LuaWorkerPool,
    other: u64,
    other_path: PathBuf,
    other_sent: (usize, WorkerRequest),
    third: &mut LuaWorkerPool,
    taken: Option<(usize, WorkerRequest)>,
)
    requires
        old(first)@.valid(),
        entity != other,
        call_ensures(LuaWorkerPool::dispatch_new_script, (first, entity, path), sent),
        *old(second) == *final(first),
        call_ensures(LuaWorkerPool::dispatch_new_script, (second, other, other_path), other_sent),
        *old(third) == *final(second),
        call_ensures(LuaWorkerPool::unload, (third, entity), taken),
    ensures
        sent.0 == old(first)@.next,
        sent.1 == (WorkerRequest::LoadScript { entity, path }),
        other_sent.0 == (if old(first)@.next + 1 == old(first)@.workers {
            0
        } else {
            old(first)@.next + 1
        }),
        taken == Some((sent.0, WorkerRequest::Unload { entity })),
        !final(third)@.owners.dom().contains(entity),
        final(third)@.owners.dom().contains(other),
{
    law_a_dispatch_takes_one_turn(old(first)@, entity);
    law_a_dispatch_takes_one_turn(old(second)@, other);
    law_an_unload_takes_only_the_entity(old(third)@, entity, other);
}

/// A worker's thread is named by its number.
pub proof fn law_threads_are_named_by_number(id: usize, r: String)
    requires
        call_ensures(worker_name, (id,), r),
    ensures
        ({
            let head = "lua-script-worker-"@;
            &&& r@.take(head.len() as int) == head
            &&& crate::text::decimal_value(r@.skip(head.len() as int)) == id
        }),
{
    law_workers_are_named_by_number(id as nat);
}

} // verus!
