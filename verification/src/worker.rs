//! What a worker does with the scripts that it owns.

use vstd::prelude::*;
use std::collections::HashMap;
use std::path::PathBuf;

use crate::entity::entity_label;
use crate::pool::WorkerRequest;
use crate::text::concat2;
use crate::vm::{error_text, find_function, LoadedScript};

verus! {

broadcast use vstd::std_specs::hash::group_hash_axioms;

/// The longest time that can be measured, in nanoseconds.
pub const MAX_NANOS: u128 = 18_446_744_073_709_551_615_999_999_999;

/// What a worker tells.
pub enum WorkerEvent {
    /// A script was loaded.
    Loaded { entity: u64 },
    /// A script was loaded again.
    Reloaded { entity: u64 },
    /// A script was not loaded.
    LoadFailed { entity: u64, error: String },
    /// A script's `update` failed.
    RuntimeError { entity: u64, error: String },
    /// A script's `update` returned, after a load or an `update` that had
    /// failed.
    Recovered { entity: u64 },
}

/// A script in a worker's care. One whose first load failed has nothing that
/// runs; it stays, to be tried again.
pub struct WorkerScript {
    /// Where the script is.
    pub path: PathBuf,
    /// What runs.
    pub loaded: Option<LoadedScript>,
    /// When the file had changed last by the time it was loaded, in
    /// nanoseconds from a fixed day, where that is known.
    pub last_modified: Option<i128>,
    /// The last load or `update` of the script failed.
    pub failing: bool,
}

/// A script that has just been loaded.
pub open spec fn fresh(path: PathBuf, loaded: LoadedScript, modified: Option<i128>) -> WorkerScript {
    WorkerScript { path, loaded: Some(loaded), last_modified: modified, failing: false }
}

/// A script that failed to load, has nothing that runs, and waits to be tried
/// again.
pub open spec fn waiting(path: PathBuf) -> WorkerScript {
    WorkerScript { path, loaded: None, last_modified: None, failing: true }
}

/// The scripts with a note on an entity's script: whether its last load or
/// `update` failed.
pub open spec fn noted(scripts: Map<u64, WorkerScript>, entity: u64, failing: bool) -> Map<
    u64,
    WorkerScript,
> {
    if scripts.dom().contains(entity) {
        scripts.insert(entity, WorkerScript { failing, ..scripts[entity] })
    } else {
        scripts
    }
}

/// The script has an `update` to run.
pub open spec fn updates(script: WorkerScript) -> bool {
    script.loaded matches Some(l) && l.has_update
}

/// The file is there, and is not the one that was loaded.
pub open spec fn due(script: WorkerScript, observed: Option<i128>) -> bool {
    observed is Some && script.last_modified != observed
}

/// Something runs for the entity.
pub open spec fn runs(scripts: Map<u64, WorkerScript>, entity: u64) -> bool {
    scripts.dom().contains(entity) && scripts[entity].loaded is Some
}

/// The scripts after a first load. A success takes the entity's place; a
/// failure leaves what runs but for the note on it, and where nothing runs, the
/// script waits at the path that failed.
pub open spec fn after_load(
    scripts: Map<u64, WorkerScript>,
    entity: u64,
    path: PathBuf,
    outcome: Result<LoadedScript, String>,
    modified: Option<i128>,
) -> Map<u64, WorkerScript> {
    match outcome {
        Ok(loaded) => scripts.insert(entity, fresh(path, loaded, modified)),
        Err(_) => if runs(scripts, entity) {
            noted(scripts, entity, true)
        } else {
            scripts.insert(entity, waiting(path))
        },
    }
}

/// The scripts after loading one again. A success replaces what ran, under the
/// same path; a failure changes nothing but the note on it.
pub open spec fn after_reload(
    scripts: Map<u64, WorkerScript>,
    entity: u64,
    outcome: Result<LoadedScript, String>,
    modified: Option<i128>,
) -> Map<u64, WorkerScript> {
    match outcome {
        Ok(loaded) => if scripts.dom().contains(entity) {
            scripts.insert(entity, fresh(scripts[entity].path, loaded, modified))
        } else {
            scripts
        },
        Err(_) => noted(scripts, entity, true),
    }
}

/// What is told of a first load.
pub open spec fn load_event(entity: u64, outcome: Result<LoadedScript, String>) -> WorkerEvent {
    match outcome {
        Ok(_) => WorkerEvent::Loaded { entity },
        Err(error) => WorkerEvent::LoadFailed { entity, error },
    }
}

/// What is told of loading a script again. Nothing is told of an entity without
/// a script.
pub open spec fn reload_event(
    scripts: Map<u64, WorkerScript>,
    entity: u64,
    outcome: Result<LoadedScript, String>,
) -> Option<WorkerEvent> {
    if !scripts.dom().contains(entity) {
        None
    } else {
        match outcome {
            Ok(_) => Some(WorkerEvent::Reloaded { entity }),
            Err(error) => Some(WorkerEvent::LoadFailed { entity, error }),
        }
    }
}

/// The scripts after an entity's `update`: it is noted whether that failed.
/// Where there was none to call, nothing changes.
pub open spec fn after_update(
    scripts: Map<u64, WorkerScript>,
    entity: u64,
    outcome: UpdateOutcome,
) -> Map<u64, WorkerScript> {
    if outcome is Missing {
        scripts
    } else {
        noted(scripts, entity, !(outcome is Finished))
    }
}

/// What is told of an entity's `update`: a failure each time, and the first
/// `update` that returns after a failure of a load or an `update`. Nothing is
/// told of an entity without a script, or where there was none to call.
pub open spec fn tells_of_update(
    scripts: Map<u64, WorkerScript>,
    entity: u64,
    outcome: UpdateOutcome,
    told: Option<WorkerEvent>,
) -> bool {
    if !scripts.dom().contains(entity) {
        told is None
    } else {
        match update_error(entity, outcome) {
            Some(text) => {
                &&& told matches Some(WorkerEvent::RuntimeError { entity: about, error })
                &&& about == entity
                &&& error@ == text
            },
            None => told == (if outcome is Finished && scripts[entity].failing {
                Some(WorkerEvent::Recovered { entity })
            } else {
                None
            }),
        }
    }
}

/// The time since the last look at the disk after one more frame, and whether
/// it is time to look.
pub open spec fn clock(interval: Option<u128>, since: nat, elapsed: nat) -> (nat, bool) {
    match interval {
        None => (since, false),
        Some(i) => if since + elapsed >= i {
            (0, true)
        } else {
            (since + elapsed, false)
        },
    }
}

/// What a worker has to do next.
pub enum WorkerAction {
    /// Read the file and load it for the entity.
    Load { entity: u64, path: PathBuf },
    /// Nothing.
    Idle,
    /// Look at the disk where `reload` says so, then run the updates.
    Frame { reload: bool },
    /// End.
    Stop,
}

/// A worker: its scripts, and when it last looked at the disk.
pub struct Worker {
    /// The scripts, by entity.
    pub scripts: HashMap<u64, WorkerScript>,
    /// Nanoseconds since the last look.
    pub since_last_check: u128,
    /// Nanoseconds between two looks; `None` for no looks at all.
    pub interval: Option<u128>,
}

impl Worker {
    /// A worker without scripts.
    pub fn new(interval: Option<u128>) -> (r: Self)
        ensures
            r.scripts@ == Map::<u64, WorkerScript>::empty(),
            r.since_last_check == 0,
            r.interval == interval,
    {
        Worker { scripts: HashMap::new(), since_last_check: 0, interval }
    }

    /// Takes a request and says what is to be done about it. An unloaded
    /// script is gone at once; a frame moves the clock on.
    pub fn handle_request(&mut self, request: WorkerRequest) -> (r: WorkerAction)
        requires
            request matches WorkerRequest::Tick { elapsed } ==> old(self).interval is Some ==> old(
                self,
            ).since_last_check + elapsed <= MAX_NANOS,
        ensures
            final(self).interval == old(self).interval,
            match request {
                WorkerRequest::LoadScript { entity, path } => {
                    &&& r == (WorkerAction::Load { entity, path })
                    &&& final(self).scripts@ == old(self).scripts@
                    &&& final(self).since_last_check == old(self).since_last_check
                },
                WorkerRequest::Unload { entity } => {
                    &&& r == WorkerAction::Idle
                    &&& final(self).scripts@ == old(self).scripts@.remove(entity)
                    &&& final(self).since_last_check == old(self).since_last_check
                },
                WorkerRequest::Tick { elapsed } => {
                    &&& r is Frame
                    &&& (final(self).since_last_check as nat, r->reload) == clock(
                        old(self).interval,
                        old(self).since_last_check as nat,
                        elapsed as nat,
                    )
                    &&& final(self).scripts@ == old(self).scripts@
                },
                WorkerRequest::Shutdown => {
                    &&& r == WorkerAction::Stop
                    &&& final(self).scripts@ == old(self).scripts@
                    &&& final(self).since_last_check == old(self).since_last_check
                },
            },
    {
        match request {
            WorkerRequest::LoadScript { entity, path } => WorkerAction::Load { entity, path },
            WorkerRequest::Unload { entity } => {
                self.scripts.remove(&entity);
                WorkerAction::Idle
            },
            WorkerRequest::Tick { elapsed } => {
                let mut reload = false;
                if let Some(interval) = self.interval {
                    let since: u128 = self.since_last_check + elapsed;
                    if since >= interval {
                        self.since_last_check = 0;
                        reload = true;
                    } else {
                        self.since_last_check = since;
                    }
                }
                WorkerAction::Frame { reload }
            },
            WorkerRequest::Shutdown => WorkerAction::Stop,
        }
    }

    /// Takes in the outcome of a first load, and says what to tell. `modified`
    /// is when the file had changed last by then. After a failure the script
    /// stays with nothing that runs, so that the next look at the disk tries
    /// it again; what runs already goes on.
    pub fn finish_load(
        &mut self,
        entity: u64,
        path: PathBuf,
        outcome: Result<LoadedScript, String>,
        modified: Option<i128>,
    ) -> (r: WorkerEvent)
        ensures
            final(self).interval == old(self).interval,
            final(self).since_last_check == old(self).since_last_check,
            final(self).scripts@ == after_load(old(self).scripts@, entity, path, outcome, modified),
            r == load_event(entity, outcome),
    {
        match outcome {
            Ok(loaded) => {
                self.scripts.insert(
                    entity,
                    WorkerScript {
                        path,
                        loaded: Some(loaded),
                        last_modified: modified,
                        failing: false,
                    },
                );
                WorkerEvent::Loaded { entity }
            },
            Err(error) => {
                let running = match self.scripts.get(&entity) {
                    Some(script) => script.loaded.is_some(),
                    None => false,
                };
                if running {
                    self.note(entity, true);
                } else {
                    self.scripts.insert(
                        entity,
                        WorkerScript { path, loaded: None, last_modified: None, failing: true },
                    );
                }
                WorkerEvent::LoadFailed { entity, error }
            },
        }
    }

    /// Tells whether an entity's script is to be loaded again. `observed` is
    /// when its file changed last, where the file is there to be asked.
    pub fn needs_reload(&self, entity: u64, observed: Option<i128>) -> (r: bool)
        ensures
            r == (self.scripts@.dom().contains(entity) && due(self.scripts@[entity], observed)),
    {
        match self.scripts.get(&entity) {
            Some(script) => match (observed, script.last_modified) {
                (Some(now), Some(then)) => now != then,
                (Some(_), None) => true,
                (None, _) => false,
            },
            None => false,
        }
    }

    /// Takes in the outcome of loading an entity's script again, and says what
    /// to tell. After a failure what ran goes on. An entity without a script
    /// gives nothing.
    pub fn finish_reload(
        &mut self,
        entity: u64,
        outcome: Result<LoadedScript, String>,
        modified: Option<i128>,
    ) -> (r: Option<WorkerEvent>)
        ensures
            final(self).interval == old(self).interval,
            final(self).since_last_check == old(self).since_last_check,
            final(self).scripts@ == after_reload(old(self).scripts@, entity, outcome, modified),
            r == reload_event(old(self).scripts@, entity, outcome),
    {
        if !self.scripts.contains_key(&entity) {
            return None;
        }
        match outcome {
            Ok(loaded) => {
                let removed = self.scripts.remove(&entity);
                if let Some(script) = removed {
                    self.scripts.insert(
                        entity,
                        WorkerScript {
                            path: script.path,
                            loaded: Some(loaded),
                            last_modified: modified,
                            failing: false,
                        },
                    );
                    assert(self.scripts@ == old(self).scripts@.insert(
                        entity,
                        self.scripts@[entity],
                    ));
                }
                Some(WorkerEvent::Reloaded { entity })
            },
            Err(error) => {
                self.note(entity, true);
                Some(WorkerEvent::LoadFailed { entity, error })
            },
        }
    }

    /// Notes whether the last load or `update` of an entity's script failed,
    /// and gives back what was noted before.
    fn note(&mut self, entity: u64, failing: bool) -> (r: Option<bool>)
        ensures
            final(self).interval == old(self).interval,
            final(self).since_last_check == old(self).since_last_check,
            final(self).scripts@ == noted(old(self).scripts@, entity, failing),
            r == (if old(self).scripts@.dom().contains(entity) {
                Some(old(self).scripts@[entity].failing)
            } else {
                None
            }),
    {
        match self.scripts.remove(&entity) {
            Some(script) => {
                self.scripts.insert(
                    entity,
                    WorkerScript {
                        path: script.path,
                        loaded: script.loaded,
                        last_modified: script.last_modified,
                        failing,
                    },
                );
                assert(self.scripts@ == noted(old(self).scripts@, entity, failing));
                Some(script.failing)
            },
            None => {
                assert(self.scripts@ == old(self).scripts@);
                None
            },
        }
    }

    /// Takes in how an entity's `update` went, and says what to tell. A failure
    /// is told of every time; an `update` that returns is told of where the
    /// load or `update` before it failed. An entity without a script, and one
    /// without an `update` to call, give nothing.
    pub fn finish_update(&mut self, entity: u64, outcome: UpdateOutcome) -> (r: Option<WorkerEvent>)
        requires
            crate::entity::is_entity(entity),
        ensures
            final(self).interval == old(self).interval,
            final(self).since_last_check == old(self).since_last_check,
            final(self).scripts@ == after_update(old(self).scripts@, entity, outcome),
            tells_of_update(old(self).scripts@, entity, outcome, r),
    {
        if let UpdateOutcome::Missing = outcome {
            return None;
        }
        let failure = update_failure(entity, outcome);
        match (self.note(entity, failure.is_some()), failure) {
            (Some(_), Some(error)) => Some(WorkerEvent::RuntimeError { entity, error }),
            (Some(true), None) => Some(WorkerEvent::Recovered { entity }),
            _ => None,
        }
    }

    /// The entities whose scripts the worker has, in no particular order.
    pub fn entities(&self) -> (r: Vec<u64>)
        ensures
            r@.no_duplicates(),
            forall|e: u64| r@.contains(e) <==> self.scripts@.dom().contains(e),
    {
        let mut r: Vec<u64> = Vec::new();
        let keys = self.scripts.keys();
        let ghost all = vstd::std_specs::hash::into_iter_keys(keys);
        proof {
            let refs = vstd::std_specs::iter::IteratorSpec::remaining(&keys);
            assert(all == refs.unref());
            assert(all.to_set() == self.scripts@.dom());
            assert(refs.no_duplicates());
            assert forall|i: int, j: int|
                0 <= i < all.len() && 0 <= j < all.len() && i != j implies all[i] != all[j] by {
                assert(refs[i] != refs[j]);
            }
            assert forall|e: u64| all.contains(e) <==> self.scripts@.dom().contains(e) by {
                assert(all.to_set().contains(e) <==> all.contains(e));
            }
        }
        for key in it: keys
            invariant
                it.seq().unref() == all,
                r@ == all.take(it.index()),
        {
            r.push(*key);
            assert(r@ == all.take(it.index() + 1));
        }
        assert(r@ == all);
        r
    }

    /// The entities whose scripts have an `update` to run, in no particular
    /// order.
    pub fn update_targets(&self) -> (r: Vec<u64>)
        ensures
            r@.no_duplicates(),
            forall|e: u64|
                r@.contains(e) <==> self.scripts@.dom().contains(e) && updates(self.scripts@[e]),
    {
        let all = self.entities();
        let mut r: Vec<u64> = Vec::new();
        let mut i: usize = 0;
        while i < all.len()
            invariant
                i <= all.len(),
                all@.no_duplicates(),
                forall|e: u64| all@.contains(e) <==> self.scripts@.dom().contains(e),
                r@.no_duplicates(),
                forall|e: u64|
                    r@.contains(e) <==> all@.take(i as int).contains(e) && updates(self.scripts@[e]),
            decreases all.len() - i,
        {
            let entity = all[i];
            let ghost before = r@;
            assert(all@.contains(entity));
            let updating = match self.scripts.get(&entity) {
                Some(script) => match &script.loaded {
                    Some(loaded) => loaded.has_update,
                    None => false,
                },
                None => false,
            };
            proof {
                if all@.take(i as int).contains(entity) {
                    let k = choose|k: int| 0 <= k < i && all@[k] == entity;
                    assert(all@[k] == all@[i as int]);
                }
                assert(!before.contains(entity));
                assert forall|a: int, b: int|
                    0 <= a < b < before.push(entity).len() implies before.push(entity)[a]
                    != before.push(entity)[b] by {
                    assert(before.contains(before[a]));
                }
                assert(all@.take(i + 1) == all@.take(i as int).push(entity));
                lemma_push_contains(all@.take(i as int), entity);
                lemma_push_contains(before, entity);
            }
            if updating {
                r.push(entity);
            }
            i = i + 1;
        }
        assert(all@.take(all.len() as int) == all@);
        r
    }
}

/// A push adds one entry to what a sequence holds.
proof fn lemma_push_contains(s: Seq<u64>, x: u64)
    ensures
        forall|e: u64| #[trigger] s.push(x).contains(e) <==> s.contains(e) || e == x,
{
    assert forall|e: u64| s.contains(e) || e == x implies #[trigger] s.push(x).contains(e) by {
        if s.contains(e) {
            let k = choose|k: int| 0 <= k < s.len() && s[k] == e;
            assert(s.push(x)[k] == e);
        } else {
            assert(s.push(x)[s.len() as int] == e);
        }
    }
    assert forall|e: u64| #[trigger] s.push(x).contains(e) implies s.contains(e) || e == x by {
        let k = choose|k: int| 0 <= k < s.push(x).len() && s.push(x)[k] == e;
        if k < s.len() {
            assert(s[k] == e);
        }
    }
}

// ---------------------------------------------------------------------------
// Updates
// ---------------------------------------------------------------------------

/// How a script's `update` went.
pub enum UpdateOutcome {
    /// It returned.
    Finished,
    /// There was no such function after all, and so nothing to call.
    Missing,
    /// It failed.
    Failed(mlua::Error),
    /// The call panicked.
    Panicked,
}

/// What is told of an `update` that panicked.
pub open spec fn panic_text(entity: u64) -> Seq<char> {
    "script for "@ + crate::entity::entity_text(entity) + " panicked in update()"@
}

/// Looks up the `update` of a script that has one. What is found lives in the
/// script's own machine.
pub fn find_update(script: &mut LoadedScript) -> (r: Option<mlua::Function>)
    ensures
        final(script).has_update == old(script).has_update,
        exists|reply: crate::vm::VmReply| #[trigger]
            crate::vm::asked(
                crate::vm::vm_of(old(script).lua),
                crate::vm::VmRequest::FindFunction { name: "update"@ },
                reply,
                crate::vm::vm_of(final(script).lua),
            ) && match r {
                Some(f) => reply == crate::vm::VmReply::Function(crate::vm::function_of(f)),
                None => reply is Failed,
            },
        r matches Some(f) ==> crate::vm::function_of(f).machine == crate::vm::vm_of(
            final(script).lua,
        ).machine,
{
    let found = find_function(&mut script.lua, "update");
    assert(crate::vm::asked(
        crate::vm::vm_of(old(script).lua),
        crate::vm::VmRequest::FindFunction { name: "update"@ },
        crate::vm::function_reply(found),
        crate::vm::vm_of(script.lua),
    ));
    match found {
        Ok(f) => Some(f),
        Err(_) => None,
    }
}

/// What an `update` failed with, where it did.
pub open spec fn update_error(entity: u64, outcome: UpdateOutcome) -> Option<Seq<char>> {
    match outcome {
        UpdateOutcome::Finished | UpdateOutcome::Missing => None,
        UpdateOutcome::Failed(e) => Some(crate::vm::error_display(e)),
        UpdateOutcome::Panicked => Some(panic_text(entity)),
    }
}

/// Says what an `update` failed with, where it did.
fn update_failure(entity: u64, outcome: UpdateOutcome) -> (r: Option<String>)
    requires
        crate::entity::is_entity(entity),
    ensures
        match r {
            Some(error) => update_error(entity, outcome) == Some(error@),
            None => update_error(entity, outcome) is None,
        },
{
    match outcome {
        UpdateOutcome::Finished | UpdateOutcome::Missing => None,
        UpdateOutcome::Failed(e) => Some(error_text(&e)),
        UpdateOutcome::Panicked => {
            let mut error = concat2("script for ", entity_label(entity).as_str());
            error.append(" panicked in update()");
            Some(error)
        },
    }
}

// ---------------------------------------------------------------------------
// Laws
// ---------------------------------------------------------------------------

/// A failed load does not stop later attempts: where nothing ran for the
/// entity, the script whose load failed is in the worker's care, has no
/// `update` to run, and is due whenever its file is there.
pub proof fn law_failed_load_is_tried_again(
    scripts: Map<u64, WorkerScript>,
    entity: u64,
    path: PathBuf,
    error: String,
    modified: Option<i128>,
    observed: i128,
)
    requires
        !runs(scripts, entity),
    ensures
        ({
            let after = after_load(scripts, entity, path, Err(error), modified);
            &&& after.dom().contains(entity)
            &&& after[entity].path == path
            &&& !updates(after[entity])
            &&& due(after[entity], Some(observed))
        }),
{
}

/// Nor does a failed reload: the script goes on as before, and as long as the
/// file stays what it is, the script stays due.
pub proof fn law_failed_reload_is_tried_again(
    scripts: Map<u64, WorkerScript>,
    entity: u64,
    error: String,
    modified: Option<i128>,
    observed: Option<i128>,
)
    requires
        scripts.dom().contains(entity),
        due(scripts[entity], observed),
    ensures
        ({
            let after = after_reload(scripts, entity, Err(error), modified);
            &&& after.dom() == scripts.dom()
            &&& after[entity].path == scripts[entity].path
            &&& after[entity].loaded == scripts[entity].loaded
            &&& after[entity].last_modified == scripts[entity].last_modified
            &&& due(after[entity], observed)
        }),
{
    assert(after_reload(scripts, entity, Err(error), modified).dom() == scripts.dom());
}

/// A script that was loaded is not due again until its file changes, and is
/// due as soon as it has.
pub proof fn law_loaded_script_is_settled(
    scripts: Map<u64, WorkerScript>,
    entity: u64,
    path: PathBuf,
    loaded: LoadedScript,
    modified: i128,
    observed: i128,
)
    ensures
        due(
            after_load(scripts, entity, path, Ok(loaded), Some(modified))[entity],
            Some(observed),
        ) <==> observed != modified,
        scripts.dom().contains(entity) ==> (due(
            after_reload(scripts, entity, Ok(loaded), Some(modified))[entity],
            Some(observed),
        ) <==> observed != modified),
{
}

/// What happens to one script leaves the others alone.
pub proof fn law_scripts_are_apart(
    scripts: Map<u64, WorkerScript>,
    entity: u64,
    path: PathBuf,
    outcome: Result<LoadedScript, String>,
    modified: Option<i128>,
    update: UpdateOutcome,
)
    ensures
        after_load(scripts, entity, path, outcome, modified).remove(entity) == scripts.remove(
            entity,
        ),
        after_reload(scripts, entity, outcome, modified).remove(entity) == scripts.remove(entity),
        after_update(scripts, entity, update).remove(entity) == scripts.remove(entity),
{
    assert(after_update(scripts, entity, update).remove(entity) == scripts.remove(entity));
    assert(after_load(scripts, entity, path, outcome, modified).remove(entity) == scripts.remove(
        entity,
    ));
    assert(after_reload(scripts, entity, outcome, modified).remove(entity) == scripts.remove(
        entity,
    ));
}

/// The order in which two scripts are loaded again makes no difference.
pub proof fn law_reloads_commute(
    scripts: Map<u64, WorkerScript>,
    a: u64,
    outcome_a: Result<LoadedScript, String>,
    modified_a: Option<i128>,
    b: u64,
    outcome_b: Result<LoadedScript, String>,
    modified_b: Option<i128>,
)
    requires
        a != b,
    ensures
        after_reload(after_reload(scripts, a, outcome_a, modified_a), b, outcome_b, modified_b)
            == after_reload(after_reload(scripts, b, outcome_b, modified_b), a, outcome_a, modified_a),
{
    assert(after_reload(after_reload(scripts, a, outcome_a, modified_a), b, outcome_b, modified_b)
        =~= after_reload(
        after_reload(scripts, b, outcome_b, modified_b),
        a,
        outcome_a,
        modified_a,
    ));
}

/// The time on the clock after several frames, and whether the disk was looked
/// at on the way.
pub open spec fn clock_all(interval: Option<u128>, since: nat, frames: Seq<u128>) -> (nat, bool)
    decreases frames.len(),
{
    if frames.len() == 0 {
        (since, false)
    } else {
        let (before, looked) = clock_all(interval, since, frames.drop_last());
        let (after, look) = clock(interval, before, frames.last() as nat);
        (after, looked || look)
    }
}

/// The time that several frames took.
pub open spec fn total(frames: Seq<u128>) -> nat
    decreases frames.len(),
{
    if frames.len() == 0 {
        0
    } else {
        total(frames.drop_last()) + frames.last() as nat
    }
}

/// From one look at the disk to the next, the clock adds up the frames: while
/// they take less than the interval there is no look, and the frame with which
/// they reach it brings one and puts the clock back to zero.
pub proof fn law_looks_keep_the_interval(interval: u128, frames: Seq<u128>, frame: u128)
    requires
        total(frames) < interval,
    ensures
        clock_all(Some(interval), 0, frames) == (total(frames), false),
        total(frames) + frame < interval ==> clock(Some(interval), total(frames), frame as nat) == (
            total(frames) + frame as nat,
            false,
        ),
        total(frames) + frame >= interval ==> clock(Some(interval), total(frames), frame as nat) == (
            0nat,
            true,
        ),
    decreases frames.len(),
{
    if frames.len() > 0 {
        law_looks_keep_the_interval(interval, frames.drop_last(), frames.last());
    }
}

/// Without an interval the disk is never looked at.
pub proof fn law_no_interval_no_looks(since: nat, frames: Seq<u128>)
    ensures
        clock_all(None, since, frames) == (since, false),
    decreases frames.len(),
{
    if frames.len() > 0 {
        law_no_interval_no_looks(since, frames.drop_last());
    }
}

/// After every frame the clock stands below the interval.
pub proof fn law_clock_stays_below_the_interval(interval: u128, since: nat, elapsed: nat)
    requires
        interval > 0,
    ensures
        clock(Some(interval), since, elapsed).0 < interval,
{
}

/// A load that succeeds puts what it brought in the entity's place, whatever
/// was there: that runs now, from that path, and its file counts as the one of
/// that time.
pub proof fn law_a_load_runs_what_it_brought(
    scripts: Map<u64, WorkerScript>,
    entity: u64,
    path: PathBuf,
    loaded: LoadedScript,
    modified: Option<i128>,
)
    ensures
        ({
            let after = after_load(scripts, entity, path, Ok(loaded), modified);
            &&& after.dom() == scripts.dom().insert(entity)
            &&& after[entity].loaded == Some(loaded)
            &&& after[entity].path == path
            &&& after[entity].last_modified == modified
        }),
{
}

/// A reload that succeeds puts what it brought in the place of what ran,
/// whatever that was; only the path stays. It brings no script to an entity
/// without one.
pub proof fn law_a_reload_runs_what_it_brought(
    scripts: Map<u64, WorkerScript>,
    entity: u64,
    loaded: LoadedScript,
    modified: Option<i128>,
)
    ensures
        ({
            let after = after_reload(scripts, entity, Ok(loaded), modified);
            &&& after.dom() == scripts.dom()
            &&& scripts.dom().contains(entity) ==> {
                &&& after[entity].loaded == Some(loaded)
                &&& after[entity].path == scripts[entity].path
                &&& after[entity].last_modified == modified
            }
        }),
{
    assert(after_reload(scripts, entity, Ok(loaded), modified).dom() == scripts.dom());
}

/// Neither a failed load nor a failed reload touches what runs: it goes on, from
/// its path, with the file time it had.
pub proof fn law_failed_loads_leave_what_runs(
    scripts: Map<u64, WorkerScript>,
    entity: u64,
    path: PathBuf,
    error: String,
    modified: Option<i128>,
)
    requires
        scripts.dom().contains(entity),
        scripts[entity].loaded is Some,
    ensures
        ({
            let load = after_load(scripts, entity, path, Err(error), modified);
            let reload = after_reload(scripts, entity, Err(error), modified);
            &&& load.dom() == scripts.dom()
            &&& load[entity].loaded == scripts[entity].loaded
            &&& load[entity].path == scripts[entity].path
            &&& load[entity].last_modified == scripts[entity].last_modified
            &&& reload.dom() == scripts.dom()
            &&& reload[entity].loaded == scripts[entity].loaded
            &&& reload[entity].path == scripts[entity].path
            &&& reload[entity].last_modified == scripts[entity].last_modified
        }),
{
    assert(after_load(scripts, entity, path, Err(error), modified).dom() == scripts.dom());
    assert(after_reload(scripts, entity, Err(error), modified).dom() == scripts.dom());
}

/// How an `update` went never changes what runs: whatever its outcome, the
/// worker has the same entities, each with the same script from the same path
/// and of the same file time, so that the same entities have an `update` to run
/// as before and the same are due.
pub proof fn law_updates_leave_what_runs(
    scripts: Map<u64, WorkerScript>,
    entity: u64,
    outcome: UpdateOutcome,
    other: u64,
    observed: Option<i128>,
)
    requires
        scripts.dom().contains(other),
    ensures
        ({
            let after = after_update(scripts, entity, outcome);
            &&& after.dom() == scripts.dom()
            &&& after[other].path == scripts[other].path
            &&& after[other].loaded == scripts[other].loaded
            &&& after[other].last_modified == scripts[other].last_modified
            &&& updates(after[other]) <==> updates(scripts[other])
            &&& due(after[other], observed) <==> due(scripts[other], observed)
        }),
{
    assert(after_update(scripts, entity, outcome).dom() == scripts.dom());
}

/// A script has an `update` to run where something runs that has one.
pub proof fn law_what_runs_decides_on_updates(script: WorkerScript)
    ensures
        script.loaded is None ==> !updates(script),
        script.loaded is Some ==> (updates(script) <==> script.loaded->0.has_update),
{
}

/// A script is due where its file is there and has another time than the one
/// that was noted, or where none was noted.
pub proof fn law_a_changed_file_is_due(script: WorkerScript, observed: i128)
    ensures
        !due(script, None),
        script.last_modified is None ==> due(script, Some(observed)),
        script.last_modified is Some ==> (due(script, Some(observed)) <==> script.last_modified->0
            != observed),
{
}

/// What is told is told of the entity it is about, and of a failure the whole
/// error is told.
pub proof fn law_loads_are_told_of(
    scripts: Map<u64, WorkerScript>,
    entity: u64,
    outcome: Result<LoadedScript, String>,
)
    ensures
        outcome is Ok ==> load_event(entity, outcome) == (WorkerEvent::Loaded { entity }),
        outcome matches Err(error) ==> load_event(entity, outcome) == (WorkerEvent::LoadFailed {
            entity,
            error,
        }),
        !scripts.dom().contains(entity) ==> reload_event(scripts, entity, outcome) is None,
        scripts.dom().contains(entity) && outcome is Ok ==> reload_event(scripts, entity, outcome)
            == Some(WorkerEvent::Reloaded { entity }),
        outcome matches Err(error) ==> scripts.dom().contains(entity) ==> reload_event(
            scripts,
            entity,
            outcome,
        ) == Some(WorkerEvent::LoadFailed { entity, error }),
{
}

/// Every failed `update` of a script is told of, with the whole error, however
/// many failed before it. One that returns is told of just where the load or
/// `update` before it failed, and one that was not there never is.
pub proof fn law_failed_updates_are_told_of(
    scripts: Map<u64, WorkerScript>,
    entity: u64,
    outcome: UpdateOutcome,
    told: Option<WorkerEvent>,
)
    requires
        scripts.dom().contains(entity),
        tells_of_update(scripts, entity, outcome, told),
    ensures
        outcome matches UpdateOutcome::Failed(e) ==> (told matches Some(
            WorkerEvent::RuntimeError { entity: about, error },
        ) && about == entity && error@ == crate::vm::error_display(e)),
        outcome is Panicked ==> (told matches Some(
            WorkerEvent::RuntimeError { entity: about, error },
        ) && about == entity && error@ == "script for "@ + crate::entity::entity_text(entity)
            + " panicked in update()"@),
        outcome is Finished && scripts[entity].failing ==> told == Some(
            WorkerEvent::Recovered { entity },
        ),
        outcome is Finished && !scripts[entity].failing ==> told is None,
        outcome is Missing ==> told is None,
{
}

/// The disk is looked at in just those frames with which the time since the
/// last look reaches the interval. A look puts the clock back to zero, and any
/// other frame adds its time.
pub proof fn law_a_frame_moves_the_clock(interval: u128, since: nat, elapsed: nat)
    ensures
        clock(Some(interval), since, elapsed).1 <==> since + elapsed >= interval,
        since + elapsed >= interval ==> clock(Some(interval), since, elapsed).0 == 0,
        since + elapsed < interval ==> clock(Some(interval), since, elapsed).0 == since + elapsed,
{
}

/// After a load or a reload that succeeded, what was brought runs: an `update`
/// is run for the entity just where that script has one, and the file is loaded
/// again just where it has another time.
pub proof fn law_what_was_loaded_runs(
    worker: &mut Worker,
    entity: u64,
    path: PathBuf,
    loaded: LoadedScript,
    modified: i128,
    told: WorkerEvent,
    again: &mut Worker,
    newer: LoadedScript,
    later: i128,
    told_again: Option<WorkerEvent>,
    targets: Vec<u64>,
    observed: i128,
    reload: bool,
)
    requires
        call_ensures(
            Worker::finish_load,
            (worker, entity, path, Ok(loaded), Some(modified)),
            told,
        ),
        *old(again) == *final(worker),
        call_ensures(Worker::finish_reload, (again, entity, Ok(newer), Some(later)), told_again),
        call_ensures(Worker::update_targets, (&*final(again),), targets),
        call_ensures(Worker::needs_reload, (&*final(again), entity, Some(observed)), reload),
    ensures
        told == (WorkerEvent::Loaded { entity }),
        final(worker).scripts@[entity].loaded == Some(loaded),
        told_again == Some(WorkerEvent::Reloaded { entity }),
        final(again).scripts@[entity].loaded == Some(newer),
        final(again).scripts@[entity].path == path,
        targets@.contains(entity) <==> newer.has_update,
        reload <==> observed != later,
{
    law_a_load_runs_what_it_brought(old(worker).scripts@, entity, path, loaded, Some(modified));
    law_a_reload_runs_what_it_brought(old(again).scripts@, entity, newer, Some(later));
    law_what_runs_decides_on_updates(final(again).scripts@[entity]);
    law_a_changed_file_is_due(final(again).scripts@[entity], observed);
    law_loads_are_told_of(old(worker).scripts@, entity, Ok(loaded));
    law_loads_are_told_of(old(again).scripts@, entity, Ok(newer));
}

/// An `update` is run in every frame, however many failed: whatever was told,
/// the entities that have one to run are the same after an `update` as before,
/// and every failure is told of.
pub proof fn law_failing_scripts_go_on(
    worker: &mut Worker,
    entity: u64,
    outcome: UpdateOutcome,
    told: Option<WorkerEvent>,
    before: Vec<u64>,
    after: Vec<u64>,
    any: u64,
)
    requires
        call_ensures(Worker::update_targets, (&*old(worker),), before),
        call_ensures(Worker::finish_update, (worker, entity, outcome), told),
        call_ensures(Worker::update_targets, (&*final(worker),), after),
        before@.contains(entity),
    ensures
        after@.contains(any) <==> before@.contains(any),
        final(worker).scripts@.dom() == old(worker).scripts@.dom(),
        final(worker).scripts@[entity].loaded == old(worker).scripts@[entity].loaded,
        outcome is Failed || outcome is Panicked ==> told is Some && told->0 is RuntimeError,
{
    law_updates_leave_what_runs(old(worker).scripts@, entity, outcome, entity, None);
    if old(worker).scripts@.dom().contains(any) {
        law_updates_leave_what_runs(old(worker).scripts@, entity, outcome, any, None);
    }
    law_failed_updates_are_told_of(old(worker).scripts@, entity, outcome, told);
}

/// A failed load tells the whole error. What ran goes on; where nothing did,
/// the script is loaded again as soon as its file is there.
pub proof fn law_failed_loads_are_told_of_and_tried_again(
    worker: &mut Worker,
    entity: u64,
    path: PathBuf,
    error: String,
    modified: Option<i128>,
    told: WorkerEvent,
    observed: i128,
    reload: bool,
)
    requires
        call_ensures(Worker::finish_load, (worker, entity, path, Err(error), modified), told),
        call_ensures(Worker::needs_reload, (&*final(worker), entity, Some(observed)), reload),
    ensures
        told == (WorkerEvent::LoadFailed { entity, error }),
        old(worker).scripts@.dom().contains(entity) && old(worker).scripts@[entity].loaded is Some
            ==> final(worker).scripts@[entity].loaded == old(worker).scripts@[entity].loaded,
        !(old(worker).scripts@.dom().contains(entity) && old(worker).scripts@[entity].loaded is Some)
            ==> reload && final(worker).scripts@[entity].path == path,
{
    let scripts = old(worker).scripts@;
    law_loads_are_told_of(scripts, entity, Err(error));
    if scripts.dom().contains(entity) && scripts[entity].loaded is Some {
        law_failed_loads_leave_what_runs(scripts, entity, path, error, modified);
    } else {
        law_failed_load_is_tried_again(scripts, entity, path, error, modified, observed);
    }
}

/// A request to load is handed on, and one to unload takes the entity's script
/// and no other. A frame leaves the scripts, and looks at the disk just where
/// there is an interval and the time since the last look reaches it. Only a
/// shutdown stops.
pub proof fn law_requests_do_what_they_ask(
    worker: &mut Worker,
    request: WorkerRequest,
    action: WorkerAction,
    other: u64,
)
    requires
        call_ensures(Worker::handle_request, (worker, request), action),
    ensures
        action is Stop <==> request is Shutdown,
        request matches WorkerRequest::LoadScript { entity, path } ==> action == (
        WorkerAction::Load { entity, path }),
        request matches WorkerRequest::Unload { entity } ==> action is Idle
            && !final(worker).scripts@.dom().contains(entity),
        old(worker).scripts@.dom().contains(other) && !(request matches WorkerRequest::Unload {
            entity,
        } && entity == other) ==> final(worker).scripts@.contains_pair(
            other,
            old(worker).scripts@[other],
        ),
        request matches WorkerRequest::Tick { elapsed } ==> {
            &&& action is Frame
            &&& action->reload <==> (old(worker).interval is Some && old(worker).since_last_check
                + elapsed >= old(worker).interval->0)
        },
        final(worker).interval == old(worker).interval,
{
    if let WorkerRequest::Tick { elapsed } = request {
        if let Some(interval) = old(worker).interval {
            law_a_frame_moves_the_clock(
                interval,
                old(worker).since_last_check as nat,
                elapsed as nat,
            );
        } else {
            law_no_interval_no_looks(old(worker).since_last_check as nat, seq![elapsed]);
            assert(seq![elapsed].drop_last() == Seq::<u128>::empty());
            assert(seq![elapsed].last() == elapsed);
        }
    }
}

} // verus!
