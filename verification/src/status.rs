//! How a script fares, as seen from outside its worker.

use vstd::prelude::*;

use crate::entity::entity_label;
use crate::text::concat2;
use crate::worker::WorkerEvent;

verus! {

/// Present once a script was loaded, or loaded again, and runs.
#[derive(Clone, Copy, Debug, PartialEq, Eq, Structural)]
pub struct LuaScriptReady;

/// Present when the last load or `update` of a script failed: what it failed
/// with. It does not stop later attempts at loading the script again.
pub struct LuaScriptError(pub String);

/// What becomes of the mark of a running script.
pub enum ReadyChange {
    Insert(LuaScriptReady),
    Remove,
    Keep,
}

/// What becomes of the mark of a failed script.
pub enum ErrorChange {
    Insert(LuaScriptError),
    Remove,
}

/// What an event changes about an entity, and what is logged about it.
pub struct StatusChange {
    pub entity: u64,
    pub ready: ReadyChange,
    pub error: ErrorChange,
    pub log: Option<String>,
}

/// The marks of a script: whether it runs, and what it failed with.
pub struct StatusModel {
    pub ready: bool,
    pub error: Option<Seq<char>>,
}

impl StatusChange {
    /// The marks after the change.
    pub open spec fn applied(self, before: StatusModel) -> StatusModel {
        StatusModel {
            ready: match self.ready {
                ReadyChange::Insert(_) => true,
                ReadyChange::Remove => false,
                ReadyChange::Keep => before.ready,
            },
            error: match self.error {
                ErrorChange::Insert(e) => Some(e.0@),
                ErrorChange::Remove => None,
            },
        }
    }
}

/// The entity that an event is about.
pub open spec fn event_entity(event: WorkerEvent) -> u64 {
    match event {
        WorkerEvent::Loaded { entity } => entity,
        WorkerEvent::Reloaded { entity } => entity,
        WorkerEvent::LoadFailed { entity, .. } => entity,
        WorkerEvent::RuntimeError { entity, .. } => entity,
        WorkerEvent::Recovered { entity } => entity,
    }
}

/// The marks after an event: a load that went well clears the failure, one
/// that did not takes away the mark of a running script. An `update` leaves
/// that mark alone, and one that returns after a failure clears that failure.
pub open spec fn after_event(event: WorkerEvent, before: StatusModel) -> StatusModel {
    match event {
        WorkerEvent::Loaded { .. } => StatusModel { ready: true, error: None },
        WorkerEvent::Reloaded { .. } => StatusModel { ready: true, error: None },
        WorkerEvent::LoadFailed { error, .. } => StatusModel { ready: false, error: Some(error@) },
        WorkerEvent::RuntimeError { error, .. } => StatusModel {
            ready: before.ready,
            error: Some(error@),
        },
        WorkerEvent::Recovered { .. } => StatusModel { ready: before.ready, error: None },
    }
}

/// What is logged of an event.
pub open spec fn event_log(event: WorkerEvent) -> Option<Seq<char>> {
    match event {
        WorkerEvent::LoadFailed { entity, error } => Some(
            "lua script on entity "@ + crate::entity::entity_text(entity) + " failed to load: "@
                + error@,
        ),
        WorkerEvent::RuntimeError { entity, error } => Some(
            "lua runtime error on entity "@ + crate::entity::entity_text(entity) + ": "@ + error@,
        ),
        _ => None,
    }
}

/// Says what an event changes.
pub fn status_change(event: WorkerEvent) -> (r: StatusChange)
    requires
        crate::entity::is_entity(event_entity(event)),
    ensures
        r.entity == event_entity(event),
        forall|before: StatusModel| #[trigger] r.applied(before) == after_event(event, before),
        match r.log {
            Some(line) => event_log(event) == Some(line@),
            None => event_log(event) is None,
        },
{
    match event {
        WorkerEvent::Loaded { entity } => StatusChange {
            entity,
            ready: ReadyChange::Insert(LuaScriptReady),
            error: ErrorChange::Remove,
            log: None,
        },
        WorkerEvent::Reloaded { entity } => StatusChange {
            entity,
            ready: ReadyChange::Insert(LuaScriptReady),
            error: ErrorChange::Remove,
            log: None,
        },
        WorkerEvent::LoadFailed { entity, error } => {
            let mut line = concat2("lua script on entity ", entity_label(entity).as_str());
            line.append(" failed to load: ");
            line.append(error.as_str());
            StatusChange {
                entity,
                ready: ReadyChange::Remove,
                error: ErrorChange::Insert(LuaScriptError(error)),
                log: Some(line),
            }
        },
        WorkerEvent::RuntimeError { entity, error } => {
            let mut line = concat2("lua runtime error on entity ", entity_label(entity).as_str());
            line.append(": ");
            line.append(error.as_str());
            StatusChange {
                entity,
                ready: ReadyChange::Keep,
                error: ErrorChange::Insert(LuaScriptError(error)),
                log: Some(line),
            }
        },
        WorkerEvent::Recovered { entity } => StatusChange {
            entity,
            ready: ReadyChange::Keep,
            error: ErrorChange::Remove,
            log: None,
        },
    }
}

/// The marks after several events about one entity.
pub open spec fn after_events(events: Seq<WorkerEvent>, before: StatusModel) -> StatusModel
    decreases events.len(),
{
    if events.len() == 0 {
        before
    } else {
        after_event(events.last(), after_events(events.drop_last(), before))
    }
}

/// After any events, the failure shown is that of the last one: its error
/// where it tells of a failure, and none where it tells of a load that went
/// well or of an `update` that returned.
pub proof fn law_error_is_that_of_the_last_event(events: Seq<WorkerEvent>, before: StatusModel)
    requires
        events.len() > 0,
    ensures
        after_events(events, before).error == (match events.last() {
            WorkerEvent::Loaded { .. } => None,
            WorkerEvent::Reloaded { .. } => None,
            WorkerEvent::LoadFailed { error, .. } => Some(error@),
            WorkerEvent::RuntimeError { error, .. } => Some(error@),
            WorkerEvent::Recovered { .. } => None,
        }),
{
}

/// Updates never change whether a script is marked as running: that is up to
/// the last event that is about a load.
pub proof fn law_ready_follows_the_last_load(
    events: Seq<WorkerEvent>,
    updates: Seq<WorkerEvent>,
    before: StatusModel,
)
    requires
        events.len() > 0,
        !(events.last() is RuntimeError),
        !(events.last() is Recovered),
        forall|i: int|
            0 <= i < updates.len() ==> (#[trigger] updates[i]) is RuntimeError
                || updates[i] is Recovered,
    ensures
        after_events(events + updates, before).ready <==> !(events.last() is LoadFailed),
    decreases updates.len(),
{
    if updates.len() == 0 {
        assert(events + updates == events);
    } else {
        law_ready_follows_the_last_load(events, updates.drop_last(), before);
        assert((events + updates).drop_last() == events + updates.drop_last());
        assert((events + updates).last() == updates.last());
    }
}

/// The marks after what was told of one call, if anything was.
pub open spec fn after_told(told: Option<WorkerEvent>, before: StatusModel) -> StatusModel {
    match told {
        Some(event) => after_event(event, before),
        None => before,
    }
}

/// The mark of a failure follows the updates: as long as it stands just where
/// the worker has noted a failure, it stands after the next `update` that is
/// called just where that one failed, and so does the worker's note.
pub proof fn law_mark_follows_the_updates(
    scripts: Map<u64, crate::worker::WorkerScript>,
    entity: u64,
    outcome: crate::worker::UpdateOutcome,
    told: Option<WorkerEvent>,
    before: StatusModel,
)
    requires
        scripts.dom().contains(entity),
        before.error is Some <==> scripts[entity].failing,
        !(outcome is Missing),
        crate::worker::tells_of_update(scripts, entity, outcome, told),
    ensures
        after_told(told, before).error is Some <==> !(outcome is Finished),
        crate::worker::after_update(scripts, entity, outcome)[entity].failing <==> !(
        outcome is Finished),
        after_told(told, before).ready == before.ready,
{
}

/// The mark and the worker's note follow the loads: whatever they were, after a
/// load, and after a script is loaded again, both stand just where that failed.
pub proof fn law_mark_follows_the_loads(
    scripts: Map<u64, crate::worker::WorkerScript>,
    entity: u64,
    path: std::path::PathBuf,
    outcome: Result<crate::vm::LoadedScript, String>,
    modified: Option<i128>,
    before: StatusModel,
)
    ensures
        after_event(crate::worker::load_event(entity, outcome), before).error is Some
            <==> outcome is Err,
        crate::worker::after_load(scripts, entity, path, outcome, modified)[entity].failing
            <==> outcome is Err,
        scripts.dom().contains(entity) ==> {
            &&& after_told(
                crate::worker::reload_event(scripts, entity, outcome),
                before,
            ).error is Some <==> outcome is Err
            &&& crate::worker::after_reload(scripts, entity, outcome, modified)[entity].failing
                <==> outcome is Err
        },
{
}

/// One thing done with an entity's script, and how it went.
pub enum ScriptCall {
    Load {
        path: std::path::PathBuf,
        outcome: Result<crate::vm::LoadedScript, String>,
        modified: Option<i128>,
    },
    Reload { outcome: Result<crate::vm::LoadedScript, String>, modified: Option<i128> },
    Update { went: crate::worker::UpdateOutcome },
}

/// The worker's scripts after a call.
pub open spec fn after_call(
    scripts: Map<u64, crate::worker::WorkerScript>,
    entity: u64,
    call: ScriptCall,
) -> Map<u64, crate::worker::WorkerScript> {
    match call {
        ScriptCall::Load { path, outcome, modified } => crate::worker::after_load(
            scripts,
            entity,
            path,
            outcome,
            modified,
        ),
        ScriptCall::Reload { outcome, modified } => crate::worker::after_reload(
            scripts,
            entity,
            outcome,
            modified,
        ),
        ScriptCall::Update { went } => crate::worker::after_update(scripts, entity, went),
    }
}

/// What the worker tells of a call.
pub open spec fn tells_of_call(
    scripts: Map<u64, crate::worker::WorkerScript>,
    entity: u64,
    call: ScriptCall,
    told: Option<WorkerEvent>,
) -> bool {
    match call {
        ScriptCall::Load { outcome, .. } => told == Some(
            crate::worker::load_event(entity, outcome),
        ),
        ScriptCall::Reload { outcome, .. } => told == crate::worker::reload_event(
            scripts,
            entity,
            outcome,
        ),
        ScriptCall::Update { went } => crate::worker::tells_of_update(
            scripts,
            entity,
            went,
            told,
        ),
    }
}

/// The worker's scripts after several calls.
pub open spec fn after_calls(
    scripts: Map<u64, crate::worker::WorkerScript>,
    entity: u64,
    calls: Seq<ScriptCall>,
) -> Map<u64, crate::worker::WorkerScript>
    decreases calls.len(),
{
    if calls.len() == 0 {
        scripts
    } else {
        after_call(after_calls(scripts, entity, calls.drop_last()), entity, calls.last())
    }
}

/// What the worker tells of several calls.
pub open spec fn tells_of_calls(
    scripts: Map<u64, crate::worker::WorkerScript>,
    entity: u64,
    calls: Seq<ScriptCall>,
    told: Seq<Option<WorkerEvent>>,
) -> bool
    decreases calls.len(),
{
    &&& told.len() == calls.len()
    &&& calls.len() > 0 ==> {
        &&& tells_of_calls(scripts, entity, calls.drop_last(), told.drop_last())
        &&& tells_of_call(
            after_calls(scripts, entity, calls.drop_last()),
            entity,
            calls.last(),
            told.last(),
        )
    }
}

/// The marks after what was told of several calls.
pub open spec fn after_all_told(told: Seq<Option<WorkerEvent>>, before: StatusModel) -> StatusModel
    decreases told.len(),
{
    if told.len() == 0 {
        before
    } else {
        after_told(told.last(), after_all_told(told.drop_last(), before))
    }
}

/// The last load, reload or `update` failed. Where there was no `update` to
/// call, none was called.
pub open spec fn last_call_failed(calls: Seq<ScriptCall>) -> bool
    decreases calls.len(),
{
    if calls.len() == 0 {
        false
    } else {
        match calls.last() {
            ScriptCall::Load { outcome, .. } => outcome is Err,
            ScriptCall::Reload { outcome, .. } => outcome is Err,
            ScriptCall::Update { went } => if went is Missing {
                last_call_failed(calls.drop_last())
            } else {
                !(went is Finished)
            },
        }
    }
}

/// The mark of a failure is there when the last load, reload or `update` of a
/// script failed, and only then. A script's first call is a load.
pub proof fn law_mark_tells_of_the_last_call(
    scripts: Map<u64, crate::worker::WorkerScript>,
    entity: u64,
    calls: Seq<ScriptCall>,
    told: Seq<Option<WorkerEvent>>,
    before: StatusModel,
)
    requires
        calls.len() > 0,
        calls[0] is Load,
        tells_of_calls(scripts, entity, calls, told),
    ensures
        after_all_told(told, before).error is Some <==> last_call_failed(calls),
        after_calls(scripts, entity, calls).dom().contains(entity),
        after_calls(scripts, entity, calls)[entity].failing <==> last_call_failed(calls),
    decreases calls.len(),
{
    if calls.len() > 1 {
        law_mark_tells_of_the_last_call(
            scripts,
            entity,
            calls.drop_last(),
            told.drop_last(),
            before,
        );
    }
}

/// After a failed `update` and then one that returns, no failure is shown,
/// whatever was shown before.
pub proof fn law_returning_update_clears_the_failure(
    scripts: Map<u64, crate::worker::WorkerScript>,
    entity: u64,
    failing: crate::worker::UpdateOutcome,
    first: Option<WorkerEvent>,
    second: Option<WorkerEvent>,
    before: StatusModel,
)
    requires
        scripts.dom().contains(entity),
        failing is Failed || failing is Panicked,
        crate::worker::tells_of_update(scripts, entity, failing, first),
        crate::worker::tells_of_update(
            crate::worker::after_update(scripts, entity, failing),
            entity,
            crate::worker::UpdateOutcome::Finished,
            second,
        ),
    ensures
        after_told(first, before).error is Some,
        after_told(second, after_told(first, before)).error is None,
        after_told(second, after_told(first, before)).ready == before.ready,
{
}

/// A change does to the marks what it says: it puts the mark it holds, takes
/// the mark away, or leaves it.
pub proof fn law_changes_are_applied(change: StatusChange, before: StatusModel)
    ensures
        change.ready is Insert ==> change.applied(before).ready,
        change.ready is Remove ==> !change.applied(before).ready,
        change.ready is Keep ==> change.applied(before).ready == before.ready,
        change.error matches ErrorChange::Insert(e) ==> change.applied(before).error == Some(e.0@),
        change.error is Remove ==> change.applied(before).error is None,
{
}

/// Whatever a worker tells of a call is about the entity of that call.
pub proof fn law_events_are_about_their_entity(
    scripts: Map<u64, crate::worker::WorkerScript>,
    entity: u64,
    call: ScriptCall,
    told: Option<WorkerEvent>,
)
    requires
        tells_of_call(scripts, entity, call, told),
    ensures
        told matches Some(event) ==> event_entity(event) == entity,
{
}

/// The log tells of every failure and of nothing else: the line names the
/// entity and ends with the whole error.
pub proof fn law_failures_are_logged(event: WorkerEvent)
    ensures
        event_log(event) is Some <==> event is LoadFailed || event is RuntimeError,
        event matches WorkerEvent::LoadFailed { entity, error } ==> event_log(event)->0
            == "lua script on entity "@ + crate::entity::entity_text(entity)
            + " failed to load: "@ + error@,
        event matches WorkerEvent::RuntimeError { entity, error } ==> event_log(event)->0
            == "lua runtime error on entity "@ + crate::entity::entity_text(entity) + ": "@
            + error@,
{
}

/// A load that goes well marks the script as running and shows no failure; one
/// that fails marks it as not running and shows the whole error; a failed
/// `update` shows the whole error, and one that returns shows none, and neither
/// changes whether the script counts as running. What was shown before makes no
/// difference.
pub proof fn law_events_set_the_marks(event: WorkerEvent, before: StatusModel)
    ensures
        event is Loaded || event is Reloaded ==> after_event(event, before).ready && after_event(
            event,
            before,
        ).error is None,
        event matches WorkerEvent::LoadFailed { error, .. } ==> !after_event(event, before).ready
            && after_event(event, before).error == Some(error@),
        event matches WorkerEvent::RuntimeError { error, .. } ==> after_event(event, before).ready
            == before.ready && after_event(event, before).error == Some(error@),
        event is Recovered ==> after_event(event, before).ready == before.ready && after_event(
            event,
            before,
        ).error is None,
{
}

/// What `status_change` gives does to the marks what its event asks for: a load
/// that went well marks the script as running and shows no failure; one that
/// failed takes that mark and shows the whole error; a failed `update` shows
/// the whole error, and one that returned shows none. Every failure is logged,
/// with the whole error at the end of the line, and nothing else is.
pub proof fn law_status_changes_do_what_events_ask(
    event: WorkerEvent,
    change: StatusChange,
    before: StatusModel,
)
    requires
        call_ensures(status_change, (event,), change),
    ensures
        event is Loaded || event is Reloaded ==> change.applied(before).ready && change.applied(
            before,
        ).error is None && change.log is None,
        event matches WorkerEvent::LoadFailed { entity, error } ==> change.entity == entity
            && !change.applied(before).ready && change.applied(before).error == Some(error@)
            && change.log is Some,
        event matches WorkerEvent::RuntimeError { entity, error } ==> change.entity == entity
            && change.applied(before).ready == before.ready && change.applied(before).error
            == Some(error@) && change.log is Some,
        event matches WorkerEvent::Recovered { entity } ==> change.entity == entity
            && change.applied(before).ready == before.ready && change.applied(before).error is None
            && change.log is None,
{
    law_events_set_the_marks(event, before);
    law_failures_are_logged(event);
}

} // verus!
