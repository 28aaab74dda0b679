use bevy::prelude::Entity;
use devconsole::logs::LogLevel;
use devconsole::status::{status_change, ErrorChange, ReadyChange};
use devconsole::vm::{forward_log, install_api, load_and_init, run_script, LoadedScript};
use devconsole::worker::{find_update, UpdateOutcome, Worker, WorkerEvent};
use std::cell::RefCell;
use std::path::PathBuf;

type Lines = &'static RefCell<Vec<(LogLevel, String)>>;

fn lines() -> Lines {
    Box::leak(Box::new(RefCell::new(Vec::new())))
}

fn load(source: &str, entity: u64, seen: Lines) -> Result<LoadedScript, String> {
    load_and_init(
        &PathBuf::from("dir/a.lua"),
        entity,
        Ok(source.to_string()),
        move |level: LogLevel, line: String| seen.borrow_mut().push((level, line)),
    )
}

fn failure(r: Result<LoadedScript, String>) -> String {
    match r {
        Ok(_) => panic!("loaded"),
        Err(m) => m,
    }
}

fn bits(entity: &Entity) -> u64 {
    entity.to_bits()
}

#[test]
fn a_message_is_marked_as_the_script_s() {
    let seen = lines();
    let sink = move |level: LogLevel, line: String| seen.borrow_mut().push((level, line));
    forward_log(&sink, LogLevel::Warn, "careful".to_string());
    assert_eq!(
        *seen.borrow(),
        vec![(LogLevel::Warn, "[lua] careful".to_string())]
    );
}

#[test]
fn a_script_finds_its_globals() {
    let seen = lines();
    let source = "log_info('i') log_warn('w') log_error('e') log_info(tostring(entity_id))";
    assert!(load(source, 77, seen).is_ok());
    assert_eq!(
        *seen.borrow(),
        vec![
            (LogLevel::Info, "[lua] i".to_string()),
            (LogLevel::Warn, "[lua] w".to_string()),
            (LogLevel::Error, "[lua] e".to_string()),
            (LogLevel::Info, "[lua] 77".to_string()),
        ]
    );
}

#[test]
fn entity_bits_are_a_signed_number() {
    let seen = lines();
    assert!(load("log_info(tostring(entity_id))", u64::MAX, seen).is_ok());
    assert_eq!(seen.borrow()[0].1, "[lua] -1");
}

#[test]
fn init_is_called_once_after_the_source() {
    let seen = lines();
    let source = "function init() log_info('init') end log_info('source')";
    assert!(load(source, 1, seen).is_ok());
    let said: Vec<String> = seen.borrow().iter().map(|l| l.1.clone()).collect();
    assert_eq!(said, vec!["[lua] source", "[lua] init"]);
}

#[test]
fn update_is_optional_and_not_called_by_a_load() {
    let seen = lines();
    let with = load("function update(dt) log_info('update') end", 1, seen);
    assert!(with.is_ok_and(|l| l.has_update));
    assert!(seen.borrow().is_empty());
    assert!(load("update = 5", 1, seen).is_ok_and(|l| !l.has_update));
    assert!(load("", 1, seen).is_ok_and(|l| !l.has_update));
    let late = "function init() function update() end end";
    assert!(load(late, 1, seen).is_ok_and(|l| l.has_update));
}

#[test]
fn an_init_that_is_no_function_is_passed_over() {
    assert!(load("init = 'no'", 1, lines()).is_ok());
}

#[test]
fn an_unreadable_file_fails_the_load() {
    let r = load_and_init(
        &PathBuf::from("dir/\"a\".lua"),
        1,
        Err("No such file".to_string()),
        |_: LogLevel, _: String| {},
    );
    assert_eq!(
        failure(r),
        "runtime error: could not read \"dir/\\\"a\\\".lua\": No such file"
    );
}

#[test]
fn a_failing_source_fails_the_load() {
    let seen = lines();
    let syntax = failure(load("this is not lua", 1, seen));
    assert!(syntax.starts_with("syntax error: "), "{syntax}");
    assert!(syntax.contains("dir/a.lua"), "{syntax}");
    let source = "function init() log_info('never') end error('boom')";
    let runtime = failure(load(source, 1, seen));
    assert!(runtime.starts_with("runtime error: "), "{runtime}");
    assert!(runtime.contains("boom"), "{runtime}");
    assert!(seen.borrow().is_empty());
}

#[test]
fn a_failing_init_fails_the_load() {
    let message = failure(load("function init() error('no start') end", 1, lines()));
    assert!(message.contains("no start"), "{message}");
}

#[test]
fn the_globals_can_be_set_up_in_any_machine() {
    let mut lua = mlua::Lua::new();
    assert!(lua.globals().set("mine", 3).is_ok());
    assert!(install_api(&mut lua, 9, |_: LogLevel, _: String| {}).is_ok());
    assert_eq!(lua.globals().get::<i64>("entity_id").unwrap(), 9);
    assert_eq!(lua.globals().get::<i64>("mine").unwrap(), 3);
    for name in ["log_info", "log_warn", "log_error"] {
        assert!(lua.globals().get::<mlua::Function>(name).is_ok());
    }
    assert!(run_script(&mut lua, "function update() end", "x").is_ok_and(|u| u));
    assert!(run_script(&mut lua, "update = nil", "x").is_ok_and(|u| !u));
    assert!(run_script(&mut lua, "error()", "x").is_err());
}

#[test]
fn a_locked_global_table_fails_the_set_up() {
    let mut lua = mlua::Lua::new();
    let lock = "setmetatable(_G, { __newindex = function() error('locked') end })";
    assert!(lua.load(lock).exec().is_ok());
    let r = install_api(&mut lua, 9, |_: LogLevel, _: String| {});
    assert!(r.unwrap_err().to_string().contains("locked"));
    assert!(lua.globals().raw_get::<mlua::Function>("log_info").is_err());
}

#[test]
fn the_update_is_looked_up_when_it_is_run() {
    let seen = lines();
    let source = "function update(dt) log_info(tostring(dt)) update = nil end";
    let mut script = match load(source, 1, seen) {
        Ok(script) => script,
        Err(m) => panic!("{m}"),
    };
    let update = find_update(&mut script).unwrap();
    assert!(update.call::<()>(0.5f32).is_ok());
    assert_eq!(seen.borrow()[0].1, "[lua] 0.5");
    assert!(find_update(&mut script).is_none());
    assert!(script.has_update);
}

fn updating(entity: u64) -> Worker {
    let mut worker = Worker::new(None);
    let outcome = load("function update() end", entity, lines());
    worker.finish_load(entity, PathBuf::from("dir/a.lua"), outcome, Some(1));
    worker
}

fn bad() -> UpdateOutcome {
    UpdateOutcome::Failed(mlua::Error::RuntimeError("bad".to_string()))
}

#[test]
fn updates_are_told_of_when_they_fail() {
    let entity = Entity::from_raw_u32(12).unwrap();
    let mut worker = updating(bits(&entity));
    assert!(worker.finish_update(bits(&entity), UpdateOutcome::Finished).is_none());
    match worker.finish_update(bits(&entity), bad()) {
        Some(WorkerEvent::RuntimeError { entity: e, error }) => {
            assert_eq!(e, bits(&entity));
            assert_eq!(error, "runtime error: bad");
        }
        _ => panic!("not told"),
    }
    match worker.finish_update(bits(&entity), UpdateOutcome::Panicked) {
        Some(WorkerEvent::RuntimeError { entity: e, error }) => {
            assert_eq!(e, bits(&entity));
            assert_eq!(error, format!("script for {entity:?} panicked in update()"));
            assert_eq!(error, "script for 12v0 panicked in update()");
        }
        _ => panic!("not told"),
    }
}

#[test]
fn the_first_update_that_returns_after_a_failure_is_told_of() {
    let entity = 0xffff_fffe;
    for failure in [bad(), UpdateOutcome::Panicked] {
        let mut worker = updating(entity);
        assert!(worker.finish_update(entity, failure).is_some());
        assert!(worker.scripts[&entity].failing);
        let event = worker.finish_update(entity, UpdateOutcome::Finished);
        assert!(matches!(event, Some(WorkerEvent::Recovered { entity: 0xffff_fffe })));
        assert!(!worker.scripts[&entity].failing);
        assert!(worker.finish_update(entity, UpdateOutcome::Finished).is_none());
        assert_eq!(worker.update_targets(), vec![entity]);
        assert!(!worker.needs_reload(entity, Some(1)));
    }
}

#[test]
fn a_failed_update_is_forgotten_with_the_script() {
    let entity = 0xffff_fffe;
    let mut worker = updating(entity);
    assert!(worker.finish_update(entity, bad()).is_some());
    let outcome = load("function update() end", entity, lines());
    assert!(worker.finish_reload(entity, outcome, Some(2)).is_some());
    assert!(worker.finish_update(entity, UpdateOutcome::Finished).is_none());
}

#[test]
fn an_update_that_returns_after_a_failed_reload_is_told_of() {
    let entity = 0xffff_fffe;
    for fails_before in [false, true] {
        let mut worker = updating(entity);
        if fails_before {
            assert!(worker.finish_update(entity, bad()).is_some());
        }
        let event = worker.finish_reload(entity, Err("typo".to_string()), Some(2));
        assert!(matches!(event, Some(WorkerEvent::LoadFailed { .. })));
        let event = worker.finish_update(entity, UpdateOutcome::Finished);
        assert!(matches!(event, Some(WorkerEvent::Recovered { .. })));
        assert!(worker.finish_update(entity, UpdateOutcome::Finished).is_none());
        assert!(worker.needs_reload(entity, Some(2)));
    }
    let mut worker = updating(entity);
    worker.finish_load(entity, PathBuf::from("b.lua"), Err("gone".to_string()), None);
    let event = worker.finish_update(entity, UpdateOutcome::Finished);
    assert!(matches!(event, Some(WorkerEvent::Recovered { .. })));
}

#[test]
fn a_missing_update_clears_no_failure() {
    let entity = 0xffff_fffe;
    let mut worker = updating(entity);
    assert!(worker.finish_update(entity, UpdateOutcome::Missing).is_none());
    assert!(worker.finish_update(entity, bad()).is_some());
    assert!(worker.finish_update(entity, UpdateOutcome::Missing).is_none());
    assert!(worker.scripts[&entity].failing);
    let event = worker.finish_update(entity, UpdateOutcome::Finished);
    assert!(matches!(event, Some(WorkerEvent::Recovered { .. })));
}

#[test]
fn nothing_is_told_of_an_entity_without_a_script() {
    let mut worker = Worker::new(None);
    assert!(worker.finish_update(0xffff_fffe, bad()).is_none());
    assert!(worker.entities().is_empty());
}

fn panic_label(raw: u64) -> String {
    match updating(raw).finish_update(raw, UpdateOutcome::Panicked) {
        Some(WorkerEvent::RuntimeError { error, .. }) => error,
        _ => panic!("not told"),
    }
}

#[test]
fn entities_are_shown_by_index_and_generation() {
    assert_eq!(bits(&Entity::PLACEHOLDER), 1);
    assert_eq!(panic_label(1), "script for PLACEHOLDER panicked in update()");
    assert_eq!(panic_label(0xffff_ffff), "script for 0v0 panicked in update()");
    assert_eq!(
        panic_label(0x0000_0007_ffff_fffe),
        "script for 1v7 panicked in update()"
    );
    assert_eq!(
        panic_label(0xffff_ffff_0000_0001),
        "script for 4294967294v4294967295 panicked in update()"
    );
    assert!(Entity::try_from_bits(0x0000_0007_0000_0000).is_none());
}

#[test]
fn a_load_marks_a_script_as_ready() {
    for event in [
        WorkerEvent::Loaded { entity: 0xffff_fffe },
        WorkerEvent::Reloaded { entity: 0xffff_fffe },
    ] {
        let change = status_change(event);
        assert_eq!(change.entity, 0xffff_fffe);
        assert!(matches!(change.ready, ReadyChange::Insert(_)));
        assert!(matches!(change.error, ErrorChange::Remove));
        assert!(change.log.is_none());
    }
}

#[test]
fn a_failed_load_takes_the_mark_away() {
    let change = status_change(WorkerEvent::LoadFailed {
        entity: 0xffff_fffe,
        error: "gone".to_string(),
    });
    assert!(matches!(change.ready, ReadyChange::Remove));
    match change.error {
        ErrorChange::Insert(e) => assert_eq!(e.0, "gone"),
        ErrorChange::Remove => panic!("no error"),
    }
    assert_eq!(
        change.log,
        Some("lua script on entity 1v0 failed to load: gone".to_string())
    );
}

#[test]
fn a_failed_update_leaves_the_mark() {
    let change = status_change(WorkerEvent::RuntimeError {
        entity: 0xffff_fffe,
        error: "oops".to_string(),
    });
    assert!(matches!(change.ready, ReadyChange::Keep));
    assert!(matches!(change.error, ErrorChange::Insert(_)));
    assert_eq!(
        change.log,
        Some("lua runtime error on entity 1v0: oops".to_string())
    );
}

#[test]
fn an_update_that_returns_clears_the_failure() {
    let change = status_change(WorkerEvent::Recovered { entity: 0xffff_fffe });
    assert_eq!(change.entity, 0xffff_fffe);
    assert!(matches!(change.ready, ReadyChange::Keep));
    assert!(matches!(change.error, ErrorChange::Remove));
    assert!(change.log.is_none());
}
