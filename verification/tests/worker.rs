use devconsole::logs::LogLevel;
use devconsole::pool::WorkerRequest;
use devconsole::vm::{load_and_init, LoadedScript};
use devconsole::worker::{Worker, WorkerAction, WorkerEvent};
use std::path::PathBuf;

fn path(name: &str) -> PathBuf {
    PathBuf::from(name)
}

fn loaded(source: &str) -> Result<LoadedScript, String> {
    load_and_init(
        &path("a.lua"),
        1,
        Ok(source.to_string()),
        |_: LogLevel, _: String| {},
    )
}

fn ticked(worker: &mut Worker, elapsed: u128) -> bool {
    match worker.handle_request(WorkerRequest::Tick { elapsed }) {
        WorkerAction::Frame { reload } => reload,
        _ => panic!("not a frame"),
    }
}

fn sorted(mut v: Vec<u64>) -> Vec<u64> {
    v.sort();
    v
}

#[test]
fn a_load_is_handed_on() {
    let mut worker = Worker::new(None);
    let request = WorkerRequest::LoadScript {
        entity: 4,
        path: path("x.lua"),
    };
    match worker.handle_request(request) {
        WorkerAction::Load { entity, path: p } => {
            assert_eq!(entity, 4);
            assert_eq!(p, path("x.lua"));
        }
        _ => panic!("not a load"),
    }
    assert!(worker.scripts.is_empty());
}

#[test]
fn shutdown_stops() {
    let mut worker = Worker::new(None);
    assert!(matches!(
        worker.handle_request(WorkerRequest::Shutdown),
        WorkerAction::Stop
    ));
}

#[test]
fn the_disk_is_looked_at_once_per_interval() {
    let mut worker = Worker::new(Some(500));
    assert!(!ticked(&mut worker, 200));
    assert!(!ticked(&mut worker, 200));
    assert!(ticked(&mut worker, 200));
    assert_eq!(worker.since_last_check, 0);
    assert!(!ticked(&mut worker, 499));
    assert!(ticked(&mut worker, 1));
    assert!(ticked(&mut worker, 10_000));
    assert!(!ticked(&mut worker, 0));
}

#[test]
fn without_an_interval_the_disk_is_left_alone() {
    let mut worker = Worker::new(None);
    assert!(!ticked(&mut worker, u128::MAX));
    assert_eq!(worker.since_last_check, 0);
}

#[test]
fn an_interval_of_nothing_looks_every_time() {
    let mut worker = Worker::new(Some(0));
    assert!(ticked(&mut worker, 0));
}

#[test]
fn a_loaded_script_is_told_of_and_settled() {
    let mut worker = Worker::new(Some(1));
    let event = worker.finish_load(4, path("x.lua"), loaded("function update() end"), Some(70));
    assert!(matches!(event, WorkerEvent::Loaded { entity: 4 }));
    assert_eq!(worker.entities(), vec![4]);
    assert_eq!(worker.update_targets(), vec![4]);
    assert!(!worker.needs_reload(4, Some(70)));
    assert!(worker.needs_reload(4, Some(71)));
    assert!(worker.needs_reload(4, Some(-70)));
    assert!(!worker.needs_reload(4, None));
    assert!(!worker.needs_reload(5, Some(71)));
}

#[test]
fn a_script_that_failed_to_load_is_tried_again() {
    let mut worker = Worker::new(Some(1));
    match worker.finish_load(4, path("x.lua"), Err("broken".to_string()), None) {
        WorkerEvent::LoadFailed { entity, error } => {
            assert_eq!(entity, 4);
            assert_eq!(error, "broken");
        }
        _ => panic!("not a failure"),
    }
    assert_eq!(worker.entities(), vec![4]);
    assert!(worker.update_targets().is_empty());
    assert_eq!(worker.scripts[&4].path, path("x.lua"));
    assert!(!worker.needs_reload(4, None));
    assert!(worker.needs_reload(4, Some(1)));
    let again = worker.finish_reload(4, Err("still".to_string()), Some(1));
    assert!(matches!(again, Some(WorkerEvent::LoadFailed { entity: 4, .. })));
    assert!(worker.needs_reload(4, Some(1)));
    let event = worker.finish_reload(4, loaded("function update() end"), Some(2));
    assert!(matches!(event, Some(WorkerEvent::Reloaded { entity: 4 })));
    assert_eq!(worker.update_targets(), vec![4]);
    assert!(!worker.needs_reload(4, Some(2)));
}

#[test]
fn a_failed_load_leaves_a_script_that_runs() {
    let mut worker = Worker::new(None);
    worker.finish_load(4, path("x.lua"), loaded("function update() end"), Some(1));
    worker.finish_load(4, path("y.lua"), Err("no".to_string()), None);
    assert_eq!(worker.update_targets(), vec![4]);
    assert_eq!(worker.scripts[&4].path, path("x.lua"));
}

#[test]
fn the_path_that_failed_last_is_tried_again() {
    let mut worker = Worker::new(Some(1));
    worker.finish_load(4, path("x.lua"), Err("no".to_string()), None);
    worker.finish_load(4, path("y.lua"), Err("no".to_string()), Some(3));
    assert_eq!(worker.scripts[&4].path, path("y.lua"));
    assert!(worker.update_targets().is_empty());
    assert!(worker.needs_reload(4, Some(3)));
}

#[test]
fn a_failed_reload_leaves_the_script_running() {
    let mut worker = Worker::new(Some(1));
    worker.finish_load(4, path("x.lua"), loaded("function update() end"), Some(1));
    let event = worker.finish_reload(4, Err("typo".to_string()), Some(2));
    assert!(matches!(event, Some(WorkerEvent::LoadFailed { entity: 4, .. })));
    assert_eq!(worker.update_targets(), vec![4]);
    assert!(worker.needs_reload(4, Some(2)));
}

#[test]
fn a_reload_replaces_what_runs_and_keeps_the_path() {
    let mut worker = Worker::new(Some(1));
    worker.finish_load(4, path("x.lua"), loaded("function update() end"), Some(1));
    let event = worker.finish_reload(4, loaded("x = 1"), None);
    assert!(matches!(event, Some(WorkerEvent::Reloaded { entity: 4 })));
    assert!(worker.update_targets().is_empty());
    assert_eq!(worker.scripts[&4].path, path("x.lua"));
    assert!(worker.needs_reload(4, Some(1)));
}

#[test]
fn an_unknown_script_is_not_loaded_again() {
    let mut worker = Worker::new(Some(1));
    assert!(worker.finish_reload(4, loaded(""), Some(1)).is_none());
    assert!(worker.entities().is_empty());
}

#[test]
fn unloading_forgets_one_script() {
    let mut worker = Worker::new(None);
    for entity in [3, 4, 5] {
        worker.finish_load(entity, path("x"), loaded("function update() end"), None);
    }
    worker.finish_load(6, path("x"), loaded(""), None);
    assert!(matches!(
        worker.handle_request(WorkerRequest::Unload { entity: 4 }),
        WorkerAction::Idle
    ));
    worker.handle_request(WorkerRequest::Unload { entity: 40 });
    assert_eq!(sorted(worker.entities()), vec![3, 5, 6]);
    assert_eq!(sorted(worker.update_targets()), vec![3, 5]);
}
