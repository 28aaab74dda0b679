use devconsole::pool::{worker_name, LuaScript, LuaScriptPlugin, LuaWorkerPool, WorkerRequest};
use std::path::PathBuf;

fn path(name: &str) -> PathBuf {
    PathBuf::from(name)
}

#[test]
fn defaults_follow_the_cores() {
    let plugin = LuaScriptPlugin::for_cores(Some(6));
    assert_eq!(plugin.worker_count, 6);
    assert_eq!(plugin.hot_reload_interval, Some(500_000_000));
    assert_eq!(LuaScriptPlugin::for_cores(None).worker_count, 4);
}

#[test]
fn a_script_has_its_path() {
    assert_eq!(LuaScript::new("scripts/a.lua").path, path("scripts/a.lua"));
    assert_eq!(LuaScript::new(path("b.lua")).path, path("b.lua"));
    assert_eq!(LuaScript::new("c.lua").clone().path, path("c.lua"));
}

#[test]
fn a_pool_has_at_least_one_worker() {
    assert_eq!(LuaWorkerPool::with_workers(0).worker_count(), 1);
    assert_eq!(LuaWorkerPool::with_workers(3).worker_count(), 3);
}

#[test]
fn scripts_go_round() {
    let mut pool = LuaWorkerPool::with_workers(3);
    let mut workers: Vec<usize> = Vec::new();
    for entity in 10..17u64 {
        let (worker, request) = pool.dispatch_new_script(entity, path("a.lua"));
        workers.push(worker);
        match request {
            WorkerRequest::LoadScript { entity: e, path: p } => {
                assert_eq!(e, entity);
                assert_eq!(p, path("a.lua"));
            }
            _ => panic!("not a load"),
        }
    }
    assert_eq!(workers, vec![0, 1, 2, 0, 1, 2, 0]);
}

#[test]
fn one_worker_takes_all() {
    let mut pool = LuaWorkerPool::with_workers(0);
    for entity in 1..5u64 {
        assert_eq!(pool.dispatch_new_script(entity, path("a")).0, 0);
    }
}

#[test]
fn unload_goes_to_the_owner_once() {
    let mut pool = LuaWorkerPool::with_workers(2);
    pool.dispatch_new_script(5, path("a"));
    pool.dispatch_new_script(6, path("b"));
    pool.dispatch_new_script(7, path("c"));
    match pool.unload(6) {
        Some((worker, WorkerRequest::Unload { entity })) => {
            assert_eq!(worker, 1);
            assert_eq!(entity, 6);
        }
        _ => panic!("not an unload"),
    }
    assert!(pool.unload(6).is_none());
    assert!(pool.unload(99).is_none());
    assert_eq!(pool.unload(7).map(|u| u.0), Some(0));
    assert_eq!(pool.unload(5).map(|u| u.0), Some(0));
    assert_eq!(pool.dispatch_new_script(8, path("d")).0, 1);
}

#[test]
fn workers_are_named_by_number() {
    assert_eq!(worker_name(0), "lua-script-worker-0");
    assert_eq!(worker_name(12), "lua-script-worker-12");
}
