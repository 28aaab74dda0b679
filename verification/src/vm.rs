//! The Lua virtual machine of a script, and what it is put through when the
//! script is loaded.

use vstd::prelude::*;
use std::path::PathBuf;
use std::rc::Rc;

use crate::logs::LogLevel;
use crate::paths::{path_debug, path_lossy};
use crate::text::concat2;

verus! {

// ---------------------------------------------------------------------------
// The machine, as contracts see it
// ---------------------------------------------------------------------------

/// A Lua state.
#[verifier::external_type_specification]
#[verifier::external_body]
pub struct ExLua(mlua::Lua);

/// A handle to a function inside a Lua state.
#[verifier::external_type_specification]
#[verifier::external_body]
pub struct ExFunction(mlua::Function);

/// What a Lua operation fails with.
#[verifier::external_type_specification]
#[verifier::external_body]
pub struct ExError(mlua::Error);

/// A function inside a machine: the machine it lives in, which of that
/// machine's functions it is, and, where it forwards log messages, their level
/// and what holds of a level and a message once it has forwarded that message
/// at that level.
pub struct FunctionModel {
    pub machine: int,
    pub object: int,
    pub level: Option<LogLevel>,
    pub logs: spec_fn(LogLevel, Seq<char>) -> bool,
}

/// A value under a global name.
pub enum GlobalValue {
    Integer(int),
    Function(FunctionModel),
    Other,
}

/// One thing that a machine is asked to do.
pub enum VmRequest {
    SetInteger { name: Seq<char>, value: int },
    CreateLogFunction { level: LogLevel },
    SetFunction { name: Seq<char>, function: FunctionModel },
    RunChunk { source: Seq<char>, name: Seq<char> },
    FindFunction { name: Seq<char> },
    Call { function: FunctionModel },
}

/// What came back.
pub enum VmReply {
    Done,
    Function(FunctionModel),
    Failed(mlua::Error),
}

/// A request together with its reply.
pub struct VmStep {
    pub request: VmRequest,
    pub reply: VmReply,
}

/// A machine: which one it is, the values under the names of its global table,
/// whether anything has got at it but calls below that set, create or look up,
/// and all that the calls below asked of it since it was created. Lua code that
/// ran in it has got at it, and so has a holder of its handle who made calls of
/// their own. Either may have left a metatable or finalizers behind, so that
/// anything done to the machine afterwards may run code.
pub struct VmModel {
    pub machine: int,
    pub globals: Map<Seq<char>, GlobalValue>,
    pub touched: bool,
    pub steps: Seq<VmStep>,
}

/// The machine behind a Lua state.
pub uninterp spec fn vm_of(lua: mlua::Lua) -> VmModel;

/// The function behind a handle.
pub uninterp spec fn function_of(f: mlua::Function) -> FunctionModel;

/// The text that describes an error.
pub uninterp spec fn error_display(err: mlua::Error) -> Seq<char>;

// ---------------------------------------------------------------------------
// Calls into Lua
// ---------------------------------------------------------------------------

/// Keeps count of the machines that are created. Nothing but its count is ever
/// looked at, and only in contracts.
pub struct Machines {
    made: Ghost<Seq<int>>,
}

impl Machines {
    /// The machines that were created, in order.
    pub closed spec fn view(&self) -> Seq<int> {
        self.made@
    }

    /// A count without machines.
    pub fn none() -> (r: Self)
        ensures
            r@ == Seq::<int>::empty(),
    {
        Machines { made: Ghost(Seq::empty()) }
    }
}

/// Creates a Lua state with the safe part of the standard library.
///
/// `mlua::Lua::new`: nothing was asked of the new machine yet, and nothing has
/// got at it. The machine is added to the count.
#[verifier::external_body]
fn new_machine(machines: &mut Machines) -> (lua: mlua::Lua)
    ensures
        final(machines)@ == old(machines)@.push(vm_of(lua).machine),
        vm_of(lua).steps == Seq::<VmStep>::empty(),
        !vm_of(lua).touched,
{
    mlua::Lua::new()
}

/// The text that describes an error.
///
/// `<mlua::Error as ToString>::to_string`: a function of the error.
#[verifier::external_body]
pub(crate) fn error_text(err: &mlua::Error) -> (r: String)
    ensures
        r@ == error_display(*err),
{
    err.to_string()
}

/// The text of a runtime error with a given message.
///
/// `<mlua::Error as ToString>::to_string` on `mlua::Error::RuntimeError`: the
/// message behind the words that introduce it.
#[verifier::external_body]
fn runtime_error_text(message: String) -> (r: String)
    ensures
        r@ == "runtime error: "@ + message@,
{
    mlua::Error::RuntimeError(message).to_string()
}

/// What a reply without a value looks like.
pub open spec fn unit_reply(r: Result<(), mlua::Error>) -> VmReply {
    match r {
        Ok(_) => VmReply::Done,
        Err(e) => VmReply::Failed(e),
    }
}

/// What a reply that brings a function looks like.
pub open spec fn function_reply(r: Result<mlua::Function, mlua::Error>) -> VmReply {
    match r {
        Ok(f) => VmReply::Function(function_of(f)),
        Err(e) => VmReply::Failed(e),
    }
}

/// The machine was asked one thing more, and is the same machine.
pub open spec fn asked(before: VmModel, request: VmRequest, reply: VmReply, after: VmModel) -> bool {
    &&& after.machine == before.machine
    &&& after.steps == before.steps.push(VmStep { request, reply })
}

/// Sets a global to an integer.
///
/// `mlua::Lua::globals`, `mlua::Table::set`: in a machine that nothing else has
/// got at, this runs no code, and a successful call puts the value under the
/// name and leaves all other names alone. What the table holds after a failed
/// call, or in any other machine, is left unsaid.
#[verifier::external_body]
fn set_integer(lua: &mut mlua::Lua, name: &str, value: i64) -> (r: Result<(), mlua::Error>)
    ensures
        asked(
            vm_of(*old(lua)),
            VmRequest::SetInteger { name: name@, value: value as int },
            unit_reply(r),
            vm_of(*final(lua)),
        ),
        !vm_of(*old(lua)).touched ==> !vm_of(*final(lua)).touched && (r is Ok ==> vm_of(
            *final(lua),
        ).globals == vm_of(*old(lua)).globals.insert(name@, GlobalValue::Integer(value as int))),
{
    lua.globals().set(name, value)
}

/// Sets a global to a function.
///
/// `mlua::Lua::globals`, `mlua::Table::set`: as for an integer. The function
/// must live in the same machine, for the call panics otherwise.
#[verifier::external_body]
fn set_function(lua: &mut mlua::Lua, name: &str, function: mlua::Function) -> (r: Result<
    (),
    mlua::Error,
>)
    requires
        function_of(function).machine == vm_of(*old(lua)).machine,
    ensures
        asked(
            vm_of(*old(lua)),
            VmRequest::SetFunction { name: name@, function: function_of(function) },
            unit_reply(r),
            vm_of(*final(lua)),
        ),
        !vm_of(*old(lua)).touched ==> !vm_of(*final(lua)).touched && (r is Ok ==> vm_of(
            *final(lua),
        ).globals == vm_of(*old(lua)).globals.insert(
            name@,
            GlobalValue::Function(function_of(function)),
        )),
{
    lua.globals().set(name, function)
}

/// Creates a Lua function that takes a message and forwards it at a level.
///
/// `mlua::Lua::create_function`: a successful call brings a function of this
/// machine that does what its closure does: `forward_log`, at the level and to
/// the sink that the closure was given. In a machine that nothing else has got
/// at, this runs no code and the global table stays as it is.
#[verifier::external_body]
fn create_log_function<F: Fn(LogLevel, String) + 'static>(
    lua: &mut mlua::Lua,
    level: LogLevel,
    sink: &Rc<F>,
) -> (r: Result<mlua::Function, mlua::Error>)
    requires
        forall|l: LogLevel, line: String| #[trigger] call_requires(**sink, (l, line)),
    ensures
        asked(
            vm_of(*old(lua)),
            VmRequest::CreateLogFunction { level },
            function_reply(r),
            vm_of(*final(lua)),
        ),
        !vm_of(*old(lua)).touched ==> !vm_of(*final(lua)).touched && vm_of(*final(lua)).globals
            == vm_of(*old(lua)).globals,
        r matches Ok(f) ==> {
            &&& function_of(f).machine == vm_of(*old(lua)).machine
            &&& function_of(f).level == Some(level)
            &&& function_of(f).logs == forwarding(**sink)
        },
{
    let sink = sink.clone();
    lua.create_function(
        move |_: &mlua::Lua, message: String| {
            forward_log(&*sink, level, message);
            Ok(())
        },
    )
}

/// Runs a piece of Lua source under a name.
///
/// `mlua::Lua::load`, `mlua::Chunk::set_name`, `mlua::Chunk::exec`: what comes
/// back, and what the machine holds afterwards, is up to the source, which may
/// read files and clocks. Nothing is said of it but that it was asked for. Nor
/// is it said that the call returns: the source may run for ever.
#[verifier::external_body]
fn run_chunk(lua: &mut mlua::Lua, source: &str, name: &str) -> (r: Result<(), mlua::Error>)
    ensures
        asked(
            vm_of(*old(lua)),
            VmRequest::RunChunk { source: source@, name: name@ },
            unit_reply(r),
            vm_of(*final(lua)),
        ),
{
    lua.load(source).set_name(name).exec()
}

/// Looks up a global that is a function.
///
/// `mlua::Lua::globals`, `mlua::Table::get`: a successful call brings a
/// function of this machine. In a machine that nothing else has got at, this
/// runs no code, the table stays as it is and the function is the one under
/// that name. In any other machine the lookup may run code of the script.
#[verifier::external_body]
pub(crate) fn find_function(lua: &mut mlua::Lua, name: &str) -> (r: Result<mlua::Function, mlua::Error>)
    ensures
        asked(
            vm_of(*old(lua)),
            VmRequest::FindFunction { name: name@ },
            function_reply(r),
            vm_of(*final(lua)),
        ),
        r matches Ok(f) ==> function_of(f).machine == vm_of(*old(lua)).machine,
        !vm_of(*old(lua)).touched ==> {
            &&& !vm_of(*final(lua)).touched
            &&& vm_of(*final(lua)).globals == vm_of(*old(lua)).globals
            &&& r matches Ok(f) ==> vm_of(*old(lua)).globals.contains_pair(
                name@,
                GlobalValue::Function(function_of(f)),
            )
        },
{
    lua.globals().get(name)
}

/// Calls a function without arguments.
///
/// `mlua::Function::call`: what comes back, and what the machine holds
/// afterwards, is up to the function. The function must live in the machine:
/// the call panics where its machine is gone.
#[verifier::external_body]
fn call_function(lua: &mut mlua::Lua, function: &mlua::Function) -> (r: Result<(), mlua::Error>)
    requires
        function_of(*function).machine == vm_of(*old(lua)).machine,
    ensures
        asked(
            vm_of(*old(lua)),
            VmRequest::Call { function: function_of(*function) },
            unit_reply(r),
            vm_of(*final(lua)),
        ),
{
    function.call::<()>(())
}

// ---------------------------------------------------------------------------
// What a machine is asked for
// ---------------------------------------------------------------------------

/// The line under which a script's message is logged.
pub open spec fn script_log_line(message: Seq<char>) -> Seq<char> {
    "[lua] "@ + message
}

/// A script's message was handed to a sink: the sink was called with the level
/// and the message's line.
pub open spec fn forwarding<F: FnOnce(LogLevel, String)>(sink: F) -> spec_fn(
    LogLevel,
    Seq<char>,
) -> bool {
    |level: LogLevel, message: Seq<char>|
        exists|line: String|
            line@ == script_log_line(message) && #[trigger] call_ensures(sink, (level, line), ())
}

/// Hands a script's message to the log, which is called once: a sink that is
/// used up cannot be called again.
pub fn forward_log<F: FnOnce(LogLevel, String)>(sink: F, level: LogLevel, message: String)
    requires
        forall|l: LogLevel, line: String| #[trigger] call_requires(sink, (l, line)),
    ensures
        forwarding(sink)(level, message@),
{
    let line = concat2("[lua] ", message.as_str());
    sink(level, line);
}

/// The last step failed. A lookup that finds nothing is no failure.
pub open spec fn failed(steps: Seq<VmStep>) -> bool {
    &&& steps.len() > 0
    &&& steps.last().reply is Failed
    &&& !(steps.last().request is FindFunction)
}

/// The function that a step brought.
pub open spec fn brought(step: VmStep) -> FunctionModel {
    step.reply->Function_0
}

/// What comes next while a script's globals are set up: the entity's bits as
/// a signed number, then one log function for each of three levels. A failure
/// ends it.
pub open spec fn api_request(entity: u64, steps: Seq<VmStep>) -> Option<VmRequest> {
    let n = steps.len();
    if failed(steps) {
        None
    } else if n == 0 {
        Some(VmRequest::SetInteger { name: "entity_id"@, value: (entity as i64) as int })
    } else if n == 1 {
        Some(VmRequest::CreateLogFunction { level: LogLevel::Info })
    } else if n == 2 {
        Some(VmRequest::SetFunction { name: "log_info"@, function: brought(steps[1]) })
    } else if n == 3 {
        Some(VmRequest::CreateLogFunction { level: LogLevel::Warn })
    } else if n == 4 {
        Some(VmRequest::SetFunction { name: "log_warn"@, function: brought(steps[3]) })
    } else if n == 5 {
        Some(VmRequest::CreateLogFunction { level: LogLevel::Error })
    } else if n == 6 {
        Some(VmRequest::SetFunction { name: "log_error"@, function: brought(steps[5]) })
    } else {
        None
    }
}

/// What comes next while a script is run: its source, then `init` where there
/// is such a function, then a look for `update`. A failure ends it.
pub open spec fn script_request(
    source: Seq<char>,
    name: Seq<char>,
    steps: Seq<VmStep>,
) -> Option<VmRequest> {
    let n = steps.len();
    if failed(steps) {
        None
    } else if n == 0 {
        Some(VmRequest::RunChunk { source, name })
    } else if n == 1 {
        Some(VmRequest::FindFunction { name: "init"@ })
    } else if n == 2 && steps[1].reply is Function {
        Some(VmRequest::Call { function: brought(steps[1]) })
    } else if n == 2 || (n == 3 && steps[1].reply is Function) {
        Some(VmRequest::FindFunction { name: "update"@ })
    } else {
        None
    }
}

/// Every step asked for what came next at that point.
pub open spec fn follows(next: spec_fn(Seq<VmStep>) -> Option<VmRequest>, steps: Seq<VmStep>) -> bool
    decreases steps.len(),
{
    steps.len() > 0 ==> {
        &&& follows(next, steps.drop_last())
        &&& next(steps.drop_last()) == Some(steps.last().request)
    }
}

/// The steps of a run after one more, which asked for what came next. `all` is
/// what the machine was asked since it was created, `start` the part of it
/// before the run.
proof fn step_taken(
    next: spec_fn(Seq<VmStep>) -> Option<VmRequest>,
    start: Seq<VmStep>,
    steps: Seq<VmStep>,
    all: Seq<VmStep>,
) -> (r: Seq<VmStep>)
    requires
        follows(next, steps),
        all == (start + steps).push(all.last()),
        next(steps) == Some(all.last().request),
    ensures
        r == steps.push(all.last()),
        follows(next, r),
        all == start + r,
{
    let r = steps.push(all.last());
    assert(r.drop_last() == steps);
    r
}

/// All the steps of setting up a script's globals, to the end or to the first
/// failure. `logs` is what the functions that came back do with a message.
pub open spec fn api_run(
    entity: u64,
    logs: spec_fn(LogLevel, Seq<char>) -> bool,
    steps: Seq<VmStep>,
) -> bool {
    &&& follows(|t: Seq<VmStep>| api_request(entity, t), steps)
    &&& api_request(entity, steps) is None
    &&& forall|i: int|
        0 <= i < steps.len() && (#[trigger] steps[i]).reply is Function ==> brought(steps[i]).logs
            == logs
}

/// All the steps of running a script, to the end or to the first failure.
pub open spec fn script_run(source: Seq<char>, name: Seq<char>, steps: Seq<VmStep>) -> bool {
    &&& follows(|t: Seq<VmStep>| script_request(source, name, t), steps)
    &&& script_request(source, name, steps) is None
}

/// The globals that a script finds.
pub open spec fn has_api(
    entity: u64,
    logs: spec_fn(LogLevel, Seq<char>) -> bool,
    globals: Map<Seq<char>, GlobalValue>,
) -> bool {
    &&& globals.contains_pair("entity_id"@, GlobalValue::Integer((entity as i64) as int))
    &&& is_log_function(globals, "log_info"@, LogLevel::Info, logs)
    &&& is_log_function(globals, "log_warn"@, LogLevel::Warn, logs)
    &&& is_log_function(globals, "log_error"@, LogLevel::Error, logs)
}

/// The names of those globals.
pub open spec fn api_names() -> Set<Seq<char>> {
    set!["entity_id"@, "log_info"@, "log_warn"@, "log_error"@]
}

/// The global of that name is a function that forwards at that level, and
/// `logs` is what it does with a message.
pub open spec fn is_log_function(
    globals: Map<Seq<char>, GlobalValue>,
    name: Seq<char>,
    level: LogLevel,
    logs: spec_fn(LogLevel, Seq<char>) -> bool,
) -> bool {
    &&& globals.dom().contains(name)
    &&& globals[name] is Function
    &&& globals[name]->Function_0.level == Some(level)
    &&& globals[name]->Function_0.logs == logs
}

/// Sets up the globals that a script may use: `entity_id`, `log_info`,
/// `log_warn` and `log_error`. The three functions hand a script's messages to
/// the sink, which is used up: no other machine gets it.
pub fn install_api<F: Fn(LogLevel, String) + 'static>(
    lua: &mut mlua::Lua,
    entity: u64,
    sink: F,
) -> (r: Result<(), mlua::Error>)
    requires
        forall|l: LogLevel, line: String| #[trigger] call_requires(sink, (l, line)),
    ensures
        vm_of(*final(lua)).machine == vm_of(*old(lua)).machine,
        exists|steps: Seq<VmStep>| #[trigger]
            api_run(entity, forwarding(sink), steps) && vm_of(*final(lua)).steps == vm_of(*old(lua)).steps + steps
                && unit_reply(r) == (if failed(steps) {
                steps.last().reply
            } else {
                VmReply::Done
            }),
        r is Ok && !vm_of(*old(lua)).touched ==> {
            &&& !vm_of(*final(lua)).touched
            &&& has_api(entity, forwarding(sink), vm_of(*final(lua)).globals)
            &&& vm_of(*final(lua)).globals.remove_keys(api_names()) == vm_of(
                *old(lua),
            ).globals.remove_keys(api_names())
        },
{
    let ghost next = |t: Seq<VmStep>| api_request(entity, t);
    let ghost start = vm_of(*lua).steps;
    let ghost mut steps: Seq<VmStep> = Seq::empty();
    proof {
        reveal_strlit("entity_id");
        reveal_strlit("log_info");
        reveal_strlit("log_warn");
        reveal_strlit("log_error");
        assert("log_info"@[4] != "log_warn"@[4]);
        assert("entity_id"@[0] != "log_error"@[0]);
        assert(start + steps == start);
    }
    let shared = Rc::new(sink);
    let id: i64 = entity as i64;
    let r = set_integer(lua, "entity_id", id);
    proof {
        steps = step_taken(next, start, steps, vm_of(*lua).steps);
    }
    if r.is_err() {
        assert(api_run(entity, forwarding(sink), steps));
        return r;
    }
    let made = create_log_function(lua, LogLevel::Info, &shared);
    proof {
        steps = step_taken(next, start, steps, vm_of(*lua).steps);
    }
    let log_info = match made {
        Ok(f) => f,
        Err(e) => {
            assert(api_run(entity, forwarding(sink), steps));
            return Err(e);
        },
    };
    let r = set_function(lua, "log_info", log_info);
    proof {
        steps = step_taken(next, start, steps, vm_of(*lua).steps);
    }
    if r.is_err() {
        assert(api_run(entity, forwarding(sink), steps));
        return r;
    }
    let made = create_log_function(lua, LogLevel::Warn, &shared);
    proof {
        steps = step_taken(next, start, steps, vm_of(*lua).steps);
    }
    let log_warn = match made {
        Ok(f) => f,
        Err(e) => {
            assert(api_run(entity, forwarding(sink), steps));
            return Err(e);
        },
    };
    let r = set_function(lua, "log_warn", log_warn);
    proof {
        steps = step_taken(next, start, steps, vm_of(*lua).steps);
    }
    if r.is_err() {
        assert(api_run(entity, forwarding(sink), steps));
        return r;
    }
    let made = create_log_function(lua, LogLevel::Error, &shared);
    proof {
        steps = step_taken(next, start, steps, vm_of(*lua).steps);
    }
    let log_error = match made {
        Ok(f) => f,
        Err(e) => {
            assert(api_run(entity, forwarding(sink), steps));
            return Err(e);
        },
    };
    let r = set_function(lua, "log_error", log_error);
    proof {
        steps = step_taken(next, start, steps, vm_of(*lua).steps);
        assert(api_run(entity, forwarding(sink), steps));
        assert(r is Ok && !vm_of(*old(lua)).touched ==> vm_of(*lua).globals.remove_keys(api_names())
            == vm_of(*old(lua)).globals.remove_keys(api_names()));
    }
    r
}

/// Runs a script in a machine that is set up: its source, then `init()` where
/// the script has it. Tells whether the script has an `update`.
pub fn run_script(lua: &mut mlua::Lua, source: &str, name: &str) -> (r: Result<bool, mlua::Error>)
    ensures
        vm_of(*final(lua)).machine == vm_of(*old(lua)).machine,
        exists|steps: Seq<VmStep>| #[trigger]
            script_run(source@, name@, steps) && vm_of(*final(lua)).steps == vm_of(*old(lua)).steps
                + steps && match r {
                Ok(has_update) => !failed(steps) && has_update == (steps.last().reply is Function),
                Err(e) => failed(steps) && steps.last().reply == VmReply::Failed(e),
            },
{
    let ghost next = |t: Seq<VmStep>| script_request(source@, name@, t);
    let ghost start = vm_of(*lua).steps;
    let ghost mut steps: Seq<VmStep> = Seq::empty();
    assert(start + steps == start);
    let ran = run_chunk(lua, source, name);
    proof {
        steps = step_taken(next, start, steps, vm_of(*lua).steps);
    }
    if let Err(e) = ran {
        assert(script_run(source@, name@, steps));
        return Err(e);
    }
    let init = find_function(lua, "init");
    proof {
        steps = step_taken(next, start, steps, vm_of(*lua).steps);
    }
    if let Ok(function) = init {
        let called = call_function(lua, &function);
        proof {
            steps = step_taken(next, start, steps, vm_of(*lua).steps);
        }
        if let Err(e) = called {
            assert(script_run(source@, name@, steps));
            return Err(e);
        }
    }
    let update = find_function(lua, "update");
    proof {
        steps = step_taken(next, start, steps, vm_of(*lua).steps);
        assert(script_run(source@, name@, steps));
    }
    Ok(update.is_ok())
}

// ---------------------------------------------------------------------------
// Loading a script
// ---------------------------------------------------------------------------

/// A script that runs: its machine, and whether it has an `update`.
pub struct LoadedScript {
    pub lua: mlua::Lua,
    pub has_update: bool,
}

/// What a load fails with where the file cannot be read.
pub open spec fn unreadable_text(path: PathBuf, reason: Seq<char>) -> Seq<char> {
    "runtime error: "@ + ("could not read "@ + crate::paths::path_debug_text(path) + ": "@ + reason)
}

/// These things were asked of that machine, with these replies, and nothing
/// else.
pub open spec fn some_machine_took(machine: int, steps: Seq<VmStep>) -> bool {
    exists|lua: mlua::Lua|
        (#[trigger] vm_of(lua)).machine == machine && vm_of(lua).steps == steps
}

/// How a load goes in a machine: `api` sets up the globals, with log functions
/// that do with a message what `logs` says; unless that fails, `script` runs
/// the source under the path's name. The first failure is what the load fails
/// with. A load that succeeds keeps the machine.
pub open spec fn load_run(
    path: PathBuf,
    entity: u64,
    logs: spec_fn(LogLevel, Seq<char>) -> bool,
    source: Seq<char>,
    machine: int,
    api: Seq<VmStep>,
    script: Seq<VmStep>,
    r: Result<LoadedScript, String>,
) -> bool {
    &&& api_run(entity, logs, api)
    &&& if failed(api) {
        &&& some_machine_took(machine, api)
        &&& r matches Err(m) && m@ == error_display(api.last().reply->Failed_0)
    } else {
        &&& script_run(source, crate::paths::path_lossy_text(path), script)
        &&& match r {
            Ok(loaded) => {
                &&& !failed(script)
                &&& vm_of(loaded.lua).machine == machine
                &&& vm_of(loaded.lua).steps == api + script
                &&& loaded.has_update == (script.last().reply is Function)
            },
            Err(m) => {
                &&& failed(script)
                &&& some_machine_took(machine, api + script)
                &&& m@ == error_display(script.last().reply->Failed_0)
            },
        }
    }
}

/// Loads a script into a machine of its own and runs its `init()`. `source` is
/// what reading the file gave: its text, or the reason why it was not read.
pub fn load_and_init<F: Fn(LogLevel, String) + 'static>(
    path: &PathBuf,
    entity: u64,
    source: Result<String, String>,
    sink: F,
) -> (r: Result<LoadedScript, String>)
    requires
        forall|l: LogLevel, line: String| #[trigger] call_requires(sink, (l, line)),
    ensures
        source matches Err(reason) ==> (r matches Err(m) && m@ == unreadable_text(*path, reason@)),
        source matches Ok(text) ==> exists|machine: int, api: Seq<VmStep>, script: Seq<VmStep>|
            #[trigger]
            load_run(*path, entity, forwarding(sink), text@, machine, api, script, r),
{
    let mut machines = Machines::none();
    load_into_one_machine(&mut machines, path, entity, source, sink)
}

/// Loads a script, and keeps count of the machines: a load creates one, in
/// which all that is asked for is asked, and none where the file was not read.
pub fn load_into_one_machine<F: Fn(LogLevel, String) + 'static>(
    machines: &mut Machines,
    path: &PathBuf,
    entity: u64,
    source: Result<String, String>,
    sink: F,
) -> (r: Result<LoadedScript, String>)
    requires
        forall|l: LogLevel, line: String| #[trigger] call_requires(sink, (l, line)),
    ensures
        source matches Err(reason) ==> final(machines)@ == old(machines)@ && (r matches Err(m)
            && m@ == unreadable_text(*path, reason@)),
        source is Ok ==> final(machines)@.len() == old(machines)@.len() + 1
            && final(machines)@.drop_last() == old(machines)@,
        source matches Ok(text) ==> exists|api: Seq<VmStep>, script: Seq<VmStep>| #[trigger]
            load_run(
                *path,
                entity,
                forwarding(sink),
                text@,
                final(machines)@.last(),
                api,
                script,
                r,
            ),
{
    let text = match source {
        Ok(text) => text,
        Err(reason) => {
            let mut message = concat2("could not read ", path_debug(path).as_str());
            message.append(": ");
            message.append(reason.as_str());
            return Err(runtime_error_text(message));
        },
    };
    let mut lua = new_machine(machines);
    let ghost machine = vm_of(lua).machine;
    let ghost logs = forwarding(sink);
    assert(machines@.drop_last() == old(machines)@);
    assert(machines@.last() == machine);
    let installed = install_api(&mut lua, entity, sink);
    let ghost api = vm_of(lua).steps;
    assert(Seq::<VmStep>::empty() + api == api);
    proof {
        let found = choose|steps: Seq<VmStep>| #[trigger]
            api_run(entity, forwarding(sink), steps) && api == Seq::<VmStep>::empty() + steps && unit_reply(installed)
                == (if failed(steps) {
                steps.last().reply
            } else {
                VmReply::Done
            });
        assert(found == api);
    }
    if let Err(e) = installed {
        let message = error_text(&e);
        let ghost failure: Result<LoadedScript, String> = Err(message);
        assert(load_run(*path, entity, logs, text@, machine, api, Seq::empty(), failure));
        return Err(message);
    }
    let name = path_lossy(path);
    let ran = run_script(&mut lua, text.as_str(), name.as_str());
    let ghost script = choose|steps: Seq<VmStep>| #[trigger]
        script_run(text@, name@, steps) && vm_of(lua).steps == api + steps && match ran {
            Ok(has_update) => !failed(steps) && has_update == (steps.last().reply is Function),
            Err(e) => failed(steps) && steps.last().reply == VmReply::Failed(e),
        };
    match ran {
        Ok(has_update) => {
            let loaded = LoadedScript { lua, has_update };
            let ghost success: Result<LoadedScript, String> = Ok(loaded);
            assert(load_run(*path, entity, logs, text@, machine, api, script, success));
            Ok(loaded)
        },
        Err(e) => {
            let message = error_text(&e);
            let ghost failure: Result<LoadedScript, String> = Err(message);
            assert(load_run(*path, entity, logs, text@, machine, api, script, failure));
            Err(message)
        },
    }
}

// ---------------------------------------------------------------------------
// Laws
// ---------------------------------------------------------------------------

/// Each step asked for what came next after the steps before it.
proof fn lemma_follows_at(
    next: spec_fn(Seq<VmStep>) -> Option<VmRequest>,
    steps: Seq<VmStep>,
    i: int,
)
    requires
        follows(next, steps),
        0 <= i < steps.len(),
    ensures
        next(steps.take(i)) == Some(steps[i].request),
    decreases steps.len(),
{
    if i == steps.len() - 1 {
        assert(steps.take(i) == steps.drop_last());
    } else {
        lemma_follows_at(next, steps.drop_last(), i);
        assert(steps.drop_last().take(i) == steps.take(i));
    }
}

/// A script that loads has its source run first, under its name. `init` is
/// looked for right after that and called once where it is found, and not
/// otherwise; the look for `update` comes last.
pub proof fn law_init_is_called_once(source: Seq<char>, name: Seq<char>, steps: Seq<VmStep>)
    requires
        script_run(source, name, steps),
        !failed(steps),
    ensures
        steps.len() == (if steps[1].reply is Function {
            4int
        } else {
            3int
        }),
        steps[0].request == (VmRequest::RunChunk { source, name }),
        steps[1].request == (VmRequest::FindFunction { name: "init"@ }),
        forall|i: int|
            0 <= i < steps.len() ==> ((#[trigger] steps[i]).request is Call <==> i == 2
                && steps[1].reply is Function),
        steps[1].reply is Function ==> steps[2].request == (VmRequest::Call {
            function: brought(steps[1]),
        }),
        steps.last().request == (VmRequest::FindFunction { name: "update"@ }),
{
    let next = |t: Seq<VmStep>| script_request(source, name, t);
    assert(steps.len() > 0);
    lemma_follows_at(next, steps, 0);
    assert(steps.len() > 1);
    lemma_follows_at(next, steps, 1);
    assert(steps.len() > 2);
    lemma_follows_at(next, steps, 2);
    if steps.len() > 3 {
        lemma_follows_at(next, steps, 3);
    }
    if steps.len() > 4 {
        lemma_follows_at(next, steps, 4);
    }
}

/// A script that is set up fails to load only where its source fails to run, or
/// where it has an `init` and the call of that fails. That `init` or `update`
/// is missing, or is no function, is no failure.
pub proof fn law_only_source_and_init_fail_a_load(
    source: Seq<char>,
    name: Seq<char>,
    steps: Seq<VmStep>,
)
    requires
        script_run(source, name, steps),
        failed(steps),
    ensures
        steps.last().request == (VmRequest::RunChunk { source, name }) || (steps.len() == 3
            && steps[1].request == (VmRequest::FindFunction { name: "init"@ })
            && steps[1].reply is Function && steps.last().request == (VmRequest::Call {
            function: brought(steps[1]),
        })),
{
    let next = |t: Seq<VmStep>| script_request(source, name, t);
    lemma_follows_at(next, steps, steps.len() - 1);
    if steps.len() == 3 {
        lemma_follows_at(next, steps, 1);
    }
}

/// Nothing is asked of a machine after a failure: where a step fails, it is
/// the last one.
pub proof fn law_failure_ends_the_load(
    source: Seq<char>,
    name: Seq<char>,
    steps: Seq<VmStep>,
    i: int,
)
    requires
        script_run(source, name, steps),
        0 <= i < steps.len(),
        steps[i].reply is Failed,
        !(steps[i].request is FindFunction),
    ensures
        i == steps.len() - 1,
        failed(steps),
{
    let next = |t: Seq<VmStep>| script_request(source, name, t);
    if i < steps.len() - 1 {
        lemma_follows_at(next, steps, i + 1);
        assert(steps.take(i + 1).last() == steps[i]);
    }
}

/// Nor is anything asked after a failure while the globals are set up.
pub proof fn law_failure_ends_the_setup(
    entity: u64,
    logs: spec_fn(LogLevel, Seq<char>) -> bool,
    steps: Seq<VmStep>,
    i: int,
)
    requires
        api_run(entity, logs, steps),
        0 <= i < steps.len(),
        steps[i].reply is Failed,
    ensures
        i == steps.len() - 1,
{
    let next = |t: Seq<VmStep>| api_request(entity, t);
    lemma_follows_at(next, steps, i);
    if i < steps.len() - 1 {
        lemma_follows_at(next, steps, i + 1);
        assert(steps.take(i + 1).last() == steps[i]);
    }
}

/// Where setting up the globals does not fail, all of them are set: first the
/// entity's number, then each log function as it was created for its level.
pub proof fn law_setup_sets_every_global(
    entity: u64,
    logs: spec_fn(LogLevel, Seq<char>) -> bool,
    steps: Seq<VmStep>,
)
    requires
        api_run(entity, logs, steps),
        !failed(steps),
    ensures
        steps.map_values(|step: VmStep| step.request) == seq![
            VmRequest::SetInteger { name: "entity_id"@, value: (entity as i64) as int },
            VmRequest::CreateLogFunction { level: LogLevel::Info },
            VmRequest::SetFunction { name: "log_info"@, function: brought(steps[1]) },
            VmRequest::CreateLogFunction { level: LogLevel::Warn },
            VmRequest::SetFunction { name: "log_warn"@, function: brought(steps[3]) },
            VmRequest::CreateLogFunction { level: LogLevel::Error },
            VmRequest::SetFunction { name: "log_error"@, function: brought(steps[5]) },
        ],
        forall|i: int| 0 <= i < steps.len() ==> !((#[trigger] steps[i]).reply is Failed),
{
    let next = |t: Seq<VmStep>| api_request(entity, t);
    assert(steps.len() >= 7);
    assert forall|i: int| 0 <= i < steps.len() implies next(steps.take(i)) == Some(
        (#[trigger] steps[i]).request,
    ) && !(steps[i].reply is Failed) by {
        lemma_follows_at(next, steps, i);
        if steps[i].reply is Failed {
            law_failure_ends_the_setup(entity, logs, steps, i);
        }
    }
    assert(steps.len() == 7) by {
        if steps.len() > 7 {
            assert(next(steps.take(7)) == Some(steps[7].request));
        }
    }
    assert(steps[0].request == api_request(entity, steps.take(0))->0);
    assert(steps[1].request == api_request(entity, steps.take(1))->0);
    assert(steps[2].request == api_request(entity, steps.take(2))->0);
    assert(steps[3].request == api_request(entity, steps.take(3))->0);
    assert(steps[4].request == api_request(entity, steps.take(4))->0);
    assert(steps[5].request == api_request(entity, steps.take(5))->0);
    assert(steps[6].request == api_request(entity, steps.take(6))->0);
}

/// The number that a script finds under `entity_id` tells any two entities
/// apart.
pub proof fn law_entity_ids_differ(a: u64, b: u64)
    requires
        a != b,
    ensures
        (a as i64) as int != (b as i64) as int,
{
    assert((a as i64) == (b as i64) ==> a == b) by (bit_vector);
}

/// A script's message is logged whole, behind a mark that is the same for all.
pub proof fn law_messages_are_marked_and_whole(message: Seq<char>)
    ensures
        script_log_line(message).take("[lua] "@.len() as int) == "[lua] "@,
        script_log_line(message).skip("[lua] "@.len() as int) == message,
{
    assert(script_log_line(message).take("[lua] "@.len() as int) == "[lua] "@);
    assert(script_log_line(message).skip("[lua] "@.len() as int) == message);
}

/// A message that was handed to a sink has led to a call of it, at the level
/// and with a line that ends with the whole message.
pub proof fn law_a_handed_message_reaches_the_sink<F: Fn(LogLevel, String)>(
    sink: F,
    level: LogLevel,
    message: Seq<char>,
)
    requires
        forwarding(sink)(level, message),
    ensures
        exists|line: String| #[trigger]
            call_ensures(sink, (level, line), ()) && line@ == "[lua] "@ + message,
{
}

/// Where the globals of a script are set up, three different names hold three
/// functions, one for each level, that hand messages on as `logs` says.
pub proof fn law_the_log_functions_log(
    entity: u64,
    logs: spec_fn(LogLevel, Seq<char>) -> bool,
    globals: Map<Seq<char>, GlobalValue>,
)
    requires
        has_api(entity, logs, globals),
    ensures
        globals["entity_id"@] == GlobalValue::Integer((entity as i64) as int),
        globals["log_info"@] matches GlobalValue::Function(f) && f.level == Some(LogLevel::Info)
            && f.logs == logs,
        globals["log_warn"@] matches GlobalValue::Function(f) && f.level == Some(LogLevel::Warn)
            && f.logs == logs,
        globals["log_error"@] matches GlobalValue::Function(f) && f.level == Some(LogLevel::Error)
            && f.logs == logs,
        forall|name: Seq<char>| #[trigger]
            api_names().contains(name) <==> name == "entity_id"@ || name == "log_info"@ || name
                == "log_warn"@ || name == "log_error"@,
{
}

/// A file that cannot be read is told of with its path and the whole reason.
pub proof fn law_the_reason_is_told(path: PathBuf, reason: Seq<char>)
    ensures
        ({
            let head = "runtime error: "@ + "could not read "@ + crate::paths::path_debug_text(path)
                + ": "@;
            &&& unreadable_text(path, reason).take(head.len() as int) == head
            &&& unreadable_text(path, reason).skip(head.len() as int) == reason
        }),
{
    let head = "runtime error: "@ + "could not read "@ + crate::paths::path_debug_text(path) + ": "@;
    assert(unreadable_text(path, reason) == head + reason);
    assert((head + reason).take(head.len() as int) == head);
    assert((head + reason).skip(head.len() as int) == reason);
}

/// While the globals are set up no source is run and no function is called.
proof fn lemma_setup_runs_nothing(
    entity: u64,
    logs: spec_fn(LogLevel, Seq<char>) -> bool,
    steps: Seq<VmStep>,
    i: int,
)
    requires
        api_run(entity, logs, steps),
        0 <= i < steps.len(),
    ensures
        !(steps[i].request is RunChunk),
        !(steps[i].request is Call),
{
    lemma_follows_at(|t: Seq<VmStep>| api_request(entity, t), steps, i);
}

/// A load that succeeds ran its source once, under the path's name, and called
/// `init` once where the script has one, right after it was found, and no other
/// function: over all that was asked of its machine there is one run and at most
/// one call. It has an `update` just where the last thing asked, a look for it,
/// brought one.
pub proof fn law_a_load_runs_everything_once(
    path: PathBuf,
    entity: u64,
    logs: spec_fn(LogLevel, Seq<char>) -> bool,
    source: Seq<char>,
    machine: int,
    api: Seq<VmStep>,
    script: Seq<VmStep>,
    loaded: LoadedScript,
)
    requires
        load_run(path, entity, logs, source, machine, api, script, Ok(loaded)),
    ensures
        ({
            let all = vm_of(loaded.lua).steps;
            let run = api.len() as int;
            &&& vm_of(loaded.lua).machine == machine
            &&& 0 <= run < all.len()
            &&& all[run].request == (VmRequest::RunChunk {
                source,
                name: crate::paths::path_lossy_text(path),
            })
            &&& forall|i: int|
                0 <= i < all.len() ==> ((#[trigger] all[i]).request is RunChunk <==> i == run)
            &&& all[run + 1].request == (VmRequest::FindFunction { name: "init"@ })
            &&& forall|i: int|
                0 <= i < all.len() ==> ((#[trigger] all[i]).request is Call <==> i == run + 2
                    && all[run + 1].reply is Function)
            &&& all[run + 1].reply is Function ==> all[run + 2].request == (VmRequest::Call {
                function: all[run + 1].reply->Function_0,
            })
            &&& all.last().request == (VmRequest::FindFunction { name: "update"@ })
            &&& loaded.has_update <==> all.last().reply is Function
        }),
{
    let name = crate::paths::path_lossy_text(path);
    let all = api + script;
    let run = api.len() as int;
    law_init_is_called_once(source, name, script);
    assert forall|i: int| 0 <= i < all.len() implies ((#[trigger] all[i]).request is RunChunk <==> i
        == run) && (all[i].request is Call <==> i == run + 2 && script[1].reply is Function) by {
        if i < run {
            lemma_setup_runs_nothing(entity, logs, api, i);
            assert(all[i] == api[i]);
        } else {
            assert(all[i] == script[i - run]);
            lemma_follows_at(
                |t: Seq<VmStep>| script_request(source, name, t),
                script,
                i - run,
            );
        }
    }
    assert(all[run] == script[0]);
    assert(all[run + 1] == script[1]);
    assert(all[run + 2] == script[2]);
    assert(all.last() == script.last());
}

/// A load that fails tells of the last thing that was asked of its machine, and
/// that is what failed: setting up the globals, running the source, or `init`.
pub proof fn law_a_failed_load_tells_what_failed(
    path: PathBuf,
    entity: u64,
    logs: spec_fn(LogLevel, Seq<char>) -> bool,
    source: Seq<char>,
    machine: int,
    api: Seq<VmStep>,
    script: Seq<VmStep>,
    message: String,
)
    requires
        load_run(path, entity, logs, source, machine, api, script, Err(message)),
    ensures
        exists|lua: mlua::Lua|
            {
                let all = (#[trigger] vm_of(lua)).steps;
                &&& vm_of(lua).machine == machine
                &&& all.len() > 0
                &&& all.last().reply matches VmReply::Failed(e)
                &&& message@ == error_display(e)
                &&& !(all.last().request is FindFunction)
                &&& all.len() > api.len() ==> (all.last().request == (VmRequest::RunChunk {
                    source,
                    name: crate::paths::path_lossy_text(path),
                }) || all.last().request is Call)
            },
{
    let name = crate::paths::path_lossy_text(path);
    if failed(api) {
        let lua = choose|lua: mlua::Lua|
            (#[trigger] vm_of(lua)).machine == machine && vm_of(lua).steps == api;
        assert(vm_of(lua).steps == api);
    } else {
        law_only_source_and_init_fail_a_load(source, name, script);
        let lua = choose|lua: mlua::Lua|
            (#[trigger] vm_of(lua)).machine == machine && vm_of(lua).steps == api + script;
        assert(vm_of(lua).steps.last() == script.last());
    }
}

/// A load creates one machine, and none where the file was not read. All that
/// is asked for is asked of that machine, which is the one that a load that
/// succeeds keeps: there the source is run once, and `init` is called once where
/// it was found.
pub proof fn law_a_load_uses_one_machine<F: Fn(LogLevel, String) + 'static>(
    machines: &mut Machines,
    path: PathBuf,
    entity: u64,
    source: Result<String, String>,
    sink: F,
    r: Result<LoadedScript, String>,
    i: int,
    j: int,
)
    requires
        call_ensures(
            load_into_one_machine::<F>,
            (machines, &path, entity, source, sink),
            r,
        ),
    ensures
        final(machines)@.len() == old(machines)@.len() + (if source is Ok {
            1int
        } else {
            0int
        }),
        source is Err ==> r is Err,
        r matches Ok(loaded) ==> {
            let all = vm_of(loaded.lua).steps;
            &&& vm_of(loaded.lua).machine == final(machines)@.last()
            &&& exists|k: int|
                0 <= k < all.len() && ((#[trigger] all[k]).request matches VmRequest::RunChunk {
                    source: text,
                    name,
                } && text == source->Ok_0@)
            &&& 0 <= i < j < all.len() ==> !(all[i].request is RunChunk && all[j].request
                is RunChunk) && !(all[i].request is Call && all[j].request is Call)
        },
{
    if let Ok(loaded) = r {
        let logs = forwarding(sink);
        let text = source->Ok_0@;
        let machine = final(machines)@.last();
        let (api, script) = choose|api: Seq<VmStep>, script: Seq<VmStep>| #[trigger]
            load_run(path, entity, logs, text, machine, api, script, r);
        law_a_load_runs_everything_once(
            path,
            entity,
            logs,
            text,
            machine,
            api,
            script,
            loaded,
        );
        let all = vm_of(loaded.lua).steps;
        assert(all[api.len() as int].request is RunChunk);
    }
}

/// What `load_and_init` gives: where the file was not read, the reason; and
/// else, where it succeeds, a script whose machine ran the source once and
/// called `init` at most once, and which has an `update` just where a look for
/// it, the last thing asked, brought one.
pub proof fn law_a_loaded_script_ran_once<F: Fn(LogLevel, String) + 'static>(
    path: PathBuf,
    entity: u64,
    source: Result<String, String>,
    sink: F,
    r: Result<LoadedScript, String>,
    i: int,
    j: int,
)
    requires
        call_ensures(load_and_init::<F>, (&path, entity, source, sink), r),
    ensures
        source matches Err(reason) ==> (r matches Err(m) && m@ == "runtime error: "@
            + "could not read "@ + crate::paths::path_debug_text(path) + ": "@ + reason@),
        r matches Ok(loaded) ==> {
            let all = vm_of(loaded.lua).steps;
            &&& source is Ok
            &&& exists|k: int|
                0 <= k < all.len() && ((#[trigger] all[k]).request matches VmRequest::RunChunk {
                    source: text,
                    name,
                } && text == source->Ok_0@)
            &&& 0 <= i < j < all.len() ==> !(all[i].request is RunChunk && all[j].request
                is RunChunk) && !(all[i].request is Call && all[j].request is Call)
            &&& all.last().request == (VmRequest::FindFunction { name: "update"@ })
            &&& loaded.has_update <==> all.last().reply is Function
        },
{
    if let Err(reason) = source {
        law_the_reason_is_told(path, reason@);
        let head = "runtime error: "@ + "could not read "@ + crate::paths::path_debug_text(path)
            + ": "@;
        let m = r->Err_0@;
        assert(m == m.take(head.len() as int) + m.skip(head.len() as int));
    }
    if let Ok(loaded) = r {
        let logs = forwarding(sink);
        let text = source->Ok_0@;
        let (machine, api, script) = choose|machine: int, api: Seq<VmStep>, script: Seq<VmStep>|
            #[trigger]
            load_run(path, entity, logs, text, machine, api, script, r);
        law_a_load_runs_everything_once(
            path,
            entity,
            logs,
            text,
            machine,
            api,
            script,
            loaded,
        );
        let all = vm_of(loaded.lua).steps;
        assert(all[api.len() as int].request is RunChunk);
    }
}

/// After `install_api` went well in a machine that nothing else has got at, the
/// script finds the entity's number and three log functions, one for each
/// level, that hand its messages to the sink; every other global is what it
/// was.
pub proof fn law_install_api_sets_the_globals<F: Fn(LogLevel, String) + 'static>(
    lua: &mut mlua::Lua,
    entity: u64,
    sink: F,
    other: Seq<char>,
)
    requires
        call_ensures(install_api::<F>, (lua, entity, sink), Ok(())),
        !vm_of(*old(lua)).touched,
        other != "entity_id"@,
        other != "log_info"@,
        other != "log_warn"@,
        other != "log_error"@,
    ensures
        ({
            let before = vm_of(*old(lua)).globals;
            let after = vm_of(*final(lua)).globals;
            &&& after["entity_id"@] == GlobalValue::Integer((entity as i64) as int)
            &&& after["log_info"@] matches GlobalValue::Function(info)
            &&& info.level == Some(LogLevel::Info)
            &&& after["log_warn"@] matches GlobalValue::Function(warn)
            &&& warn.level == Some(LogLevel::Warn)
            &&& after["log_error"@] matches GlobalValue::Function(error)
            &&& error.level == Some(LogLevel::Error)
            &&& info.logs == forwarding(sink)
            &&& warn.logs == forwarding(sink)
            &&& error.logs == forwarding(sink)
            &&& after.dom().contains(other) <==> before.dom().contains(other)
            &&& before.dom().contains(other) ==> after[other] == before[other]
        }),
{
    let before = vm_of(*old(lua)).globals;
    let after = vm_of(*final(lua)).globals;
    law_the_log_functions_log(entity, forwarding(sink), after);
    assert(!api_names().contains(other));
    assert(after.remove_keys(api_names()).dom().contains(other) <==> after.dom().contains(other));
    assert(before.remove_keys(api_names()).dom().contains(other) <==> before.dom().contains(other));
    if before.dom().contains(other) {
        assert(after.remove_keys(api_names())[other] == after[other]);
        assert(before.remove_keys(api_names())[other] == before[other]);
    }
}

/// Where `run_script` goes well it has run the source, looked for `init`, called
/// it where it was found, and looked for `update`, in this order and once each;
/// and it says whether `update` was found.
pub proof fn law_run_script_runs_the_source_once(
    lua: &mut mlua::Lua,
    source: &str,
    name: &str,
    has_update: bool,
)
    requires
        call_ensures(run_script, (lua, source, name), Ok(has_update)),
    ensures
        ({
            let before = vm_of(*old(lua)).steps;
            let all = vm_of(*final(lua)).steps;
            let n = before.len() as int;
            let found = all[n + 1].reply is Function;
            &&& all.len() == n + (if found {
                4int
            } else {
                3int
            })
            &&& all.take(n) == before
            &&& all[n].request == (VmRequest::RunChunk { source: source@, name: name@ })
            &&& all[n + 1].request == (VmRequest::FindFunction { name: "init"@ })
            &&& found ==> all[n + 2].request == (VmRequest::Call {
                function: all[n + 1].reply->Function_0,
            })
            &&& all.last().request == (VmRequest::FindFunction { name: "update"@ })
            &&& has_update <==> all.last().reply is Function
        }),
{
    let before = vm_of(*old(lua)).steps;
    let all = vm_of(*final(lua)).steps;
    let n = before.len() as int;
    let steps = all.skip(n);
    assert forall|s: Seq<VmStep>| #[trigger]
        script_run(source@, name@, s) && all == before + s implies s == steps by {
        assert((before + s).skip(n) == s);
    }
    assert(all == before + steps);
    law_init_is_called_once(source@, name@, steps);
    assert(all.take(n) == before);
    assert(all[n] == steps[0]);
    assert(all[n + 1] == steps[1]);
    assert(all[n + 2] == steps[2]);
    assert(all.last() == steps.last());
}

/// `forward_log` calls the sink at the level it was given, with a line that is
/// the whole message behind the mark.
pub proof fn law_forward_log_calls_the_sink<F: FnOnce(LogLevel, String)>(
    sink: F,
    level: LogLevel,
    message: String,
)
    requires
        call_ensures(forward_log::<F>, (sink, level, message), ()),
    ensures
        exists|line: String| #[trigger]
            call_ensures(sink, (level, line), ()) && line@ == "[lua] "@ + message@,
{
    law_messages_are_marked_and_whole(message@);
    let line = script_log_line(message@);
    assert(line == line.take("[lua] "@.len() as int) + line.skip("[lua] "@.len() as int));
}

} // verus!
