# devconsole

A developer console with a log feed for Bevy programs, and Lua scripting over a
pool of pinned worker threads.

- `src/` is the library. Its contracts are proved by Verus: what a key press
  does to the console, which log lines are kept and shown, how commands are
  registered and found, which worker owns a script, what a script's Lua state is
  put through when it is loaded, when it is loaded again, and what is told of
  it. Calls into Bevy, mlua and the standard library that Verus does not know
  stand behind small functions whose doc comments say what is taken for granted
  of them.
- `app/` is the program around it: the window, the keyboard, files, clocks and
  threads. To open a window, Bevy needs its `bevy_winit` feature and a windowing
  backend such as `x11` besides those that `Cargo.toml` names.
- `tests/` runs the library, with real Lua states.
