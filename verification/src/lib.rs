//! A developer console with a log feed, and Lua scripting over a pool of
//! pinned workers. This crate holds the decisions and the data: what a key
//! press does to the console, which lines the feed keeps, which worker owns a
//! script, what a script's virtual machine is put through, and when it is
//! loaded again. Windows, files, clocks and threads are left to the program
//! around it.

pub mod commands;
pub mod console;
pub mod entity;
pub mod logs;
pub mod paths;
pub mod pool;
pub mod status;
pub mod text;
pub mod vm;
pub mod worker;
