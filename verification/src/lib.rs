//! Values, tables and closures of a small Lua interpreter, and the built-in
//! functions that rest on them.
//!
//! - [`value`]: the runtime values, and nil made explicit.
//! - [`model`]: what a table means as a map, an array and a tuple.
//! - [`table`]: the table itself, with its array and tuple operations.
//! - [`function`]: closures and the variables that they capture.
//! - [`heap`]: the home of the tables, closures and variables that are
//!   shared; values reach them through handles.
//! - [`text`]: how values read as text.
//! - [`convert`]: conversions between plain values, values and nil.
//! - [`lua_lib`]: the native calling convention and the built-ins.
//!
//! The library computes and decides; it neither writes output nor runs
//! compiled code. `print` hands back the line to write, and `pcall` hands
//! back the call to make.

pub mod convert;
pub mod function;
pub mod heap;
pub mod lua_lib;
pub mod model;
pub mod table;
pub mod text;
pub mod value;
