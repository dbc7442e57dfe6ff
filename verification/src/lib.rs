//! Compiles the declared interface of a script plugin into the binary module
//! that stands between the plugin's host and the engine that runs the script,
//! and holds the decisions of the engine's side of that boundary.
//!
//! - `model`, `declarations`: the interface of a plugin, and the rules that
//!   read it from declarations.
//! - `names`, `order`, `table`: host functions are numbered in the order of
//!   their names.
//! - `ops`, `layout`, `shims`: the generated module: the bodies of its
//!   functions, what it consists of, and the generator. `assemble` is the
//!   one place where the module is handed to the encoder.
//! - `machine`, `behaviour`, `anatomy`, `guarantees`, `stability`: what the
//!   generated functions do when they run.
//! - `wire`, `callstack`, `runtime`, `preamble`: values at the boundary, calls
//!   under assembly, and what the engine's side decides.
//! - `opt`, `options`: what the compiler is asked to do.

pub mod anatomy;
pub mod assemble;
pub mod behaviour;
pub mod callstack;
pub mod declarations;
pub mod faults;
pub mod guarantees;
pub mod layout;
pub mod machine;
pub mod model;
pub mod names;
pub mod ops;
pub mod opt;
pub mod options;
pub mod order;
pub mod preamble;
pub mod runtime;
pub mod shims;
pub mod stability;
pub mod table;
pub mod wire;
