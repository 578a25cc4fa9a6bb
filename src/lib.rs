//! A step execution engine for declarative playbooks: the context algebra,
//! the step runner and resume protocol, the built-in actions, and the argument
//! vector of the local container backend, with their contracts proved by Verus.

pub mod builtins;
pub mod command;
pub mod context;
pub mod docker;
pub mod fork;
pub mod guest;
pub mod resolver;
pub mod runner;
pub mod systems;
pub mod text;

pub use builtins::{ExitCode, TransientContext};
pub use command::format_cmd;
pub use context::{Context, CtxObj};
pub use runner::Closure;
pub use systems::{TaskError, TaskErrorSource};
