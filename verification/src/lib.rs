//! The evaluation core of a minimal scripting language: a shared, immutable
//! syntax tree, a runtime value model, a flat mutable variable environment,
//! a tree-walking evaluator proved to agree with a step-indexed mathematical
//! semantics, and a registry of host-provided built-in functions dispatched
//! through the same path as user functions.

pub mod ast;
pub mod builtins;
pub mod env;
pub mod interpreter;
pub mod laws;
pub mod render;
pub mod semantics;

pub use ast::HostFn;
pub use ast::Node;
pub use ast::Operation;
pub use builtins::add_builtins;
pub use builtins::Host;
pub use builtins::LoggedHost;
pub use env::Environment;
pub use interpreter::Value;
pub use semantics::Fatal;
