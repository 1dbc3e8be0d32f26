//! Lowering of the Ocara abstract syntax tree into the Ocara IR.
pub mod text;
pub mod names;
pub mod ast;
pub mod astcopy;
pub mod ir;
pub mod scope;
pub mod builder;
pub mod builtins;
pub mod helpers;
pub mod captures;
pub mod class_ownership;
pub mod ownership;
pub mod message_gen;
pub mod typeinfer;
pub mod literals;
pub mod class_dispatch;
pub mod stmt_helpers;
pub mod lower;
pub mod assignments;
pub mod nameless;
pub mod block;
pub mod statements;
pub mod control_flow;
pub mod loops;
pub mod variables;
pub mod exceptions;
pub mod functions;
pub mod classes;
pub mod interfaces;
pub mod wrappers;
pub mod runtime;
pub mod program;
pub mod tauri;
