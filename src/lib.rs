//! Command dispatch for a chat bot: a registry of commands, the binding of a
//! message's words to a command's declared arguments, an owner gate, the
//! command handlers and the routing of inbound events, all as functions from
//! plain values to the protocol actions that the host then performs.
pub mod text;
pub mod binder;
pub mod action;
pub mod membership;
pub mod command;
pub mod handlers;
pub mod registry;
pub mod bot;
pub mod laws;
