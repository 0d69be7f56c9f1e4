//! A coding agent's engine: provider adapters, the tool loop, the session journal and
//! the front ends, as functions over plain values with machine-checked contracts.
//!
//! Nothing here performs I/O. Each part that talks to a network, a file or a terminal is
//! written as a state machine: the caller performs the action and hands back the event.

pub mod agent_loop;
pub mod anthropic;
pub mod builtins;
pub mod bus;
pub mod compaction;
pub mod context;
pub mod creds;
pub mod entry;
pub mod error;
pub mod headless;
pub mod ids;
pub mod journal;
pub mod json;
pub mod messages;
pub mod model;
pub mod openai;
pub mod provider;
pub mod request;
pub mod rpc;
pub mod session;
pub mod setup;
pub mod state;
pub mod stream;
pub mod text;
pub mod tools;
pub mod tui;
pub mod tui_view;
