//! The logic of the notebook-template commands: argument and identifier
//! parsing, template names, where a template is read from, turning a
//! notebook into a template and a template into a notebook payload, and the
//! bookkeeping of webhook triggers and of the realtime monitor.

pub mod args;
pub mod convert;
pub mod details;
pub mod error;
pub mod expand;
pub mod ids;
pub mod listing;
pub mod monitor;
pub mod names;
pub mod source;
pub mod text;
pub mod triggers;
