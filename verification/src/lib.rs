//! The core of a coding agent, as far as it can be stated and proved.
//!
//! - [`bash`] tells which shell scripts are nothing but plain commands, and splits them into words;
//!   [`syntax`] holds the trees that it reads.
//! - [`message_history`] keeps the global history of messages in a file that is appended to and
//!   looked up record by record.
//! - [`internal_storage`] keeps state from one run to the next.
//! - [`apply_patch`] decides whether a patch is applied, and [`plan_tool`] handles updates of the
//!   plan; both speak the [`protocol`].
//! - [`util`] computes the delays between retries.
//!
//! Nothing here touches files, clocks or terminals. Where work alternates with decisions, a
//! function takes the state and what happened, and gives the next state and what to do.

pub mod apply_patch;
pub mod bash;
pub mod config;
pub mod file_map;
pub mod internal_storage;
pub mod message_history;
pub mod openai_tools;
pub mod path;
pub mod plan_tool;
pub mod protocol;
pub mod syntax;
pub mod text;
pub mod util;
