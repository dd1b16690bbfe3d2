//! A verified core for a shell-out release tool: a subprocess pipeline
//! engine (command-line tokenizing, environment/program resolution, staged
//! pipeline planning, terminal sinks) together with the small data types the
//! surrounding tool shares with it.

pub mod changelog;
pub mod cli;
pub mod display;
pub mod error;
pub mod git;
pub mod hex;
pub mod indent;
pub mod level;
pub mod logger;
pub mod manifest;
pub mod numfmt;
pub mod pipeline;
pub mod process;
pub mod relay;
pub mod resolve;
pub mod scope;
pub mod segment;
mod strkit;
pub mod sink;
pub mod tokenize;

pub use process::{pjoin_verdict, ExitError, ExitStatus};
pub use resolve::{parse_assignment, resolve_command_line, resolve_tokens, CommandSpec, ResolveError};
pub use sink::{pnonempty, preadln, preadlns, SinkError};
pub use tokenize::smart_split;
