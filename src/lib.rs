//! Repository-statistics helpers: a command-line classifier and fold, a
//! restricted ISO-8601 timestamp parser, and the naming of the files that
//! fetched statistics are written to.

pub mod api;
pub mod cli;
pub mod command;
pub mod decimal;
pub mod github;
pub mod iso8601date;
pub mod text;

pub use api::{Frequency, GitHubClonesContainer, GitHubTrafficContainer};
pub use cli::{init, Cli, Flags, ParsedArg};
pub use command::Command;
pub use github::{GitHubClones, GitHubRepoId, GitHubTraffic, TrafficStat};
pub use iso8601date::{ISO8601Date, TimestampFault, TimestampFormatError};
