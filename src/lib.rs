//! Time tracking: punches recorded per project and day, reconciled against a
//! tolerance window, and reconstructed into work intervals for reporting.

pub mod text;
pub mod time;
pub mod punch;
pub mod interval;
pub mod format;
pub mod log;
pub mod report;
pub mod cli;

pub use crate::cli::{App, Commands};
pub use crate::format::Formatter;
pub use crate::log::{Entry, Log, Project, Record};
pub use crate::punch::{TimeStamp, TimeStampType};
