//! The logic of a terminal network-health dashboard: health classification, the state
//! reducer, the diagnosis engine, the text parsers and the text of every panel.
//!
//! Decimal quantities are held as whole billionths of their unit ([`units::Reading`]) and
//! instants as nanoseconds since the Unix epoch ([`units::Timestamp`]), so that every rule
//! of the dashboard is exact integer arithmetic.

pub mod app;
pub mod config;
pub mod consistency;
pub mod diagnosis;
pub mod event;
pub mod format;
pub mod health;
pub mod history;
pub mod incidents;
pub mod map;
pub mod metrics;
pub mod net;
pub mod projection;
pub mod ruleset;
pub mod scan;
pub mod snapshot;
pub mod text;
pub mod ui;
pub mod units;
pub mod unsaid;
pub mod verdicts;
