//! Profile-driven file backups: the schedule engine, the decisions of the
//! scheduling controller and the rules of the archive producer.

pub mod api;
pub mod archive;
pub mod archive_name;
pub mod calendar;
pub mod config;
pub mod date_time_match;
pub mod delete;
pub mod dialog;
pub mod errors;
pub mod interval;
pub mod interval_laws;
pub mod months;
pub mod ordinal;
pub mod paths;
pub mod profile_config;
pub mod profile_id;
pub mod proto;
pub mod restore;
pub mod rule;
pub mod schedule;
pub mod specifier;
pub mod text;
pub mod weekdays;
