//! Verified building blocks of a coding-agent toolkit.
//!
//! - Marketplaces of plugins: how their sources are written
//!   ([`marketplace_source`]), how they are added to the plugin store
//!   ([`marketplace_add`], [`marketplace_add_flow`]) and by the command
//!   ([`marketplace_cmd`], [`marketplace_cmd_flow`], [`marketplace_copy`]), and
//!   what they share ([`marketplace_config`], [`marketplace_destination`],
//!   [`marketplace_git`], [`calendar`]).
//! - Watching: commands that are polled ([`watch`], [`watch_spec`]), files
//!   ([`event_monitor`]) and background terminals ([`exec_monitor`]).
//! - Model providers and their authentication: [`provider`], [`provider_auth`],
//!   [`api_bridge`], [`auth_env_telemetry`], [`environment`].
//!
//! What is decided stands here and is verified. Files, processes, timers and the
//! network are the caller's: functions take what was read and give what is to be
//! done.

pub mod api_bridge;
pub mod auth_env_telemetry;
pub mod calendar;
pub mod environment;
pub mod event_monitor;
pub mod exec_monitor;
pub mod marketplace_add;
pub mod marketplace_add_flow;
pub mod marketplace_cmd;
pub mod marketplace_cmd_flow;
pub mod marketplace_config;
pub mod marketplace_copy;
pub mod marketplace_destination;
pub mod marketplace_git;
pub mod marketplace_source;
pub mod path;
pub mod provider;
pub mod provider_auth;
pub mod status_account;
pub mod text;
pub mod watch;
pub mod watch_spec;
