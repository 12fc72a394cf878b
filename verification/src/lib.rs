//! Hades: turn the machine you already own into a personal cloud.

pub mod text;
pub mod number;
pub mod split;
pub mod order;
pub mod rounding;
pub mod size;
pub mod double;
pub mod values;
pub mod error;
pub mod time;
pub mod events;
pub mod maps;
pub mod app_spec;
pub mod config;
pub mod paths;
pub mod types;
pub mod policy;
pub mod names;
pub mod proxy;
pub mod gateway;
pub mod uptime;
pub mod notify;
pub mod probe;
pub mod doctor;
pub mod random;
pub mod launchd;
pub mod init;
pub mod hexa;
pub mod secrets;
pub mod runtime;
pub mod json;
pub mod tunnel;
pub mod cloudflare;
pub mod coordinator;
pub mod state;
pub mod fleet;
pub mod ledger;
pub mod rollout;
pub mod daemon;
pub mod deploy;
pub mod reconcile;
pub mod watchdog;
pub mod power;
pub mod reports;
pub mod selftest;
pub mod startup;
pub mod api;
pub mod client;
pub mod render;
pub mod cli;
pub mod update;
