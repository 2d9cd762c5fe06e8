//! The decision core of an ACME proxy, with machine-checked contracts.

pub mod debug;
pub mod faults;
pub mod headers;
pub mod ids;
pub mod ipam;
pub mod jobs;
pub mod json;
pub mod key_change;
pub mod level;
pub mod listener;
pub mod metrics;
pub mod middlewares;
pub mod notify;
pub mod pool;
pub mod problem;
pub mod script;
pub mod sorted;
pub mod text;
pub mod time;
pub mod web;
