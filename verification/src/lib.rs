//! Core logic of an uptime monitor: scheduling by wall-clock seconds,
//! probe outcome classification, the status-transition engine, an
//! append-only probe log with incident aggregation, and a lossy
//! broadcast bus for operator events.

pub mod auth;
pub mod bus;
pub mod config;
pub mod entity;
pub mod jsonfmt;
pub mod log;
pub mod probe;
pub mod queue;
pub mod schedule;
pub mod service;
pub mod status;
pub mod ssl;
pub mod transition;
pub mod user;
pub mod ws;
