//! An active health monitor: validates HTTP(S) targets, classifies the
//! outcome of probing every address behind a host, aggregates those outcomes
//! worst-first, and decides which state changes deserve a notification.
//!
//! Network, clock, mail and serialisation work happens in the binary around
//! this library; everything here is plain computation with a contract.

pub mod alert;
pub mod checkengine;
pub mod config;
pub mod http;
pub mod metrics;
pub mod report;
pub mod text;
