//! Core of a shared-ride taxi dispatch service: the travel-time index between
//! stops, the order / route / leg lifecycle, arrival estimates, per-stop
//! traffic and rolling latency statistics.
//!
//! The service around this core talks to the relational store and to its
//! clients; the core decides. Every function here takes what the store
//! returned as plain values and answers with plain values.

pub mod time;
pub mod auth;
pub mod model;
pub mod rows;
pub mod distance;
pub mod sorting;
pub mod text;
pub mod service;
pub mod traffic;
pub mod stats;
