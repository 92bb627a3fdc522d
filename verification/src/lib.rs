//! A car rental record store: cars, customers and reservations kept in
//! stable memory, with owner-based mutation control.
//!
//! [`service::RentalStore`] is the store. What each of its operations does
//! is stated in [`model`], over plain maps of records; [`laws`] proves what
//! follows for every sequence of requests. [`codec`] gives the records their
//! bytes, [`rules`] holds the constraints on what callers send, and
//! [`durable`] holds the counters and maps of `ic_stable_structures` that
//! the records are kept in.

pub mod codec;
pub mod durable;
pub mod laws;
pub mod model;
pub mod records;
pub mod rules;
pub mod service;
pub mod text;
