//! Typed access to an OpenMensa-style canteen API: the records it serves,
//! the endpoints it is reached through, how its responses are judged, and
//! the in-memory queries over the canteen list.

pub mod gateway;
pub mod model;
pub mod query;
