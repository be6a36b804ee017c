//! Core of a terminal client that tracks hours logged against projects:
//! a local cache of entries with its aggregate queries, the input widgets,
//! the refresh procedure and the message-driven update engine.

pub mod api;
pub mod calendar;
pub mod config;
pub mod hours;
pub mod model;
pub mod project;
pub mod refresh;
pub mod store;
pub mod text;
