//! Real-time delivery engine of a direct-messaging backend.
//!
//! Authenticated users exchange durable text messages. A connecting user is
//! first sent the stored conversations they take part in and is then handed
//! over to live delivery of newly stored messages, with no message lost in
//! between.
//!
//! - [`model`]: messages and the requests that create them.
//! - [`store`]: the message store as an append-only log, with a store in
//!   memory and its subscriptions.
//! - [`wire`] and [`json`]: the JSON objects that travel over a connection.
//! - [`session`]: the session of one connected user, as a state machine.
//! - [`local`]: sessions served from the store in memory.
//! - [`access`], [`auth`], [`mail`], [`upload`]: the rules of the routes that
//!   stand beside the messages.

pub mod access;
pub mod auth;
pub mod json;
pub mod local;
pub mod mail;
pub mod model;
pub mod session;
pub mod store;
pub mod upload;
pub mod wire;
