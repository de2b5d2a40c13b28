//! A verified core for a vhost-user virtio block device backend.
//!
//! The crate models the device-facing logic of such a backend: the byte-exact
//! configuration-space record, feature negotiation, parsing of guest-supplied
//! descriptor chains into typed requests, execution of those requests against
//! a sector store, and completion signaling with event-index interrupt
//! suppression. Transport plumbing (sockets, epoll, shared-memory mapping)
//! lives outside this crate and hands the library plain values.

pub mod backend;
pub mod bytes;
pub mod config;
pub mod exec;
pub mod features;
pub mod mem;
pub mod parser;
pub mod queue;
pub mod request;
pub mod store;
pub mod worker;
