//! Core of a notification gateway: a broadcast hub that fans events out to a
//! dynamic set of subscribers, a per-connection agent that drives a
//! heartbeat/liveness state machine, and a cache-aside accessor with a fixed
//! TTL. The surrounding I/O (sockets, the backing store, the HTTP server) is
//! driven by a host program; every decision the core makes is verified here.

pub mod cache;
pub mod codec;
pub mod gateway;
pub mod notification;
pub mod repeater;
