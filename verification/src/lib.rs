//! The data plane of a reverse tunnelling service. A relay on a public host
//! takes requests for `https://<subdomain>.<base-domain>`, hands each to the
//! agent that serves the subdomain over one control channel, and writes back
//! what the agent got from the local service.
//!
//! The library holds what is decided and computed on that way, with contracts
//! for each step: HTTP framing ([`http`], [`host`], [`request`], [`response`]),
//! the control channel's messages ([`protocol`], [`encoding`]), tickets
//! ([`ticket`]), the relay's registry ([`registry`]), the life of a browser's
//! connection ([`edge`], [`pages`], [`logging`]), the relay's and the agent's
//! side of a control session ([`session`], [`agent`], [`forwarder`]), and what
//! holds between them ([`report`], [`lines`]). Around these stand the agent's
//! settings and login ([`auth`], [`login`], [`display`]) and the relay's
//! configuration ([`config`], [`metrics`]). Sockets, timers and tasks are the
//! caller's part.

pub mod agent;
pub mod auth;
pub mod bytes;
pub mod clock;
pub mod config;
pub mod display;
pub mod edge;
pub mod encoding;
pub mod forwarder;
pub mod host;
pub mod http;
pub mod lines;
pub mod logging;
pub mod login;
pub mod metrics;
pub mod pages;
pub mod protocol;
pub mod registry;
pub mod report;
pub mod request;
pub mod response;
pub mod session;
pub mod ticket;
