//! Session management for peer-to-peer discovery over a local wireless substrate:
//! service descriptors, the connection registry, event dispatch, the session façade and
//! the transport binding it drives.

pub mod delegate;
pub mod discovery;
pub mod peer;
pub mod registry;
pub mod service;
pub mod session;
pub mod transport;
