//! A network echo service, reduced to its decisions.
//!
//! Every inbound payload is classified into an [`events::Event`], handed to a
//! single sink over a bounded queue, and echoed back unchanged. The sockets
//! and the scheduler stay outside this crate: a driver performs each
//! [`servers`] action and reports how it completed.

pub mod event_handler;
pub mod events;
pub mod servers;

pub use servers::tcp_server::start_tcp_server;
pub use servers::udp_server::start_udp_server;
