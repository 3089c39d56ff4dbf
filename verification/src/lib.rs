//! Verified core of a caching proxy's stream layer.
//!
//! The library holds the state machines that move requests and responses
//! between a client and its cache servers. It performs no I/O itself: every
//! machine is told what a socket, a parser or a neighbouring component
//! answered, and says in return what to do next.
pub mod bridge;
pub mod bridge_laws;
pub mod endpoint;
pub mod error;
pub mod multi_get;
pub mod multi_get_laws;
pub mod poll;
pub mod read_buf;
pub mod receiver;
pub mod receiver_laws;
pub mod request;
pub mod response;
