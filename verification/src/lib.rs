//! Resolution of the address that a client's connection is seen to come from.
//!
//! A request reaches the service either straight from the client or through
//! proxies that record the client in a forwarding header. [`ip`] picks the
//! address to report, [`user_agent`] what the client declared itself to be,
//! and [`connection_data`] puts both into a record together with the port.

pub mod forwarded;
pub mod headers;
pub mod report;
pub mod resolver;
pub mod text;

pub use report::{connection_data, greeting, plain_answer, Data};
pub use resolver::{extract_client_id, ip, resolve_client_ip, user_agent};
