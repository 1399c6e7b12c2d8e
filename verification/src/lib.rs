//! A minimal HTTP/1.1 protocol layer: request parsing, routing and response
//! serialisation, with every function verified against a mathematical model
//! of the wire format.

pub mod encoding;
pub mod headers;
pub mod request;
pub mod response;
pub mod router;
pub mod store;
pub mod text;
pub mod vocabulary;
