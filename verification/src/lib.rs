//! A CoAP server core: routing, observe registrations, reliable delivery and
//! resource discovery, with the protocol decisions stated and proved.
pub mod app;
pub mod server;
pub mod udp;
