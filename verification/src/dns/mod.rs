//! A small DNS client: the wire format of messages, with the compression of
//! names; what the payloads of records say; and the course of one exchange
//! with a server.

pub mod codes;
pub mod duration;
pub mod error;
pub mod header;
pub mod name;
pub mod packet;
pub mod question;
pub mod record;
pub mod render;
pub mod report;
pub mod server;
pub mod session;
pub mod wire;
