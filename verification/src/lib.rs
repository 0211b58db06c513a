//! A lightweight publish/subscribe and request/response fabric: the rules of
//! its registry, of its publishers and of its clients, and its wire format,
//! stated as contracts over mathematical models and proved.

pub mod codec;
pub mod connection;
pub mod error;
pub mod pattern;
pub mod protocol;
pub mod publisher;
pub mod registry;
pub mod registry_server;
pub mod rpc;
pub mod schema;
pub mod server;
pub mod subscriber;
pub mod subscription;
pub mod text;
pub mod types;
pub mod value;
pub mod wire;
pub mod wire_info;
pub mod wire_message;
pub mod wire_value;
