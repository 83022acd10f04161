//! Binds service implementations to an MQTT-carried module system: a schema
//! model with its YAML loader, a code emitter, the command envelope, and the
//! decisions of the runtime dispatch loop.

pub mod builder;
pub mod codegen;
pub mod dispatch;
pub mod envelope;
pub mod error;
pub mod json;
pub mod module;
pub mod number;
pub mod text;
pub mod yaml;
pub mod schema;
pub mod session;
pub mod table;
