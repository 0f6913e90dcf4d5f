//! Wire protocol of the worm game: binary primitives, message codecs, frame
//! validation and per-connection stream reassembly.

pub mod error;
pub mod util;
pub mod validator;
pub mod message;
pub mod worm_body;
pub mod message_from_client;
pub mod message_from_server;
pub mod connection;
