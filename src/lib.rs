//! Codec and exchange logic for the switch discovery and management protocol:
//! fixed 32-byte message headers, type-length-value records, the command
//! registry and the two interaction patterns built on top of them.
pub mod cmds;
pub mod config;
pub mod consts;
pub mod exchange;
pub mod laws;
pub mod request;
pub mod response;
pub mod secret;
pub mod tlv;
