//! A client for the Android Debug Bridge host protocol, written as pure
//! functions over bytes: framing of requests, status words, the SYNC file
//! transfer sub-protocol, shell escaping, and the request plans of the device
//! and host operations. Sockets are driven by the caller.

pub mod app_info;
pub mod beans;
pub mod bytes;
pub mod client;
pub mod command;
pub mod device;
pub mod text;
pub mod errors;
pub mod ip;
pub mod net_info;
pub mod outputs;
pub mod request;
pub mod shell_words;
pub mod sync;
pub mod wire;
