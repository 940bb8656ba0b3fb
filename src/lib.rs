//! The core of a small static-file HTTP/1.0 server: reading a request off a
//! byte stream, classifying it, resolving the file it names, building the
//! response, the queue a pool of workers shares, and the settings and log
//! lines around them.

pub mod config;
pub mod error;
pub mod handler;
pub mod hex;
pub mod line;
pub mod log;
pub mod pool;
pub mod request;
pub mod resolve;
pub mod response;
pub mod text;
pub mod time;
