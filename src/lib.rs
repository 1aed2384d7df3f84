pub mod error;
pub mod varint;
pub mod message;
pub mod credential;
pub mod callback;
pub mod session;
pub mod loopback;
pub mod ip_pattern;
pub mod launch;
pub mod records;
