//! Session establishment and transport for cameras that speak the Baichuan
//! ("BC") control protocol: credential hashing and ciphers, discovery of a
//! camera by UID, reliable delivery over datagrams, routing of replies, the
//! login exchange, and the session that numbers the requests.

pub mod cmdline;
pub mod connection;
pub mod crypto;
pub mod discovery;
pub mod envelope;
pub mod errors;
pub mod login;
pub mod session;
pub mod udp;
pub mod utils;
