pub mod handler;
pub mod handshake;
pub mod login;
pub mod socket;
