pub mod all;
pub mod configuration;
pub mod handshake;
pub mod login;
pub mod play;
pub mod routing;
pub mod status;
pub mod route_check;
