//! Protocol data types, packet framing and server-side decision logic of a
//! Minecraft server, with machine-checked contracts.
pub mod common;
pub mod ecs;
pub mod packet_list;
pub mod packet_registry;
pub mod plugins;
pub mod protocol;
pub mod utils;
