pub mod ser_de;
pub mod data_types;
pub mod packets;
