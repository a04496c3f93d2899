pub mod asset_types;
pub mod position;
pub mod text;
pub mod nbt;
