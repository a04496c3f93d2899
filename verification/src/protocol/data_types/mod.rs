pub mod angle;
pub mod array;
pub mod game_profile;
pub mod identifier;
pub mod num_types;
pub mod position;
pub mod prefixed_array;
pub mod proto_string;
pub mod std_types;
pub mod uuid;
pub mod var_int;
pub mod var_long;
