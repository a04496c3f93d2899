pub mod codec;
pub mod compound;
pub mod de;
pub mod model;
pub mod reader;
pub mod ser;
pub mod seq_facts;
