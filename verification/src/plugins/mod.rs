pub mod networking;
