pub mod connection;
pub mod packet;
