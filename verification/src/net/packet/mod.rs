pub mod bi;
pub mod bytes;
pub mod s2c;
pub mod c2s;
