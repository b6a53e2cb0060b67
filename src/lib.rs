pub mod acquire;
pub mod archive;
pub mod convert;
pub mod log;
pub mod text;
