pub mod download;
pub mod encoder;
pub mod stream;
pub mod track;
pub mod utils;
