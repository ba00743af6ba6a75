pub mod convert;
pub mod play;
pub mod decode;
