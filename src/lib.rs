pub mod codec;
pub mod decode;
pub mod encode;
pub mod marker;
pub mod value;
