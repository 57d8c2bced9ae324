mod b64;
mod cipher;
mod codec;
mod error;
mod framing;
mod json;
mod padding;
mod prefix;

pub use cipher::decrypt;
pub use cipher::encrypt;
pub use codec::decode;
pub use codec::encode;
pub use error::CodecError;
pub use framing::add_framing;
pub use framing::strip_framing;
pub use json::JsonObject;
pub use prefix::decode_prefix;
pub use prefix::encode_prefix;
