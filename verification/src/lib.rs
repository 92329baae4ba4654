pub mod codec;
pub mod curve;
pub mod hash_to_curve;
pub mod hex_codec;
pub mod loader;
pub mod tokens;
pub mod transform;
