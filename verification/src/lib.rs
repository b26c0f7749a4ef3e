//! Reversible disguise of time-ordered 128-bit identifiers.
//!
//! A version-7 identifier carries its creation time in its leading 48 bits.
//! This library masks that timestamp with a keyed pseudorandom function
//! (SipHash-2-4) so that the value is indistinguishable from a random
//! version-4 identifier, and unmasks it again for holders of the key.

mod codec;
mod error;
mod key;
mod siphash;
mod utils;
mod uuid;

pub use error::UuidParseError;
pub use error::UuidValidationError;
pub use key::UuidV47Key;
pub use utils::hexval;
pub use utils::read_48_big_endian;
pub use utils::write_48_big_endian;
pub use siphash::siphash24;
pub use uuid::Uuid128;
pub use codec::uuid_format;
pub use codec::uuid_parse;
