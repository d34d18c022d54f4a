//! Decoders for Bluetooth Low Energy advertising data: a tokenizer that
//! splits a raw advertisement payload into a sequence of typed AD
//! structures, and two small decoders for the payloads of flags and
//! local-name structures.

pub mod ad;
pub mod flags;
pub mod local_name;
pub mod tokenizer;

pub use ad::ADStructure;
pub use ad::ADType;
pub use flags::parse_flags;
pub use local_name::parse_local_name;
pub use tokenizer::parse_ad;
