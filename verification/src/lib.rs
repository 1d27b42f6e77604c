//! A property value for every byte of a text, kept uniform across the bytes
//! of each character.
//!
//! [`StringProperty`] holds the slots, one for each byte, and is read and
//! written by byte offset. `model` says what each accessor makes of a
//! sequence of slots, `laws` what follows for the accessors taken together,
//! `uniform` when the slots agree with the characters of the text, and
//! `width` how many bytes a character takes.

pub mod error;
pub mod laws;
pub mod model;
pub mod property;
pub mod uniform;
pub mod width;

pub use error::BoundsError;
pub use error::ValuesError;
pub use property::StringProperty;
