//! EUI-48 hardware (MAC) addresses: a six-octet value type with its wire
//! form, its two administrative bit flags and its canonical text form.

pub mod address;
pub mod codec;
pub mod compare;
pub mod error;
pub mod text;

pub use crate::address::MacAddress;
pub use crate::error::MacParseError;
