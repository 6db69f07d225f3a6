//! The one-byte tags that precede every value on the wire.
//!
//! The numbering is the canonical wire contract of the format.  The three
//! data-carrying enum variant kinds (newtype, tuple, struct) have distinct
//! tags, so a stream is fully self-describing: no external variant-shape
//! table is needed to decode it.

use vstd::prelude::*;

verus! {

pub const NULL_ID: u8 = 0;
pub const BOOL_ID: u8 = 1;
pub const I8_ID: u8 = 2;
pub const I16_ID: u8 = 3;
pub const I32_ID: u8 = 4;
pub const I64_ID: u8 = 5;
pub const U8_ID: u8 = 6;
pub const U16_ID: u8 = 7;
pub const U32_ID: u8 = 8;
pub const U64_ID: u8 = 9;
pub const F32_ID: u8 = 10;
pub const F64_ID: u8 = 11;
pub const CHAR_ID: u8 = 12;
pub const STR_ID: u8 = 13;
pub const BYTES_ID: u8 = 14;
pub const SEQ_ID: u8 = 15;
pub const TUPLE_ID: u8 = 16;
pub const UNIT_VARIANT_ID: u8 = 17;
pub const NEWTYPE_VARIANT_ID: u8 = 18;
pub const TUPLE_VARIANT_ID: u8 = 19;
pub const STRUCT_VARIANT_ID: u8 = 20;
pub const TUPLE_STRUCT_ID: u8 = 21;
pub const MAP_ID: u8 = 22;

} // verus!
