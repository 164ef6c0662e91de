//! The write buffer of the emitted codecs: the one place where bytes are written.

use crate::models::ByteOrder;
use vstd::prelude::*;

verus! {

/// The name of the conversion that gives the bytes of a primitive in the given order.
pub open spec fn write_conversion_name(order: ByteOrder) -> Seq<char> {
    match order {
        ByteOrder::BigEndian => "to_be_bytes"@,
        ByteOrder::LittleEndian => "to_le_bytes"@,
    }
}

/// The conversion by which the write buffer gets the bytes of every primitive.
pub fn write_conversion(order: ByteOrder) -> (r: &'static str)
    ensures
        r@ == write_conversion_name(order),
{
    match order {
        ByteOrder::BigEndian => "to_be_bytes",
        ByteOrder::LittleEndian => "to_le_bytes",
    }
}

} // verus!
