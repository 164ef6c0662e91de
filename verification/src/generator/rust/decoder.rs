//! The read buffer of the emitted codecs: the one place where bytes are read.

use crate::models::ByteOrder;
use vstd::prelude::*;

verus! {

/// The name of the conversion that makes a primitive from its bytes in the given order.
pub open spec fn read_conversion_name(order: ByteOrder) -> Seq<char> {
    match order {
        ByteOrder::BigEndian => "from_be_bytes"@,
        ByteOrder::LittleEndian => "from_le_bytes"@,
    }
}

/// The conversion by which the read buffer makes every primitive from its bytes.
pub fn read_conversion(order: ByteOrder) -> (r: &'static str)
    ensures
        r@ == read_conversion_name(order),
{
    match order {
        ByteOrder::BigEndian => "from_be_bytes",
        ByteOrder::LittleEndian => "from_le_bytes",
    }
}

} // verus!
