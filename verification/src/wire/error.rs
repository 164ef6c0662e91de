//! What can go wrong while a message is encoded or decoded.

use crate::text::{decimal, decimal_text};
use vstd::prelude::*;
use vstd::string::*;

verus! {

/// A failure of a codec.  Invalid data surfaces at once; nothing is retried.
#[derive(Debug, Clone, PartialEq, Eq)]
pub enum SbeError {
    /// Text that is not ASCII was given to an ASCII field, or bytes that are not UTF-8
    /// were read from a character field.
    InvalidStringValue(String),
    /// A number was read that is neither a declared value of the enum nor its null.
    InvalidEnumValue { named_type: String, value: String },
    /// A value lies outside the declared bounds, or a text is longer than its field.
    ValueOutOfBounds { field_name: String, message: String },
    /// A fixed-size conversion met a slice of another size.
    WrongSliceSize(String),
    /// A nested group was not walked before its container advanced.
    MissingGroupSize(String),
    /// A variable-length field was not walked before its container advanced.
    MissingVarDataSize(String),
    /// A group decoder was advanced past its last entry, or the number of entries does
    /// not fit its primitive.
    GroupOutOfBounds(String),
    /// The length of a variable-length field does not fit its primitive.
    VarDataOutOfBounds(String),
    /// The template id in the header is not the one of the message that is decoded:
    /// the id that was found, then the id that was expected.
    WrongMessageType(u16, u16),
    /// Bytes were asked for past the end of the buffer: the end that was asked for, then
    /// the length of the buffer.
    CodecOutOfBounds(usize, usize),
}

/// The mathematical content of an [`SbeError`].
pub enum SbeFault {
    InvalidStringValue(Seq<char>),
    InvalidEnumValue { named_type: Seq<char>, value: Seq<char> },
    ValueOutOfBounds { field_name: Seq<char>, message: Seq<char> },
    WrongSliceSize(Seq<char>),
    MissingGroupSize(Seq<char>),
    MissingVarDataSize(Seq<char>),
    GroupOutOfBounds(Seq<char>),
    VarDataOutOfBounds(Seq<char>),
    WrongMessageType(u16, u16),
    CodecOutOfBounds(usize, usize),
}

impl View for SbeError {
    type V = SbeFault;

    open spec fn view(&self) -> SbeFault {
        match *self {
            SbeError::InvalidStringValue(s) => SbeFault::InvalidStringValue(s@),
            SbeError::InvalidEnumValue { named_type, value } => SbeFault::InvalidEnumValue {
                named_type: named_type@,
                value: value@,
            },
            SbeError::ValueOutOfBounds { field_name, message } => SbeFault::ValueOutOfBounds {
                field_name: field_name@,
                message: message@,
            },
            SbeError::WrongSliceSize(s) => SbeFault::WrongSliceSize(s@),
            SbeError::MissingGroupSize(s) => SbeFault::MissingGroupSize(s@),
            SbeError::MissingVarDataSize(s) => SbeFault::MissingVarDataSize(s@),
            SbeError::GroupOutOfBounds(s) => SbeFault::GroupOutOfBounds(s@),
            SbeError::VarDataOutOfBounds(s) => SbeFault::VarDataOutOfBounds(s@),
            SbeError::WrongMessageType(got, expected) => SbeFault::WrongMessageType(got, expected),
            SbeError::CodecOutOfBounds(end, len) => SbeFault::CodecOutOfBounds(end, len),
        }
    }
}

impl SbeFault {
    /// What is said of the fault.
    pub open spec fn message(self) -> Seq<char> {
        match self {
            SbeFault::InvalidStringValue(n) => "invalid ascii string: "@ + n,
            SbeFault::InvalidEnumValue { named_type: t, value: n } => "invalid enum value for '"@ + t + "': "@ + n,
            SbeFault::ValueOutOfBounds { field_name: t, message: n } => "value out of bounds for field '"@ + t + "': "@ + n,
            SbeFault::WrongSliceSize(n) => "wrong slice size: "@ + n,
            SbeFault::MissingGroupSize(n) => "missing group size: "@ + n,
            SbeFault::MissingVarDataSize(n) => "missing var data size: "@ + n,
            SbeFault::GroupOutOfBounds(n) => "group out of bounds: "@ + n,
            SbeFault::VarDataOutOfBounds(n) => "var data out of bounds: "@ + n,
            SbeFault::WrongMessageType(got, expected) => "received message had wrong type: "@ + decimal_text(got as nat) + ", expected "@ + decimal_text(expected as nat),
            SbeFault::CodecOutOfBounds(end, len) => "codec out of bounds: "@ + decimal_text(end as nat) + " > "@ + decimal_text(len as nat),
        }
    }
}

impl SbeError {
    /// What is said of the failure.
    pub fn message(&self) -> (r: String)
        ensures
            r@ == self@.message(),
    {
        match self {
            SbeError::InvalidStringValue(n) => String::from_str("invalid ascii string: ").concat(n.as_str()),
            SbeError::InvalidEnumValue { named_type: t, value: n } => String::from_str("invalid enum value for '").concat(t.as_str()).concat("': ").concat(n.as_str()),
            SbeError::ValueOutOfBounds { field_name: t, message: n } => String::from_str("value out of bounds for field '").concat(t.as_str()).concat("': ").concat(n.as_str()),
            SbeError::WrongSliceSize(n) => String::from_str("wrong slice size: ").concat(n.as_str()),
            SbeError::MissingGroupSize(n) => String::from_str("missing group size: ").concat(n.as_str()),
            SbeError::MissingVarDataSize(n) => String::from_str("missing var data size: ").concat(n.as_str()),
            SbeError::GroupOutOfBounds(n) => String::from_str("group out of bounds: ").concat(n.as_str()),
            SbeError::VarDataOutOfBounds(n) => String::from_str("var data out of bounds: ").concat(n.as_str()),
            SbeError::WrongMessageType(got, expected) => String::from_str("received message had wrong type: ").concat(decimal(*got as usize).as_str()).concat(", expected ").concat(decimal(*expected as usize).as_str()),
            SbeError::CodecOutOfBounds(end, len) => String::from_str("codec out of bounds: ").concat(decimal(*end as usize).as_str()).concat(" > ").concat(decimal(*len as usize).as_str()),
        }
    }
}

} // verus!
