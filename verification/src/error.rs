//! Failures that can be reported while a schema is validated or laid out.

use vstd::prelude::*;
use vstd::string::*;

verus! {

/// Why a schema was rejected.  Every variant names the schema item at fault.
#[derive(Debug, Clone, PartialEq, Eq)]
pub enum SchemaError {
    /// A name was looked up in the type table and is not declared there.
    UnknownType(String),
    /// A primitive type name was looked up among the encoded types and is not declared there.
    UnknownEncodedType(String),
    /// A chain of references starting at this name is longer than the type table,
    /// so it runs in a circle.
    ReferenceCycle(String),
    /// A size does not fit in `usize`.
    SizeOverflow,
    /// The null literal of an unresolved reference was asked for.
    NullOfReference(String),
    /// An enum value is declared with empty text.
    EmptyEnumValue(String),
    /// The text of an enum value is not an unsigned decimal number that fits in 64 bits.
    InvalidEnumValue(String),
    /// The package name, cut down to its last dotted segment, is empty.
    EmptyPackage,
    /// The header type is not declared.
    HeaderNotFound(String),
    /// The header type is declared, but not as a composite.
    HeaderNotComposite(String),
    /// A byte order other than `littleEndian` or `bigEndian`.
    InvalidByteOrder(String),
    /// A presence other than `constant`, `required` or `optional`.
    InvalidPresence(String),
    /// A character encoding other than `ASCII` or `UTF-8`.
    InvalidCharacterEncoding(String),
    /// The composite that describes a variable-length field is not declared.
    MissingVarDataType { type_ref: String, name: String },
    /// The composite that describes a variable-length field does not have exactly two
    /// sub-fields.
    VarDataShape(String),
    /// The first sub-field of a variable-length descriptor is not an encoded type.
    VarDataLengthNotEncoded(String),
    /// The second sub-field of a variable-length descriptor is not an encoded type.
    VarDataValueNotEncoded(String),
    /// The dimension composite of a group is not declared.
    MissingDimensionType { type_ref: String, group: String },
    /// The first sub-field of a group's dimension composite is not an encoded type.
    BlockLengthNotEncoded(String),
    /// The last sub-field of a group's dimension composite is not an encoded type.
    NumInGroupNotEncoded(String),
    /// A constant field of a composite carries no literal.
    ConstantWithoutValue(String),
    /// A constant sub-field of a composite is not of an encoded type.
    ConstantNotEncoded(String),
    /// A constant field of a message or group is not of an enum type.
    ConstantNotEnum(String),
    /// A constant field of a message or group names no enum value.
    ConstantWithoutRef(String),
    /// A constant field names a value that its enum does not declare.
    ConstantUnknownValue { field: String, value: String },
    /// The element type of a field occupies no bytes, so the field has no length.
    ZeroSizedElement(String),
}

/// The mathematical content of a [`SchemaError`]: names are sequences of characters.
pub enum Fault {
    UnknownType(Seq<char>),
    UnknownEncodedType(Seq<char>),
    ReferenceCycle(Seq<char>),
    SizeOverflow,
    NullOfReference(Seq<char>),
    EmptyEnumValue(Seq<char>),
    InvalidEnumValue(Seq<char>),
    EmptyPackage,
    HeaderNotFound(Seq<char>),
    HeaderNotComposite(Seq<char>),
    InvalidByteOrder(Seq<char>),
    InvalidPresence(Seq<char>),
    InvalidCharacterEncoding(Seq<char>),
    MissingVarDataType { type_ref: Seq<char>, name: Seq<char> },
    VarDataShape(Seq<char>),
    VarDataLengthNotEncoded(Seq<char>),
    VarDataValueNotEncoded(Seq<char>),
    MissingDimensionType { type_ref: Seq<char>, group: Seq<char> },
    BlockLengthNotEncoded(Seq<char>),
    NumInGroupNotEncoded(Seq<char>),
    ConstantWithoutValue(Seq<char>),
    ConstantNotEncoded(Seq<char>),
    ConstantNotEnum(Seq<char>),
    ConstantWithoutRef(Seq<char>),
    ConstantUnknownValue { field: Seq<char>, value: Seq<char> },
    ZeroSizedElement(Seq<char>),
}

impl View for SchemaError {
    type V = Fault;

    open spec fn view(&self) -> Fault {
        match *self {
            SchemaError::UnknownType(n) => Fault::UnknownType(n@),
            SchemaError::UnknownEncodedType(n) => Fault::UnknownEncodedType(n@),
            SchemaError::ReferenceCycle(n) => Fault::ReferenceCycle(n@),
            SchemaError::SizeOverflow => Fault::SizeOverflow,
            SchemaError::NullOfReference(n) => Fault::NullOfReference(n@),
            SchemaError::EmptyEnumValue(n) => Fault::EmptyEnumValue(n@),
            SchemaError::InvalidEnumValue(n) => Fault::InvalidEnumValue(n@),
            SchemaError::EmptyPackage => Fault::EmptyPackage,
            SchemaError::HeaderNotFound(n) => Fault::HeaderNotFound(n@),
            SchemaError::HeaderNotComposite(n) => Fault::HeaderNotComposite(n@),
            SchemaError::InvalidByteOrder(n) => Fault::InvalidByteOrder(n@),
            SchemaError::InvalidPresence(n) => Fault::InvalidPresence(n@),
            SchemaError::InvalidCharacterEncoding(n) => Fault::InvalidCharacterEncoding(n@),
            SchemaError::MissingVarDataType { type_ref, name } => Fault::MissingVarDataType {
                type_ref: type_ref@,
                name: name@,
            },
            SchemaError::VarDataShape(n) => Fault::VarDataShape(n@),
            SchemaError::VarDataLengthNotEncoded(n) => Fault::VarDataLengthNotEncoded(n@),
            SchemaError::VarDataValueNotEncoded(n) => Fault::VarDataValueNotEncoded(n@),
            SchemaError::MissingDimensionType { type_ref, group } => Fault::MissingDimensionType {
                type_ref: type_ref@,
                group: group@,
            },
            SchemaError::BlockLengthNotEncoded(n) => Fault::BlockLengthNotEncoded(n@),
            SchemaError::NumInGroupNotEncoded(n) => Fault::NumInGroupNotEncoded(n@),
            SchemaError::ConstantWithoutValue(n) => Fault::ConstantWithoutValue(n@),
            SchemaError::ConstantNotEncoded(n) => Fault::ConstantNotEncoded(n@),
            SchemaError::ConstantNotEnum(n) => Fault::ConstantNotEnum(n@),
            SchemaError::ConstantWithoutRef(n) => Fault::ConstantWithoutRef(n@),
            SchemaError::ConstantUnknownValue { field, value } => Fault::ConstantUnknownValue {
                field: field@,
                value: value@,
            },
            SchemaError::ZeroSizedElement(n) => Fault::ZeroSizedElement(n@),
        }
    }
}

impl Fault {
    /// What is said of the fault.
    pub open spec fn message(self) -> Seq<char> {
        match self {
            Fault::UnknownType(n) => "Unknown type "@ + n,
            Fault::UnknownEncodedType(n) => "Could not find encoded data type '"@ + n + "'"@,
            Fault::ReferenceCycle(n) => "References from type '"@ + n + "' run in a circle"@,
            Fault::SizeOverflow => "Size does not fit the machine"@,
            Fault::NullOfReference(n) => "Cannot get null for reference type "@ + n,
            Fault::EmptyEnumValue(n) => "Empty enum value "@ + n,
            Fault::InvalidEnumValue(n) => "Failed to parse enum value: "@ + n,
            Fault::EmptyPackage => "Package name was missing."@,
            Fault::HeaderNotFound(n) => "Header type '"@ + n + "' not found"@,
            Fault::HeaderNotComposite(n) => "Header type '"@ + n + "' is not a composite type"@,
            Fault::InvalidByteOrder(n) => "Invalid byte order: "@ + n,
            Fault::InvalidPresence(n) => "Invalid presence: "@ + n,
            Fault::InvalidCharacterEncoding(n) => "Invalid character encoding: "@ + n,
            Fault::MissingVarDataType { type_ref: t, name: n } => "Missing type '"@ + t + "' for variable data '"@ + n + "'"@,
            Fault::VarDataShape(n) => "Two sub-fields expected in variable data encoding '"@ + n + "'"@,
            Fault::VarDataLengthNotEncoded(n) => "Only encoded data type expected for the length type in variable data encoding '"@ + n + "'"@,
            Fault::VarDataValueNotEncoded(n) => "Only encoded data type expected for the value type in variable data encoding '"@ + n + "'"@,
            Fault::MissingDimensionType { type_ref: t, group: n } => "Missing dimension type '"@ + t + "' for group '"@ + n + "'"@,
            Fault::BlockLengthNotEncoded(n) => "Only encoded data type expected for the block length type in group '"@ + n + "'"@,
            Fault::NumInGroupNotEncoded(n) => "Only encoded data type expected for the num in group type in group '"@ + n + "'"@,
            Fault::ConstantWithoutValue(n) => "Constant field "@ + n + " has no default value"@,
            Fault::ConstantNotEncoded(n) => "Constant field "@ + n + " is not encoded data"@,
            Fault::ConstantNotEnum(n) => "Constant field "@ + n + " is not an enum"@,
            Fault::ConstantWithoutRef(n) => "Constant field "@ + n + " has no ref value"@,
            Fault::ConstantUnknownValue { field: n, value: t } => "Constant field "@ + n + " has no value "@ + t,
            Fault::ZeroSizedElement(n) => "Element type of '"@ + n + "' occupies no bytes"@,
        }
    }
}

impl SchemaError {
    /// What is said of the failure.
    pub fn message(&self) -> (r: String)
        ensures
            r@ == self@.message(),
    {
        match self {
            SchemaError::UnknownType(n) => String::from_str("Unknown type ").concat(n.as_str()),
            SchemaError::UnknownEncodedType(n) => String::from_str("Could not find encoded data type '").concat(n.as_str()).concat("'"),
            SchemaError::ReferenceCycle(n) => String::from_str("References from type '").concat(n.as_str()).concat("' run in a circle"),
            SchemaError::SizeOverflow => String::from_str("Size does not fit the machine"),
            SchemaError::NullOfReference(n) => String::from_str("Cannot get null for reference type ").concat(n.as_str()),
            SchemaError::EmptyEnumValue(n) => String::from_str("Empty enum value ").concat(n.as_str()),
            SchemaError::InvalidEnumValue(n) => String::from_str("Failed to parse enum value: ").concat(n.as_str()),
            SchemaError::EmptyPackage => String::from_str("Package name was missing."),
            SchemaError::HeaderNotFound(n) => String::from_str("Header type '").concat(n.as_str()).concat("' not found"),
            SchemaError::HeaderNotComposite(n) => String::from_str("Header type '").concat(n.as_str()).concat("' is not a composite type"),
            SchemaError::InvalidByteOrder(n) => String::from_str("Invalid byte order: ").concat(n.as_str()),
            SchemaError::InvalidPresence(n) => String::from_str("Invalid presence: ").concat(n.as_str()),
            SchemaError::InvalidCharacterEncoding(n) => String::from_str("Invalid character encoding: ").concat(n.as_str()),
            SchemaError::MissingVarDataType { type_ref: t, name: n } => String::from_str("Missing type '").concat(t.as_str()).concat("' for variable data '").concat(n.as_str()).concat("'"),
            SchemaError::VarDataShape(n) => String::from_str("Two sub-fields expected in variable data encoding '").concat(n.as_str()).concat("'"),
            SchemaError::VarDataLengthNotEncoded(n) => String::from_str("Only encoded data type expected for the length type in variable data encoding '").concat(n.as_str()).concat("'"),
            SchemaError::VarDataValueNotEncoded(n) => String::from_str("Only encoded data type expected for the value type in variable data encoding '").concat(n.as_str()).concat("'"),
            SchemaError::MissingDimensionType { type_ref: t, group: n } => String::from_str("Missing dimension type '").concat(t.as_str()).concat("' for group '").concat(n.as_str()).concat("'"),
            SchemaError::BlockLengthNotEncoded(n) => String::from_str("Only encoded data type expected for the block length type in group '").concat(n.as_str()).concat("'"),
            SchemaError::NumInGroupNotEncoded(n) => String::from_str("Only encoded data type expected for the num in group type in group '").concat(n.as_str()).concat("'"),
            SchemaError::ConstantWithoutValue(n) => String::from_str("Constant field ").concat(n.as_str()).concat(" has no default value"),
            SchemaError::ConstantNotEncoded(n) => String::from_str("Constant field ").concat(n.as_str()).concat(" is not encoded data"),
            SchemaError::ConstantNotEnum(n) => String::from_str("Constant field ").concat(n.as_str()).concat(" is not an enum"),
            SchemaError::ConstantWithoutRef(n) => String::from_str("Constant field ").concat(n.as_str()).concat(" has no ref value"),
            SchemaError::ConstantUnknownValue { field: n, value: t } => String::from_str("Constant field ").concat(n.as_str()).concat(" has no value ").concat(t.as_str()),
            SchemaError::ZeroSizedElement(n) => String::from_str("Element type of '").concat(n.as_str()).concat("' occupies no bytes"),
        }
    }
}

/// What a fallible size computation amounts to: the size as a natural number, or the fault.
pub open spec fn size_outcome(r: Result<usize, SchemaError>) -> Result<nat, Fault> {
    match r {
        Ok(n) => Ok(n as nat),
        Err(e) => Err(e@),
    }
}

/// What a fallible yes/no question amounts to.
pub open spec fn flag_outcome(r: Result<bool, SchemaError>) -> Result<bool, Fault> {
    match r {
        Ok(b) => Ok(b),
        Err(e) => Err(e@),
    }
}

/// What a fallible text computation amounts to.
pub open spec fn text_outcome(r: Result<String, SchemaError>) -> Result<Seq<char>, Fault> {
    match r {
        Ok(s) => Ok(s@),
        Err(e) => Err(e@),
    }
}

} // verus!
