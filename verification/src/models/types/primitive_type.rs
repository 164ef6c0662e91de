//! The primitive kinds of the encoding, and names that stand for one.

use crate::duplicate::Duplicate;
use crate::error::{text_outcome, Fault, SchemaError};
use crate::generator::{Python, Rust};
use crate::models::sizing::native_size_within;
use crate::models::table::{lookup, Table};
use crate::models::types::encoded_data_type::{EncodedDataType, EncodedDataTypeView};
use crate::models::types::SizedEncoded;
use crate::models::{TypeMap, TypeMapView};
use crate::models::constants::{
    CHAR_NULL, CHAR_SIZE, F32_NULL, F32_SIZE, F64_NULL, F64_SIZE, I16_NULL, I16_SIZE, I32_NULL,
    I32_SIZE, I64_NULL, I64_SIZE, I8_NULL, I8_SIZE, U16_NULL, U16_SIZE, U32_NULL, U32_SIZE,
    U64_NULL, U64_SIZE, U8_NULL, U8_SIZE,
};
use crate::text::same_text;
use vstd::prelude::*;
use vstd::string::*;

verus! {

/// A primitive kind, or the name of an encoded type that has yet to be resolved to one.
#[derive(PartialEq, Debug, Clone)]
pub enum NativeType {
    Char,
    UInt8,
    UInt16,
    UInt32,
    UInt64,
    Int8,
    Int16,
    Int32,
    Int64,
    Float,
    Double,
    Reference(String),
}

/// The mathematical content of a [`NativeType`].
pub enum NativeTypeView {
    Char,
    UInt8,
    UInt16,
    UInt32,
    UInt64,
    Int8,
    Int16,
    Int32,
    Int64,
    Float,
    Double,
    Reference(Seq<char>),
}

impl View for NativeType {
    type V = NativeTypeView;

    open spec fn view(&self) -> NativeTypeView {
        match *self {
            NativeType::Char => NativeTypeView::Char,
            NativeType::UInt8 => NativeTypeView::UInt8,
            NativeType::UInt16 => NativeTypeView::UInt16,
            NativeType::UInt32 => NativeTypeView::UInt32,
            NativeType::UInt64 => NativeTypeView::UInt64,
            NativeType::Int8 => NativeTypeView::Int8,
            NativeType::Int16 => NativeTypeView::Int16,
            NativeType::Int32 => NativeTypeView::Int32,
            NativeType::Int64 => NativeTypeView::Int64,
            NativeType::Float => NativeTypeView::Float,
            NativeType::Double => NativeTypeView::Double,
            NativeType::Reference(n) => NativeTypeView::Reference(n@),
        }
    }
}

impl Duplicate for NativeType {
    fn duplicate(&self) -> (r: Self) {
        match self {
            NativeType::Char => NativeType::Char,
            NativeType::UInt8 => NativeType::UInt8,
            NativeType::UInt16 => NativeType::UInt16,
            NativeType::UInt32 => NativeType::UInt32,
            NativeType::UInt64 => NativeType::UInt64,
            NativeType::Int8 => NativeType::Int8,
            NativeType::Int16 => NativeType::Int16,
            NativeType::Int32 => NativeType::Int32,
            NativeType::Int64 => NativeType::Int64,
            NativeType::Float => NativeType::Float,
            NativeType::Double => NativeType::Double,
            NativeType::Reference(n) => NativeType::Reference(n.clone()),
        }
    }
}

impl NativeTypeView {
    /// The width in bytes of a primitive kind; a reference has none of its own.
    pub open spec fn width(self) -> nat {
        match self {
            NativeTypeView::Char => 1,
            NativeTypeView::UInt8 => 1,
            NativeTypeView::UInt16 => 2,
            NativeTypeView::UInt32 => 4,
            NativeTypeView::UInt64 => 8,
            NativeTypeView::Int8 => 1,
            NativeTypeView::Int16 => 2,
            NativeTypeView::Int32 => 4,
            NativeTypeView::Int64 => 8,
            NativeTypeView::Float => 4,
            NativeTypeView::Double => 8,
            NativeTypeView::Reference(_) => 0,
        }
    }

    /// The literal that stands for "no value" in a field of this kind.
    pub open spec fn null_literal(self) -> Result<Seq<char>, Fault> {
        match self {
            NativeTypeView::Char => Ok("u8::MIN"@),
            NativeTypeView::UInt8 => Ok("u8::MAX"@),
            NativeTypeView::UInt16 => Ok("u16::MAX"@),
            NativeTypeView::UInt32 => Ok("u32::MAX"@),
            NativeTypeView::UInt64 => Ok("u64::MAX"@),
            NativeTypeView::Int8 => Ok("i8::MIN"@),
            NativeTypeView::Int16 => Ok("i16::MIN"@),
            NativeTypeView::Int32 => Ok("i32::MIN"@),
            NativeTypeView::Int64 => Ok("i64::MIN"@),
            NativeTypeView::Float => Ok("f32::NAN"@),
            NativeTypeView::Double => Ok("f64::NAN"@),
            NativeTypeView::Reference(n) => Err(Fault::NullOfReference(n)),
        }
    }

    /// Integers and characters can be hashed; floating-point kinds and references cannot.
    pub open spec fn hashable(self) -> bool {
        !(self is Float || self is Double || self is Reference)
    }

    /// The kind that a schema's type name stands for: one of the eleven primitive names,
    /// or else a reference to a declared type of that name.
    pub open spec fn of_name(s: Seq<char>) -> NativeTypeView {
        if s == "char"@ {
            NativeTypeView::Char
        } else if s == "uint8"@ {
            NativeTypeView::UInt8
        } else if s == "uint16"@ {
            NativeTypeView::UInt16
        } else if s == "uint32"@ {
            NativeTypeView::UInt32
        } else if s == "uint64"@ {
            NativeTypeView::UInt64
        } else if s == "int8"@ {
            NativeTypeView::Int8
        } else if s == "int16"@ {
            NativeTypeView::Int16
        } else if s == "int32"@ {
            NativeTypeView::Int32
        } else if s == "int64"@ {
            NativeTypeView::Int64
        } else if s == "float"@ {
            NativeTypeView::Float
        } else if s == "double"@ {
            NativeTypeView::Double
        } else {
            NativeTypeView::Reference(s)
        }
    }
}

impl NativeType {
    /// The null literal of this kind, as it is written into emitted code.
    pub fn null(&self) -> (r: Result<String, SchemaError>)
        ensures
            text_outcome(r) == self@.null_literal(),
    {
        Ok(
            match self {
                NativeType::Char => String::from_str(CHAR_NULL),
                NativeType::UInt8 => String::from_str(U8_NULL),
                NativeType::UInt16 => String::from_str(U16_NULL),
                NativeType::UInt32 => String::from_str(U32_NULL),
                NativeType::UInt64 => String::from_str(U64_NULL),
                NativeType::Int8 => String::from_str(I8_NULL),
                NativeType::Int16 => String::from_str(I16_NULL),
                NativeType::Int32 => String::from_str(I32_NULL),
                NativeType::Int64 => String::from_str(I64_NULL),
                NativeType::Float => String::from_str(F32_NULL),
                NativeType::Double => String::from_str(F64_NULL),
                NativeType::Reference(n) => { return Err(SchemaError::NullOfReference(n.clone())) },
            },
        )
    }

    /// The width in bytes of a primitive kind; a reference has none of its own.
    pub fn width(&self) -> (n: usize)
        ensures
            n == self@.width(),
    {
        match self {
            NativeType::Char => CHAR_SIZE,
            NativeType::UInt8 => U8_SIZE,
            NativeType::UInt16 => U16_SIZE,
            NativeType::UInt32 => U32_SIZE,
            NativeType::UInt64 => U64_SIZE,
            NativeType::Int8 => I8_SIZE,
            NativeType::Int16 => I16_SIZE,
            NativeType::Int32 => I32_SIZE,
            NativeType::Int64 => I64_SIZE,
            NativeType::Float => F32_SIZE,
            NativeType::Double => F64_SIZE,
            NativeType::Reference(_) => 0,
        }
    }

    /// Whether values of this kind can be hashed.
    pub fn is_hashable(&self) -> (r: bool)
        ensures
            r == self@.hashable(),
    {
        match self {
            NativeType::Char
            | NativeType::UInt8
            | NativeType::UInt16
            | NativeType::UInt32
            | NativeType::UInt64
            | NativeType::Int8
            | NativeType::Int16
            | NativeType::Int32
            | NativeType::Int64 => true,
            NativeType::Float | NativeType::Double | NativeType::Reference(_) => false,
        }
    }

    /// Reads a type name as it stands in a schema.
    pub fn from_name(s: &str) -> (r: NativeType)
        ensures
            r@ == NativeTypeView::of_name(s@),
    {
        if same_text(s, "char") {
            NativeType::Char
        } else if same_text(s, "uint8") {
            NativeType::UInt8
        } else if same_text(s, "uint16") {
            NativeType::UInt16
        } else if same_text(s, "uint32") {
            NativeType::UInt32
        } else if same_text(s, "uint64") {
            NativeType::UInt64
        } else if same_text(s, "int8") {
            NativeType::Int8
        } else if same_text(s, "int16") {
            NativeType::Int16
        } else if same_text(s, "int32") {
            NativeType::Int32
        } else if same_text(s, "int64") {
            NativeType::Int64
        } else if same_text(s, "float") {
            NativeType::Float
        } else if same_text(s, "double") {
            NativeType::Double
        } else {
            NativeType::Reference(String::from_str(s))
        }
    }
}

/// The primitive kind that `p` stands for.  A reference is followed through the encoded
/// types, one step for each unit of `fuel`, until a primitive kind is reached.
pub open spec fn resolved_kind(
    encoded: Seq<(Seq<char>, EncodedDataTypeView)>,
    p: NativeTypeView,
    fuel: nat,
) -> Result<NativeTypeView, Fault>
    decreases fuel,
{
    match p {
        NativeTypeView::Reference(name) => if fuel == 0 {
            Err(Fault::ReferenceCycle(name))
        } else {
            match lookup(encoded, name) {
                Some(e) => resolved_kind(encoded, e.primitive_type, (fuel - 1) as nat),
                None => Err(Fault::UnknownEncodedType(name)),
            }
        },
        _ => Ok(p),
    }
}

/// What has been resolved is a primitive kind, never a reference.
pub proof fn lemma_resolved_is_primitive(
    encoded: Seq<(Seq<char>, EncodedDataTypeView)>,
    p: NativeTypeView,
    fuel: nat,
)
    ensures
        resolved_kind(encoded, p, fuel) matches Ok(k) ==> !(k is Reference),
    decreases fuel,
{
    if let NativeTypeView::Reference(name) = p {
        if fuel > 0 {
            if let Some(e) = lookup(encoded, name) {
                lemma_resolved_is_primitive(encoded, e.primitive_type, (fuel - 1) as nat);
            }
        }
    }
}

/// Follows a reference for at most `fuel` steps.
pub fn resolved_within(p: &NativeType, encoded_types: &Table<EncodedDataType>, fuel: usize) -> (r:
    Result<NativeType, SchemaError>)
    ensures
        match r {
            Ok(k) => resolved_kind(encoded_types@, p@, fuel as nat) == Ok::<NativeTypeView, Fault>(
                k@,
            ) && !(k is Reference),
            Err(e) => resolved_kind(encoded_types@, p@, fuel as nat) == Err::<
                NativeTypeView,
                Fault,
            >(e@),
        },
    decreases fuel,
{
    proof {
        lemma_resolved_is_primitive(encoded_types@, p@, fuel as nat);
    }
    match p {
        NativeType::Reference(name) => {
            if fuel == 0 {
                return Err(SchemaError::ReferenceCycle(name.clone()));
            }
            match encoded_types.get(name.as_str()) {
                Some(e) => resolved_within(&e.primitive_type, encoded_types, fuel - 1),
                None => Err(SchemaError::UnknownEncodedType(name.clone())),
            }
        },
        _ => Ok(p.duplicate()),
    }
}

/// A type that may stand for another and can be resolved to it.
pub trait ResolvableType: View + Sized {
    /// What `self` resolves to among the given encoded types.
    spec fn resolution(&self, encoded: Seq<(Seq<char>, EncodedDataTypeView)>) -> Result<
        Self::V,
        Fault,
    >;

    fn resolved(&self, encoded_types: &Table<EncodedDataType>) -> (r: Result<Self, SchemaError>)
        ensures
            match r {
                Ok(k) => self.resolution(encoded_types@) == Ok::<Self::V, Fault>(k@),
                Err(e) => self.resolution(encoded_types@) == Err::<Self::V, Fault>(e@),
            },
    ;
}

impl ResolvableType for NativeType {
    /// A chain of references may be as long as the table of encoded types, and no longer.
    open spec fn resolution(&self, encoded: Seq<(Seq<char>, EncodedDataTypeView)>) -> Result<
        NativeTypeView,
        Fault,
    > {
        resolved_kind(encoded, self@, encoded.len())
    }

    fn resolved(&self, encoded_types: &Table<EncodedDataType>) -> (r: Result<Self, SchemaError>) {
        resolved_within(self, encoded_types, encoded_types.len())
    }
}

/// The name of a primitive in the code that a backend emits.
#[derive(Debug, Copy, Clone)]
pub struct LanguagePrimitive {
    pub name: &'static str,
}

impl LanguagePrimitive {
    pub fn new(name: &'static str) -> (r: Self)
        ensures
            r.name@ == name@,
    {
        LanguagePrimitive { name }
    }
}

/// A type that has a name in the language `L`.
pub trait PrimitiveConvertible<L>: ResolvableType {
    /// The name in `L` of what `self` resolves to.
    spec fn primitive_name(&self, encoded: Seq<(Seq<char>, EncodedDataTypeView)>) -> Result<
        Seq<char>,
        Fault,
    >;

    fn lang_primitive(&self, encoded_types: &Table<EncodedDataType>) -> (r: Result<
        LanguagePrimitive,
        SchemaError,
    >)
        ensures
            match r {
                Ok(p) => self.primitive_name(encoded_types@) == Ok::<Seq<char>, Fault>(p.name@),
                Err(e) => self.primitive_name(encoded_types@) == Err::<Seq<char>, Fault>(e@),
            },
    ;
}

impl NativeTypeView {
    /// The name of a primitive kind in the systems language.  Characters are bytes.
    pub open spec fn rust_name(self) -> Seq<char> {
        match self {
            NativeTypeView::Char => "u8"@,
            NativeTypeView::UInt8 => "u8"@,
            NativeTypeView::UInt16 => "u16"@,
            NativeTypeView::UInt32 => "u32"@,
            NativeTypeView::UInt64 => "u64"@,
            NativeTypeView::Int8 => "i8"@,
            NativeTypeView::Int16 => "i16"@,
            NativeTypeView::Int32 => "i32"@,
            NativeTypeView::Int64 => "i64"@,
            NativeTypeView::Float => "f32"@,
            NativeTypeView::Double => "f64"@,
            NativeTypeView::Reference(_) => ""@,
        }
    }

    /// The name of a primitive kind in the scripting language: every integer kind is an
    /// `int`, both floating-point kinds are a `float`.
    pub open spec fn python_name(self) -> Seq<char> {
        match self {
            NativeTypeView::Float => "float"@,
            NativeTypeView::Double => "float"@,
            NativeTypeView::Reference(_) => ""@,
            _ => "int"@,
        }
    }
}

impl NativeType {
    /// The name in the systems language of a kind that is no reference.
    pub fn rust_primitive(&self) -> (r: LanguagePrimitive)
        ensures
            r.name@ == self@.rust_name(),
    {
        LanguagePrimitive::new(
            match self {
                NativeType::Char | NativeType::UInt8 => "u8",
                NativeType::UInt16 => "u16",
                NativeType::UInt32 => "u32",
                NativeType::UInt64 => "u64",
                NativeType::Int8 => "i8",
                NativeType::Int16 => "i16",
                NativeType::Int32 => "i32",
                NativeType::Int64 => "i64",
                NativeType::Float => "f32",
                NativeType::Double => "f64",
                NativeType::Reference(_) => "",
            },
        )
    }

    /// The name in the scripting language of a kind that is no reference.
    pub fn python_primitive(&self) -> (r: LanguagePrimitive)
        ensures
            r.name@ == self@.python_name(),
    {
        LanguagePrimitive::new(
            match self {
                NativeType::Char
                | NativeType::UInt8
                | NativeType::UInt16
                | NativeType::UInt32
                | NativeType::UInt64
                | NativeType::Int8
                | NativeType::Int16
                | NativeType::Int32
                | NativeType::Int64 => "int",
                NativeType::Float | NativeType::Double => "float",
                NativeType::Reference(_) => "",
            },
        )
    }
}

impl PrimitiveConvertible<Rust> for NativeType {
    open spec fn primitive_name(&self, encoded: Seq<(Seq<char>, EncodedDataTypeView)>) -> Result<
        Seq<char>,
        Fault,
    > {
        match resolved_kind(encoded, self@, encoded.len()) {
            Ok(k) => Ok(k.rust_name()),
            Err(f) => Err(f),
        }
    }

    fn lang_primitive(&self, encoded_types: &Table<EncodedDataType>) -> (r: Result<
        LanguagePrimitive,
        SchemaError,
    >) {
        match self.resolved(encoded_types) {
            Ok(native_type) => Ok(native_type.rust_primitive()),
            Err(e) => Err(e),
        }
    }
}

impl PrimitiveConvertible<Python> for NativeType {
    open spec fn primitive_name(&self, encoded: Seq<(Seq<char>, EncodedDataTypeView)>) -> Result<
        Seq<char>,
        Fault,
    > {
        match resolved_kind(encoded, self@, encoded.len()) {
            Ok(k) => Ok(k.python_name()),
            Err(f) => Err(f),
        }
    }

    fn lang_primitive(&self, encoded_types: &Table<EncodedDataType>) -> (r: Result<
        LanguagePrimitive,
        SchemaError,
    >) {
        match self.resolved(encoded_types) {
            Ok(native_type) => Ok(native_type.python_primitive()),
            Err(e) => Err(e),
        }
    }
}

impl SizedEncoded for NativeType {
    open spec fn encoded_size(&self, types: TypeMapView) -> Result<nat, Fault> {
        types.native_size(self@, types.count())
    }

    fn size(&self, types: &TypeMap) -> (r: Result<usize, SchemaError>) {
        native_size_within(self, types, types.count())
    }
}

impl std::str::FromStr for NativeType {
    type Err = SchemaError;

    fn from_str(s: &str) -> (r: Result<Self, SchemaError>)
        ensures
            r matches Ok(t) && t@ == NativeTypeView::of_name(s@),
    {
        Ok(NativeType::from_name(s))
    }
}

} // verus!
