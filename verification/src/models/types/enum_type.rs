//! Enums: closed sets of named values.

use crate::duplicate::{duplicate_all, views_of, Duplicate};
use crate::models::types::primitive_type::{NativeType, NativeTypeView};
use crate::text::{copy_text, opt_text};
use crate::error::{Fault, SchemaError};
use crate::models::types::SizedEncoded;
use crate::models::{TypeMap, TypeMapView};
use crate::models::sizing::native_size_within;
use crate::text::{parse_unsigned, unsigned_of};
use vstd::string::*;
use vstd::prelude::*;

verus! {

/// A closed set of named values over one primitive.
#[derive(PartialEq, Debug, Clone)]
pub struct EnumType {
    pub name: String,
    pub since_version: Option<usize>,
    pub deprecated: Option<usize>,
    pub semantic_type: Option<String>,
    pub description: Option<String>,
    pub offset: Option<usize>,
    pub encoding_type: NativeType,
    pub values: Vec<ValidValue>,
}

/// The mathematical content of a [`EnumType`].
pub struct EnumTypeView {
    pub name: Seq<char>,
    pub since_version: Option<usize>,
    pub deprecated: Option<usize>,
    pub semantic_type: Option<Seq<char>>,
    pub description: Option<Seq<char>>,
    pub offset: Option<usize>,
    pub encoding_type: NativeTypeView,
    pub values: Seq<ValidValueView>,
}

impl View for EnumType {
    type V = EnumTypeView;

    open spec fn view(&self) -> EnumTypeView {
        EnumTypeView {
            name: self.name@,
            since_version: self.since_version,
            deprecated: self.deprecated,
            semantic_type: opt_text(self.semantic_type),
            description: opt_text(self.description),
            offset: self.offset,
            encoding_type: self.encoding_type@,
            values: views_of(self.values@),
        }
    }
}

impl Duplicate for EnumType {
    fn duplicate(&self) -> (r: Self) {
        EnumType {
            name: self.name.clone(),
            since_version: self.since_version,
            deprecated: self.deprecated,
            semantic_type: copy_text(&self.semantic_type),
            description: copy_text(&self.description),
            offset: self.offset,
            encoding_type: self.encoding_type.duplicate(),
            values: duplicate_all(&self.values),
        }
    }
}

/// One named value of an enum.
#[derive(PartialEq, Debug, Clone)]
pub struct ValidValue {
    pub name: String,
    pub since_version: Option<usize>,
    pub deprecated: Option<usize>,
    pub description: Option<String>,
    pub value: String,
}

/// The mathematical content of a [`ValidValue`].
pub struct ValidValueView {
    pub name: Seq<char>,
    pub since_version: Option<usize>,
    pub deprecated: Option<usize>,
    pub description: Option<Seq<char>>,
    pub value: Seq<char>,
}

impl View for ValidValue {
    type V = ValidValueView;

    open spec fn view(&self) -> ValidValueView {
        ValidValueView {
            name: self.name@,
            since_version: self.since_version,
            deprecated: self.deprecated,
            description: opt_text(self.description),
            value: self.value@,
        }
    }
}

impl Duplicate for ValidValue {
    fn duplicate(&self) -> (r: Self) {
        ValidValue {
            name: self.name.clone(),
            since_version: self.since_version,
            deprecated: self.deprecated,
            description: copy_text(&self.description),
            value: self.value.clone(),
        }
    }
}

impl SizedEncoded for EnumType {
    open spec fn encoded_size(&self, types: TypeMapView) -> Result<nat, Fault> {
        types.native_size(self@.encoding_type, types.count())
    }

    fn size(&self, types: &TypeMap) -> (r: Result<usize, SchemaError>) {
        native_size_within(&self.encoding_type, types, types.count())
    }
}

impl ValidValueView {
    /// The number that stands for this value on the wire.  Under a character encoding it
    /// is the code of the first character of the text; otherwise the text is read as an
    /// unsigned decimal number.
    pub open spec fn encoded_value(self, char_encoding: bool) -> Result<u64, Fault> {
        if char_encoding {
            if self.value.len() == 0 {
                Err(Fault::EmptyEnumValue(self.name))
            } else {
                Ok(self.value[0] as u64)
            }
        } else {
            match unsigned_of(self.value) {
                Some(v) => Ok(v),
                None => Err(Fault::InvalidEnumValue(self.value)),
            }
        }
    }
}

impl ValidValue {
    /// The value as a 64-bit number, wide enough for every primitive.
    pub fn encoded_value(&self, char_encoding: bool) -> (r: Result<u64, SchemaError>)
        ensures
            match r {
                Ok(v) => self@.encoded_value(char_encoding) == Ok::<u64, Fault>(v),
                Err(e) => self@.encoded_value(char_encoding) == Err::<u64, Fault>(e@),
            },
    {
        if char_encoding {
            if self.value.as_str().unicode_len() == 0 {
                Err(SchemaError::EmptyEnumValue(self.name.clone()))
            } else {
                Ok(self.value.as_str().get_char(0) as u64)
            }
        } else {
            match parse_unsigned(self.value.as_str()) {
                Some(v) => Ok(v),
                None => Err(SchemaError::InvalidEnumValue(self.value.clone())),
            }
        }
    }
}

} // verus!
