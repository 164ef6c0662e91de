//! What the codecs of a variable-length field are made of: a length prefix, then as many
//! elements as the prefix says.

use crate::error::{Fault, SchemaError};
use crate::generator::common::{FieldMetadata, FieldMetadataView};
use crate::generator::rust::codecs::composite_type::{codec_name, codec_name_text, CodecSide};
use crate::models::types::composite_type::{CompositeType, CompositeTypeView};
use crate::models::types::variable_data_type::{VariableDataType, VariableDataTypeView};
use crate::models::types::{lemma_type_views, CharacterEncoding, Type, TypeView};
use crate::models::{TypeMap, TypeMapView};
use crate::naming::{case_converted, snake_name, NameCase};
use crate::text::same_text;
use vstd::prelude::*;
use vstd::string::*;

verus! {

/// All that the two codecs of a variable-length field are made of.
#[derive(Debug)]
pub struct VarDataCodecPlan {
    /// The declared name.
    pub name: String,
    /// The name of the module that holds the two codecs.
    pub module_name: String,
    /// The name of the decoder.
    pub decoder_name: String,
    /// The name of the encoder.
    pub encoder_name: String,
    /// The length prefix.
    pub length: FieldMetadata,
    /// One element.
    pub value: FieldMetadata,
    /// Whether runs of bytes can be read and written at once: the elements are bytes.
    pub byte_access: bool,
    /// Whether every element must be an ASCII character.
    pub ascii_only: bool,
}

/// The mathematical content of a [`VarDataCodecPlan`].
pub struct VarDataCodecPlanView {
    pub name: Seq<char>,
    pub module_name: Seq<char>,
    pub decoder_name: Seq<char>,
    pub encoder_name: Seq<char>,
    pub length: FieldMetadataView,
    pub value: FieldMetadataView,
    pub byte_access: bool,
    pub ascii_only: bool,
}

impl View for VarDataCodecPlan {
    type V = VarDataCodecPlanView;

    open spec fn view(&self) -> VarDataCodecPlanView {
        VarDataCodecPlanView {
            name: self.name@,
            module_name: self.module_name@,
            decoder_name: self.decoder_name@,
            encoder_name: self.encoder_name@,
            length: self.length@,
            value: self.value@,
            byte_access: self.byte_access,
            ascii_only: self.ascii_only,
        }
    }
}

impl TypeMapView {
    /// What is known of the length prefix and of one element of a variable-length field
    /// whose descriptor is `repr`.  The descriptor has two sub-fields and no more: the
    /// first is the prefix, the second the element; both are encoded types.
    pub open spec fn repr_metadata(self, var_data_name: Seq<char>, repr: CompositeTypeView) -> Result<
        (FieldMetadataView, FieldMetadataView),
        Fault,
    > {
        if repr.fields.len() != 2 {
            Err(Fault::VarDataShape(var_data_name))
        } else {
            match repr.fields[0] {
                TypeView::EncodedData(length_type) => match self.field_metadata(
                    Seq::empty(),
                    length_type,
                ) {
                    Err(f) => Err(f),
                    Ok(length) => match repr.fields[1] {
                        TypeView::EncodedData(value_type) => match self.field_metadata(
                            Seq::empty(),
                            value_type,
                        ) {
                            Err(f) => Err(f),
                            Ok(value) => Ok((length, value)),
                        },
                        _ => Err(Fault::VarDataValueNotEncoded(var_data_name)),
                    },
                },
                _ => Err(Fault::VarDataLengthNotEncoded(var_data_name)),
            }
        }
    }

    /// All that the codecs of a variable-length field are made of.
    #[verifier::opaque]
    pub open spec fn var_data_plan(self, v: VariableDataTypeView) -> Result<
        VarDataCodecPlanView,
        Fault,
    > {
        match v.repr_type(self.composite_types) {
            Err(f) => Err(f),
            Ok(repr) => match self.repr_metadata(v.name, repr) {
                Err(f) => Err(f),
                Ok((length, value)) => Ok(
                    VarDataCodecPlanView {
                        name: v.name,
                        module_name: case_converted(v.name, NameCase::Snake),
                        decoder_name: codec_name_text(v.name, CodecSide::Decoder),
                        encoder_name: codec_name_text(v.name, CodecSide::Encoder),
                        length,
                        value,
                        byte_access: value.lang_type == "u8"@,
                        ascii_only: value.encoding == Some(CharacterEncoding::Ascii),
                    },
                ),
            },
        }
    }
}

/// What is known of the length prefix and of one element.
pub fn repr_type_metadata(var_data_name: &str, repr_type: &CompositeType, types: &TypeMap) -> (r:
    Result<(FieldMetadata, FieldMetadata), SchemaError>)
    ensures
        match r {
            Ok((length, value)) => types@.repr_metadata(var_data_name@, repr_type@) == Ok::<
                (FieldMetadataView, FieldMetadataView),
                Fault,
            >((length@, value@)),
            Err(e) => types@.repr_metadata(var_data_name@, repr_type@) == Err::<
                (FieldMetadataView, FieldMetadataView),
                Fault,
            >(e@),
        },
{
    proof {
        lemma_type_views(repr_type.fields@);
    }
    if repr_type.fields.len() != 2 {
        return Err(SchemaError::VarDataShape(String::from_str(var_data_name)));
    }
    let length_type = match &repr_type.fields[0] {
        Type::EncodedData(length_type) => length_type,
        _ => { return Err(SchemaError::VarDataLengthNotEncoded(String::from_str(var_data_name))); },
    };
    let length_type_metadata = match FieldMetadata::from("", length_type, types) {
        Ok(m) => m,
        Err(e) => { return Err(e); },
    };
    let value_type = match &repr_type.fields[1] {
        Type::EncodedData(value_type) => value_type,
        _ => { return Err(SchemaError::VarDataValueNotEncoded(String::from_str(var_data_name))); },
    };
    let value_type_metadata = match FieldMetadata::from("", value_type, types) {
        Ok(m) => m,
        Err(e) => { return Err(e); },
    };
    proof {
        reveal_strlit("");
        assert(""@ =~= Seq::<char>::empty());
    }
    Ok((length_type_metadata, value_type_metadata))
}

/// All that the codecs of a variable-length field are made of.
pub fn var_data_codec(types: &TypeMap, var_data: &VariableDataType) -> (r: Result<
    VarDataCodecPlan,
    SchemaError,
>)
    ensures
        match r {
            Ok(p) => types@.var_data_plan(var_data@) == Ok::<VarDataCodecPlanView, Fault>(p@),
            Err(e) => types@.var_data_plan(var_data@) == Err::<VarDataCodecPlanView, Fault>(e@),
        },
{
    reveal(TypeMapView::var_data_plan);
    let name = var_data.name.as_str();
    let repr_type = match var_data.repr_type(&types.composite_types) {
        Ok(c) => c,
        Err(e) => { return Err(e); },
    };
    let (length, value) = match repr_type_metadata(name, repr_type, types) {
        Ok(p) => p,
        Err(e) => { return Err(e); },
    };
    let byte_access = same_text(value.lang_type.name, "u8");
    let ascii_only = match value.encoding {
        Some(CharacterEncoding::Ascii) => true,
        _ => false,
    };
    Ok(
        VarDataCodecPlan {
            name: String::from_str(name),
            module_name: snake_name(name),
            decoder_name: codec_name(name, CodecSide::Decoder),
            encoder_name: codec_name(name, CodecSide::Encoder),
            length,
            value,
            byte_access,
            ascii_only,
        },
    )
}

} // verus!
