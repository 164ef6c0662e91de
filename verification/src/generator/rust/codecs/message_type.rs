//! What the codecs of a message are made of: the header, the accessors of the fixed
//! block, and the groups and variable-length fields that follow it.

use crate::duplicate::views_of;
use crate::error::{Fault, SchemaError};
use crate::generator::common::{field_groups, group_fields, plain_fields, var_data_fields};
use crate::generator::rust::codecs::composite_type::{
    codec_name, codec_name_text, CodecSide, CompositeAccessor, CompositeAccessorView,
    FieldAccessor, FieldAccessorView,
};
use crate::generator::rust::codecs::group_type::{
    generate_fields, generate_groups, generate_var_data_fields, nested_groups, nested_var_data,
    NestedCodec,
    NestedCodecView,
};
use crate::models::message::{MessageType, MessageTypeView};
use crate::models::types::group_type::GroupTypeView;
use crate::models::types::variable_data_type::VariableDataTypeView;
use crate::models::types::{lemma_message_field_views, lemma_type_views, SizedEncoded};
use crate::models::{TypeMap, TypeMapView};
use crate::naming::{case_converted, constant_name, snake_name, NameCase};
use vstd::prelude::*;
use vstd::string::*;

verus! {

/// All that the two codecs of a message are made of.
#[derive(Debug)]
pub struct MessageCodecPlan {
    /// The declared name.
    pub name: String,
    /// The name of the module that holds the two codecs.
    pub module_name: String,
    /// The name of the decoder.
    pub decoder_name: String,
    /// The name of the encoder.
    pub encoder_name: String,
    /// The name of the constant that holds the template id.
    pub id_constant: String,
    /// The template id.
    pub id: u16,
    /// The accessor of the encoder for the message header.
    pub header_encoder: CompositeAccessor,
    /// The accessor of the decoder for the message header.
    pub header_decoder: CompositeAccessor,
    /// The size of the message header.
    pub header_size: usize,
    /// The size of the fixed block after the header.
    pub block_length: usize,
    /// The accessors of the encoder for the fields of the block.
    pub encoder_fields: Vec<FieldAccessor>,
    /// The accessors of the decoder for the fields of the block.
    pub decoder_fields: Vec<FieldAccessor>,
    /// The groups, in declared order.
    pub groups: Vec<NestedCodec>,
    /// The variable-length fields, in declared order.
    pub var_data: Vec<NestedCodec>,
}

/// The mathematical content of a [`MessageCodecPlan`].
pub struct MessageCodecPlanView {
    pub name: Seq<char>,
    pub module_name: Seq<char>,
    pub decoder_name: Seq<char>,
    pub encoder_name: Seq<char>,
    pub id_constant: Seq<char>,
    pub id: u16,
    pub header_encoder: CompositeAccessorView,
    pub header_decoder: CompositeAccessorView,
    pub header_size: usize,
    pub block_length: usize,
    pub encoder_fields: Seq<FieldAccessorView>,
    pub decoder_fields: Seq<FieldAccessorView>,
    pub groups: Seq<NestedCodecView>,
    pub var_data: Seq<NestedCodecView>,
}

impl View for MessageCodecPlan {
    type V = MessageCodecPlanView;

    open spec fn view(&self) -> MessageCodecPlanView {
        MessageCodecPlanView {
            name: self.name@,
            module_name: self.module_name@,
            decoder_name: self.decoder_name@,
            encoder_name: self.encoder_name@,
            id_constant: self.id_constant@,
            id: self.id,
            header_encoder: self.header_encoder@,
            header_decoder: self.header_decoder@,
            header_size: self.header_size,
            block_length: self.block_length,
            encoder_fields: views_of(self.encoder_fields@),
            decoder_fields: views_of(self.decoder_fields@),
            groups: views_of(self.groups@),
            var_data: views_of(self.var_data@),
        }
    }
}

/// The accessor for the message header: it stands at the start of the message.
pub open spec fn header_accessor(header_name: Seq<char>, side: CodecSide) -> CompositeAccessorView {
    CompositeAccessorView {
        field_name: case_converted("message_header"@, NameCase::Snake),
        codec_name: codec_name_text(header_name, side),
        offset: 0,
    }
}

impl TypeMapView {
    /// All that the codecs of a message are made of.  The block starts where the header
    /// ends; its length is what the encoder writes into the header.
    #[verifier::opaque]
    pub open spec fn message_plan(self, m: MessageTypeView) -> Result<MessageCodecPlanView, Fault> {
        match self.fields_size(self.header_type.fields, self.count()) {
            Err(f) => Err(f),
            Ok(header_size) => match self.block(
                CodecSide::Encoder,
                plain_fields(m.fields),
                header_size,
            ) {
                Err(f) => Err(f),
                Ok((encoder_fields, end)) => match self.block(
                    CodecSide::Decoder,
                    plain_fields(m.fields),
                    header_size,
                ) {
                    Err(f) => Err(f),
                    Ok((decoder_fields, _)) => Ok(
                        MessageCodecPlanView {
                            name: m.name,
                            module_name: case_converted(m.name, NameCase::Snake),
                            decoder_name: codec_name_text(m.name, CodecSide::Decoder),
                            encoder_name: codec_name_text(m.name, CodecSide::Encoder),
                            id_constant: case_converted(m.name, NameCase::ScreamingSnake) + "_ID"@,
                            id: m.id,
                            header_encoder: header_accessor(
                                self.header_type.name,
                                CodecSide::Encoder,
                            ),
                            header_decoder: header_accessor(
                                self.header_type.name,
                                CodecSide::Decoder,
                            ),
                            header_size: header_size as usize,
                            block_length: (end - header_size) as usize,
                            encoder_fields,
                            decoder_fields,
                            groups: nested_groups(group_fields(m.fields)),
                            var_data: nested_var_data(
                                group_fields(m.fields),
                                var_data_fields(m.fields),
                            ),
                        },
                    ),
                },
            },
        }
    }
}

/// The end of a block is not before its start.
pub proof fn lemma_block_end_after_start(
    types: TypeMapView,
    fields: Seq<crate::models::types::field_type::FieldTypeView>,
    start: nat,
    n: nat,
)
    ensures
        types.block_end(fields, start, n) matches Ok(end) ==> start <= end,
    decreases n,
{
    if n > 0 && n <= fields.len() {
        lemma_block_end_after_start(types, fields, start, (n - 1) as nat);
    }
}

/// The accessor for the message header.
pub fn generate_header(types: &TypeMap, side: CodecSide) -> (r: CompositeAccessor)
    ensures
        r@ == header_accessor(types@.header_type.name, side),
{
    CompositeAccessor {
        field_name: snake_name("message_header"),
        codec_name: codec_name(types.header_type.name.as_str(), side),
        offset: 0,
    }
}

/// All that the codecs of a message are made of.
pub fn message_codec(types: &TypeMap, message: &MessageType) -> (r: Result<
    MessageCodecPlan,
    SchemaError,
>)
    ensures
        match r {
            Ok(p) => types@.message_plan(message@) == Ok::<MessageCodecPlanView, Fault>(p@),
            Err(e) => types@.message_plan(message@) == Err::<MessageCodecPlanView, Fault>(e@),
        },
{
    reveal(TypeMapView::message_plan);
    let name = message.name.as_str();
    let (fields, groups, var_data) = field_groups(message.fields.as_slice());
    proof {
        lemma_type_views(types.header_type.fields@);
        lemma_message_field_views(message.fields@);
    }
    let header_size = match types.header_type.size(types) {
        Ok(n) => n,
        Err(e) => { return Err(e); },
    };
    let mut field_offset = header_size;
    let encoder_fields = match generate_fields(
        types,
        CodecSide::Encoder,
        &fields,
        &mut field_offset,
    ) {
        Ok(a) => a,
        Err(e) => { return Err(e); },
    };
    proof {
        lemma_block_end_after_start(
            types@,
            plain_fields(message@.fields),
            header_size as nat,
            plain_fields(message@.fields).len(),
        );
    }
    let block_length = field_offset - header_size;
    let mut offset = header_size;
    let decoder_fields = match generate_fields(types, CodecSide::Decoder, &fields, &mut offset) {
        Ok(a) => a,
        Err(e) => { return Err(e); },
    };
    Ok(
        MessageCodecPlan {
            name: String::from_str(name),
            module_name: snake_name(name),
            decoder_name: codec_name(name, CodecSide::Decoder),
            encoder_name: codec_name(name, CodecSide::Encoder),
            id_constant: constant_name(name).concat("_ID"),
            id: message.id,
            header_encoder: generate_header(types, CodecSide::Encoder),
            header_decoder: generate_header(types, CodecSide::Decoder),
            header_size,
            block_length,
            encoder_fields,
            decoder_fields,
            groups: generate_groups(&groups),
            var_data: generate_var_data_fields(&var_data, &groups),
        },
    )
}

} // verus!
