//! What both backends need to know of a field.

use crate::duplicate::Duplicate;
use crate::error::{Fault, SchemaError};
use crate::models::sizing::{checked_product, element_count};
use crate::models::types::encoded_data_type::{EncodedDataType, EncodedDataTypeView};
use crate::models::types::field_type::{FieldType, FieldTypeView};
use crate::models::types::group_type::{GroupType, GroupTypeView};
use crate::models::types::primitive_type::{
    resolved_kind, LanguagePrimitive, NativeType, NativeTypeView, ResolvableType,
};
use crate::models::types::variable_data_type::{VariableDataType, VariableDataTypeView};
use crate::models::types::{
    lemma_message_field_views, message_field_views, CharacterEncoding, MessageField,
    MessageFieldView, SizedEncoded,
};
use crate::models::{TypeMap, TypeMapView};
use crate::naming::{case_converted, snake_name, NameCase};
use crate::text::{decimal, decimal_text};
use vstd::prelude::*;
use vstd::string::*;

verus! {

/// What an emitter needs to know of an encoded field.
#[derive(Debug)]
pub struct FieldMetadata {
    /// The name of the accessor.
    pub field_name: String,
    /// The primitive kind, references resolved.
    pub field_primitive_type: NativeType,
    /// The size of one element in bytes.
    pub type_size: usize,
    /// The number of elements.
    pub field_length: usize,
    /// The name of the primitive in emitted code.
    pub lang_type: LanguagePrimitive,
    /// How a character field is to be read.
    pub encoding: Option<CharacterEncoding>,
}

/// The mathematical content of a [`FieldMetadata`].
pub struct FieldMetadataView {
    pub field_name: Seq<char>,
    pub field_primitive_type: NativeTypeView,
    pub type_size: nat,
    pub field_length: nat,
    pub lang_type: Seq<char>,
    pub encoding: Option<CharacterEncoding>,
}

impl View for FieldMetadata {
    type V = FieldMetadataView;

    open spec fn view(&self) -> FieldMetadataView {
        FieldMetadataView {
            field_name: self.field_name@,
            field_primitive_type: self.field_primitive_type@,
            type_size: self.type_size as nat,
            field_length: self.field_length as nat,
            lang_type: self.lang_type.name@,
            encoding: self.encoding,
        }
    }
}

impl TypeMapView {
    /// What is known of the encoded field `e` under the name `field_name`: the accessor
    /// is named in snake case; the primitive is resolved; the size of the field divided
    /// by the size of one element gives the number of elements.
    pub open spec fn field_metadata(self, field_name: Seq<char>, e: EncodedDataTypeView) -> Result<
        FieldMetadataView,
        Fault,
    > {
        match resolved_kind(self.encoded_types, e.primitive_type, self.encoded_types.len()) {
            Err(f) => Err(f),
            Ok(kind) => match self.literal_size(e, self.count()) {
                Err(f) => Err(f),
                Ok(field_size) => match self.native_size(e.primitive_type, self.count()) {
                    Err(f) => Err(f),
                    Ok(type_size) => if type_size == 0 {
                        Err(Fault::ZeroSizedElement(e.name))
                    } else {
                        Ok(
                            FieldMetadataView {
                                field_name: case_converted(field_name, NameCase::Snake),
                                field_primitive_type: kind,
                                type_size,
                                field_length: field_size / type_size,
                                lang_type: kind.rust_name(),
                                encoding: e.character_encoding,
                            },
                        )
                    },
                },
            },
        }
    }
}

/// The number of elements of a field is the number that its encoded type holds.
pub proof fn lemma_field_length(types: TypeMapView, field_name: Seq<char>, e: EncodedDataTypeView)
    ensures
        types.field_metadata(field_name, e) matches Ok(m) ==> m.field_length == element_count(e),
{
    if let Ok(m) = types.field_metadata(field_name, e) {
        let unit = types.native_size(e.primitive_type, types.count())->Ok_0;
        let count = element_count(e);
        assert(types.literal_size(e, types.count()) == checked_product(unit, count));
        assert((unit * count) / unit == count) by (nonlinear_arith)
            requires
                unit > 0,
        ;
    }
}

impl FieldMetadata {
    /// Gathers what is known of an encoded field.
    pub fn from(field_name: &str, encoded_type: &EncodedDataType, types: &TypeMap) -> (r: Result<
        Self,
        SchemaError,
    >)
        ensures
            match r {
                Ok(m) => types@.field_metadata(field_name@, encoded_type@) == Ok::<
                    FieldMetadataView,
                    Fault,
                >(m@),
                Err(e) => types@.field_metadata(field_name@, encoded_type@) == Err::<
                    FieldMetadataView,
                    Fault,
                >(e@),
            },
    {
        let field_name = snake_name(field_name);
        let field_primitive_type = match encoded_type.primitive_type.resolved(&types.encoded_types) {
            Ok(k) => k,
            Err(e) => { return Err(e); },
        };
        let field_size = match encoded_type.literal_size(types) {
            Ok(n) => n,
            Err(e) => { return Err(e); },
        };
        let type_size = match encoded_type.primitive_type.size(types) {
            Ok(n) => n,
            Err(e) => { return Err(e); },
        };
        if type_size == 0 {
            return Err(SchemaError::ZeroSizedElement(encoded_type.name.clone()));
        }
        let field_length = field_size / type_size;
        let lang_type = field_primitive_type.rust_primitive();
        let encoding = encoded_type.character_encoding;

        Ok(
            FieldMetadata {
                field_name,
                field_primitive_type,
                type_size,
                field_length,
                lang_type,
                encoding,
            },
        )
    }
}

/// The type of the value that a decoder hands out: text for two characters or more, an
/// array for two elements or more of another kind, else the primitive itself.
pub open spec fn variable_value_text(
    field_primitive_type: NativeTypeView,
    rust_type: Seq<char>,
    field_length: nat,
) -> Seq<char> {
    if field_length >= 2 && field_primitive_type is Char {
        "String"@
    } else if field_length >= 2 {
        "["@ + rust_type + "; "@ + decimal_text(field_length) + "]"@
    } else {
        rust_type
    }
}

/// The type of the value that a decoder hands out.
pub fn variable_value_type(
    field_primitive_type: &NativeType,
    rust_type: &str,
    field_length: usize,
) -> (r: String)
    ensures
        r@ == variable_value_text(field_primitive_type@, rust_type@, field_length as nat),
{
    if field_length >= 2 {
        match field_primitive_type {
            NativeType::Char => String::from_str("String"),
            _ => {
                let r = String::from_str("[").concat(rust_type).concat("; ").concat(
                    decimal(field_length).as_str(),
                ).concat("]");
                r
            },
        }
    } else {
        String::from_str(rust_type)
    }
}

/// The plain fields among the children of a message or group, in order.
pub open spec fn plain_fields(fields: Seq<MessageFieldView>) -> Seq<FieldTypeView>
    decreases fields.len(),
{
    if fields.len() == 0 {
        Seq::empty()
    } else {
        match fields.last() {
            MessageFieldView::Field(f) => plain_fields(fields.drop_last()).push(f),
            _ => plain_fields(fields.drop_last()),
        }
    }
}

/// The groups among the children of a message or group, in order.
pub open spec fn group_fields(fields: Seq<MessageFieldView>) -> Seq<GroupTypeView>
    decreases fields.len(),
{
    if fields.len() == 0 {
        Seq::empty()
    } else {
        match fields.last() {
            MessageFieldView::Group(g) => group_fields(fields.drop_last()).push(g),
            _ => group_fields(fields.drop_last()),
        }
    }
}

/// The variable-length fields among the children of a message or group, in order.
pub open spec fn var_data_fields(fields: Seq<MessageFieldView>) -> Seq<VariableDataTypeView>
    decreases fields.len(),
{
    if fields.len() == 0 {
        Seq::empty()
    } else {
        match fields.last() {
            MessageFieldView::VariableData(v) => var_data_fields(fields.drop_last()).push(v),
            _ => var_data_fields(fields.drop_last()),
        }
    }
}

/// The contents of a list of borrowed items.
pub open spec fn views_of_refs<T: View>(s: Seq<&T>) -> Seq<T::V> {
    s.map_values(|t: &T| t@)
}

/// Sorts the children of a message or group by kind, keeping the order within each kind.
pub fn field_groups(group_type_fields: &[MessageField]) -> (r: (
    Vec<&FieldType>,
    Vec<&GroupType>,
    Vec<&VariableDataType>,
))
    ensures
        views_of_refs(r.0@) == plain_fields(message_field_views(group_type_fields@)),
        views_of_refs(r.1@) == group_fields(message_field_views(group_type_fields@)),
        views_of_refs(r.2@) == var_data_fields(message_field_views(group_type_fields@)),
{
    let mut fields: Vec<&FieldType> = Vec::new();
    let mut groups: Vec<&GroupType> = Vec::new();
    let mut var_data: Vec<&VariableDataType> = Vec::new();
    let ghost views = message_field_views(group_type_fields@);
    proof {
        lemma_message_field_views(group_type_fields@);
        assert(views.subrange(0, 0) =~= Seq::<MessageFieldView>::empty());
    }
    let mut i: usize = 0;
    while i < group_type_fields.len()
        invariant
            i <= group_type_fields.len(),
            views == message_field_views(group_type_fields@),
            views.len() == group_type_fields.len(),
            forall|j: int|
                0 <= j < group_type_fields.len() ==> (#[trigger] views[j]) == group_type_fields@[j]@,
            views_of_refs(fields@) == plain_fields(views.subrange(0, i as int)),
            views_of_refs(groups@) == group_fields(views.subrange(0, i as int)),
            views_of_refs(var_data@) == var_data_fields(views.subrange(0, i as int)),
        decreases group_type_fields.len() - i,
    {
        let ghost next = views.subrange(0, i as int + 1);
        let ghost old_fields = fields@;
        let ghost old_groups = groups@;
        let ghost old_var_data = var_data@;
        proof {
            assert(next.drop_last() == views.subrange(0, i as int));
            assert(next.last() == group_type_fields@[i as int]@);
        }
        match &group_type_fields[i] {
            MessageField::Field(field_type) => {
                fields.push(field_type);
                assert(views_of_refs(fields@) =~= views_of_refs(old_fields).push(field_type@));
            },
            MessageField::Group(group_type) => {
                groups.push(group_type);
                assert(views_of_refs(groups@) =~= views_of_refs(old_groups).push(group_type@));
            },
            MessageField::VariableData(var_data_type) => {
                var_data.push(var_data_type);
                assert(views_of_refs(var_data@) =~= views_of_refs(old_var_data).push(
                    var_data_type@,
                ));
            },
        }
        i = i + 1;
    }
    assert(views.subrange(0, i as int) == views);
    (fields, groups, var_data)
}

/// The first `n` of `results` gathered into one: all of them if none is a fault, else the
/// first fault.
pub open spec fn gathered<P>(results: Seq<Result<P, Fault>>, n: nat) -> Result<Seq<P>, Fault>
    decreases n,
{
    if n == 0 || n > results.len() {
        Ok(Seq::empty())
    } else {
        match gathered(results, (n - 1) as nat) {
            Err(f) => Err(f),
            Ok(before) => match results[n - 1] {
                Err(f) => Err(f),
                Ok(p) => Ok(before.push(p)),
            },
        }
    }
}

/// A fault among the first results is the fault of all.
pub proof fn lemma_gathered_fault<P>(results: Seq<Result<P, Fault>>, k: nat, n: nat)
    requires
        k <= n <= results.len(),
        gathered(results, k) is Err,
    ensures
        gathered(results, n) == gathered(results, k),
    decreases n - k,
{
    if k < n {
        lemma_gathered_fault(results, k, (n - 1) as nat);
    }
}

} // verus!
