//! What the codecs of a repeating group are made of: the dimension header, the accessors
//! of the fixed block of an entry, and the nested groups and variable-length fields that
//! follow the block.

use crate::duplicate::{duplicate_all, views_of, Duplicate};
use crate::error::{Fault, SchemaError};
use crate::generator::common::{
    field_groups, group_fields, plain_fields, var_data_fields, views_of_refs,
};
use crate::generator::rust::codecs::composite_type::{
    codec_name, codec_name_text, field_accessor, CodecSide, ConstantEnumAccessor,
    ConstantEnumAccessorView, FieldAccessor, FieldAccessorView,
};
use crate::models::table::lookup;
use crate::models::types::composite_type::CompositeType;
use crate::models::types::enum_type::{ValidValue, ValidValueView};
use crate::models::types::field_type::{FieldType, FieldTypeView};
use crate::models::types::group_type::{GroupType, GroupTypeView};
use crate::models::types::primitive_type::{resolved_kind, ResolvableType};
use crate::models::types::variable_data_type::{VariableDataType, VariableDataTypeView};
use crate::models::types::{
    lemma_message_field_views, lemma_type_views, Presence, SizedEncoded, Type, TypeView,
};
use crate::models::{TypeMap, TypeMapView};
use crate::naming::{camel_name, case_converted, snake_name, NameCase};
use crate::text::{same_text, second_segment, segment_after_first};
use vstd::prelude::*;
use vstd::string::*;

verus! {

/// A size that a codec records for a nested group or variable-length field when the
/// scoped accessor of that construct returns.
#[derive(Debug)]
pub struct RecordedSize {
    /// The name of the field that records the size.
    pub size_field: String,
    /// The name of the construct, as the fault names it whose size is missing.
    pub func_name: String,
    /// Whether the construct is a group.
    pub of_group: bool,
}

/// The mathematical content of a [`RecordedSize`].
pub struct RecordedSizeView {
    pub size_field: Seq<char>,
    pub func_name: Seq<char>,
    pub of_group: bool,
}

impl View for RecordedSize {
    type V = RecordedSizeView;

    open spec fn view(&self) -> RecordedSizeView {
        RecordedSizeView {
            size_field: self.size_field@,
            func_name: self.func_name@,
            of_group: self.of_group,
        }
    }
}

impl Duplicate for RecordedSize {
    fn duplicate(&self) -> (r: Self) {
        RecordedSize {
            size_field: self.size_field.clone(),
            func_name: self.func_name.clone(),
            of_group: self.of_group,
        }
    }
}

/// A nested group or variable-length field: it is reached through a scoped accessor, and
/// its size is recorded when the accessor returns.  It starts behind the fixed block and
/// behind the constructs that are declared before it, whose sizes must have been
/// recorded by then.
#[derive(Debug)]
pub struct NestedCodec {
    /// The name of the accessor, without its `_decoder` or `_encoder` ending.
    pub func_name: String,
    /// The name of the field that records the size.
    pub size_field: String,
    /// The name of the nested decoder.
    pub decoder_name: String,
    /// The name of the nested encoder.
    pub encoder_name: String,
    /// The sizes that add up to where the construct starts behind the fixed block: those
    /// of all groups declared before it, then those of the variable-length fields
    /// declared before it.
    pub preceding: Vec<RecordedSize>,
}

/// The mathematical content of a [`NestedCodec`].
pub struct NestedCodecView {
    pub func_name: Seq<char>,
    pub size_field: Seq<char>,
    pub decoder_name: Seq<char>,
    pub encoder_name: Seq<char>,
    pub preceding: Seq<RecordedSizeView>,
}

impl View for NestedCodec {
    type V = NestedCodecView;

    open spec fn view(&self) -> NestedCodecView {
        NestedCodecView {
            func_name: self.func_name@,
            size_field: self.size_field@,
            decoder_name: self.decoder_name@,
            encoder_name: self.encoder_name@,
            preceding: views_of(self.preceding@),
        }
    }
}

/// All that the two codecs of a group are made of.
#[derive(Debug)]
pub struct GroupCodecPlan {
    /// The declared name.
    pub name: String,
    /// The name of the module that holds the two codecs.
    pub module_name: String,
    /// The name of the decoder.
    pub decoder_name: String,
    /// The name of the encoder.
    pub encoder_name: String,
    /// The name of the decoder of the dimension composite.
    pub dimension_decoder_name: String,
    /// The size of the dimension composite: the overhead before the first entry.
    pub dimension_size: usize,
    /// The primitive that holds the block length.
    pub block_length_primitive: String,
    /// The size of that primitive: where the number of entries starts.
    pub block_length_size: usize,
    /// The primitive that holds the number of entries.
    pub num_in_group_primitive: String,
    /// The width of that primitive.
    pub num_in_group_size: usize,
    /// The size of the fixed block of one entry.
    pub block_length: usize,
    /// The accessors of the encoder for the fields of the block.
    pub encoder_fields: Vec<FieldAccessor>,
    /// The accessors of the decoder for the fields of the block.
    pub decoder_fields: Vec<FieldAccessor>,
    /// The nested groups, in declared order.
    pub groups: Vec<NestedCodec>,
    /// The variable-length fields, in declared order.
    pub var_data: Vec<NestedCodec>,
}

/// The mathematical content of a [`GroupCodecPlan`].
pub struct GroupCodecPlanView {
    pub name: Seq<char>,
    pub module_name: Seq<char>,
    pub decoder_name: Seq<char>,
    pub encoder_name: Seq<char>,
    pub dimension_decoder_name: Seq<char>,
    pub dimension_size: usize,
    pub block_length_primitive: Seq<char>,
    pub block_length_size: usize,
    pub num_in_group_primitive: Seq<char>,
    pub num_in_group_size: usize,
    pub block_length: usize,
    pub encoder_fields: Seq<FieldAccessorView>,
    pub decoder_fields: Seq<FieldAccessorView>,
    pub groups: Seq<NestedCodecView>,
    pub var_data: Seq<NestedCodecView>,
}

impl View for GroupCodecPlan {
    type V = GroupCodecPlanView;

    open spec fn view(&self) -> GroupCodecPlanView {
        GroupCodecPlanView {
            name: self.name@,
            module_name: self.module_name@,
            decoder_name: self.decoder_name@,
            encoder_name: self.encoder_name@,
            dimension_decoder_name: self.dimension_decoder_name@,
            dimension_size: self.dimension_size,
            block_length_primitive: self.block_length_primitive@,
            block_length_size: self.block_length_size,
            num_in_group_primitive: self.num_in_group_primitive@,
            num_in_group_size: self.num_in_group_size,
            block_length: self.block_length,
            encoder_fields: views_of(self.encoder_fields@),
            decoder_fields: views_of(self.decoder_fields@),
            groups: views_of(self.groups@),
            var_data: views_of(self.var_data@),
        }
    }
}

/// The index of the first value at or after `i` whose name is `name`; the number of
/// values if there is none.
pub open spec fn value_index_from(values: Seq<ValidValueView>, name: Seq<char>, i: int) -> int
    decreases values.len() - i,
{
    if i < 0 || i >= values.len() {
        values.len() as int
    } else if values[i].name == name {
        i
    } else {
        value_index_from(values, name, i + 1)
    }
}

/// The first value of the name `name`.
pub open spec fn find_value(values: Seq<ValidValueView>, name: Seq<char>) -> Option<ValidValueView> {
    let i = value_index_from(values, name, 0);
    if i < values.len() {
        Some(values[i])
    } else {
        None
    }
}

/// The name of the dimension composite of a group: `groupSizeEncoding` unless the group
/// names another.
pub open spec fn dimension_name(g: GroupTypeView) -> Seq<char> {
    match g.dimension_type {
        Some(n) => n,
        None => "groupSizeEncoding"@,
    }
}

/// The size that is recorded for the construct of the name `name`.
pub open spec fn recorded_size(name: Seq<char>, of_group: bool) -> RecordedSizeView {
    RecordedSizeView {
        size_field: case_converted(name, NameCase::Snake) + "_size"@,
        func_name: case_converted(name, NameCase::Snake),
        of_group,
    }
}

/// The sizes that are recorded for the first `n` groups.
pub open spec fn recorded_groups(groups: Seq<GroupTypeView>, n: nat) -> Seq<RecordedSizeView> {
    Seq::new(n, |j: int| recorded_size(groups[j].name, true))
}

/// The sizes that are recorded for the first `n` variable-length fields.
pub open spec fn recorded_var_data(var_data: Seq<VariableDataTypeView>, n: nat) -> Seq<
    RecordedSizeView,
> {
    Seq::new(n, |j: int| recorded_size(var_data[j].name, false))
}

/// How a nested group or variable-length field is reached, behind the constructs whose
/// sizes are `preceding`.
pub open spec fn nested_codec(name: Seq<char>, preceding: Seq<RecordedSizeView>) -> NestedCodecView {
    NestedCodecView {
        func_name: case_converted(name, NameCase::Snake),
        size_field: case_converted(name, NameCase::Snake) + "_size"@,
        decoder_name: codec_name_text(name, CodecSide::Decoder),
        encoder_name: codec_name_text(name, CodecSide::Encoder),
        preceding,
    }
}

/// How the nested groups are reached: each behind the groups declared before it.
pub open spec fn nested_groups(groups: Seq<GroupTypeView>) -> Seq<NestedCodecView> {
    Seq::new(
        groups.len(),
        |i: int| nested_codec(groups[i].name, recorded_groups(groups, i as nat)),
    )
}

/// How the variable-length fields are reached: each behind all groups and behind the
/// variable-length fields declared before it.
pub open spec fn nested_var_data(
    groups: Seq<GroupTypeView>,
    var_data: Seq<VariableDataTypeView>,
) -> Seq<NestedCodecView> {
    Seq::new(
        var_data.len(),
        |i: int|
            nested_codec(
                var_data[i].name,
                recorded_groups(groups, groups.len()) + recorded_var_data(var_data, i as nat),
            ),
    )
}

impl TypeMapView {
    /// The getter for a field that is fixed to a value of an enum.  The value is named
    /// by the second dotted segment of the field's value reference.
    pub open spec fn constant_enum_accessor(self, f: FieldTypeView, repr: TypeView) -> Result<
        ConstantEnumAccessorView,
        Fault,
    > {
        match repr {
            TypeView::Enum(e) => match f.value_ref {
                None => Err(Fault::ConstantWithoutRef(f.name)),
                Some(reference) => match second_segment(reference, '.') {
                    None => Err(Fault::ConstantWithoutRef(f.name)),
                    Some(wanted) => match find_value(e.values, wanted) {
                        None => Err(Fault::ConstantUnknownValue { field: f.name, value: wanted }),
                        Some(v) => Ok(
                            ConstantEnumAccessorView {
                                field_name: case_converted(f.name, NameCase::Snake),
                                named_type: case_converted(e.name, NameCase::UpperCamel),
                                variant: v.name,
                            },
                        ),
                    },
                },
            },
            _ => Err(Fault::ConstantNotEnum(f.name)),
        }
    }

    /// What is emitted for a field of a message or group entry at `offset`.
    pub open spec fn block_field(self, side: CodecSide, f: FieldTypeView, offset: usize) -> Result<
        FieldAccessorView,
        Fault,
    > {
        if f.presence == Presence::Constant {
            if side is Encoder {
                Ok(FieldAccessorView::Skipped)
            } else {
                match self.constant_enum_accessor(f, f.resolved_type(self)) {
                    Ok(a) => Ok(FieldAccessorView::ConstantEnum(a)),
                    Err(e) => Err(e),
                }
            }
        } else {
            self.accessor(side, f.name, f.resolved_type(self), offset)
        }
    }

    /// The bytes that a field of a message or group entry takes in the block.
    /// A constant takes none.
    pub open spec fn block_field_size(self, f: FieldTypeView) -> Result<nat, Fault> {
        if f.presence == Presence::Constant {
            Ok(0)
        } else {
            self.type_size(f.resolved_type(self), self.count())
        }
    }

    /// Where the block stands after the first `n` fields, when it starts at `start`.
    pub open spec fn block_end(self, fields: Seq<FieldTypeView>, start: nat, n: nat) -> Result<
        nat,
        Fault,
    >
        decreases n,
    {
        if n == 0 || n > fields.len() {
            Ok(start)
        } else {
            match self.block_end(fields, start, (n - 1) as nat) {
                Err(f) => Err(f),
                Ok(before) => match self.block_field_size(fields[n - 1]) {
                    Err(f) => Err(f),
                    Ok(size) => crate::models::sizing::checked_sum(before, size),
                },
            }
        }
    }

    /// The accessors of the first `n` fields of a block that starts at `start`.
    pub open spec fn block_accessors(
        self,
        side: CodecSide,
        fields: Seq<FieldTypeView>,
        start: nat,
        n: nat,
    ) -> Result<Seq<FieldAccessorView>, Fault>
        decreases n,
    {
        if n == 0 || n > fields.len() {
            Ok(Seq::empty())
        } else {
            match self.block_accessors(side, fields, start, (n - 1) as nat) {
                Err(f) => Err(f),
                Ok(before) => match self.block_end(fields, start, (n - 1) as nat) {
                    Err(f) => Err(f),
                    Ok(offset) => match self.block_field(side, fields[n - 1], offset as usize) {
                        Err(f) => Err(f),
                        Ok(a) => Ok(before.push(a)),
                    },
                },
            }
        }
    }

    /// The accessors of all fields of a block, and where the block ends.
    pub open spec fn block(self, side: CodecSide, fields: Seq<FieldTypeView>, start: nat) -> Result<
        (Seq<FieldAccessorView>, nat),
        Fault,
    > {
        match self.block_accessors(side, fields, start, fields.len()) {
            Err(f) => Err(f),
            Ok(accessors) => match self.block_end(fields, start, fields.len()) {
                Err(f) => Err(f),
                Ok(end) => Ok((accessors, end)),
            },
        }
    }

    /// All that the codecs of a group are made of.  The dimension composite is looked at
    /// first, then the block is laid out for the encoder, then for the decoder.
    #[verifier::opaque]
    pub open spec fn group_plan(self, g: GroupTypeView) -> Result<GroupCodecPlanView, Fault> {
        match lookup(self.composite_types, dimension_name(g)) {
            None => Err(Fault::MissingDimensionType { type_ref: dimension_name(g), group: g.name }),
            Some(dimension) => match self.fields_size(dimension.fields, self.count()) {
                Err(f) => Err(f),
                Ok(dimension_size) => if dimension.fields.len() == 0 || !(dimension.fields.first() is EncodedData) {
                    Err(Fault::BlockLengthNotEncoded(g.name))
                } else if !(dimension.fields.last() is EncodedData) {
                    Err(Fault::NumInGroupNotEncoded(g.name))
                } else {
                    let block_length_type = dimension.fields.first()->EncodedData_0;
                    let num_in_group_type = dimension.fields.last()->EncodedData_0;
                    match resolved_kind(
                        self.encoded_types,
                        block_length_type.primitive_type,
                        self.encoded_types.len(),
                    ) {
                        Err(f) => Err(f),
                        Ok(block_kind) => match self.native_size(
                            block_length_type.primitive_type,
                            self.count(),
                        ) {
                            Err(f) => Err(f),
                            Ok(block_length_size) => match resolved_kind(
                                self.encoded_types,
                                num_in_group_type.primitive_type,
                                self.encoded_types.len(),
                            ) {
                                Err(f) => Err(f),
                                Ok(num_kind) => match self.block(
                                    CodecSide::Encoder,
                                    plain_fields(g.fields),
                                    0,
                                ) {
                                    Err(f) => Err(f),
                                    Ok((encoder_fields, block_length)) => match self.block(
                                        CodecSide::Decoder,
                                        plain_fields(g.fields),
                                        0,
                                    ) {
                                        Err(f) => Err(f),
                                        Ok((decoder_fields, _)) => Ok(
                                            GroupCodecPlanView {
                                                name: g.name,
                                                module_name: case_converted(
                                                    g.name,
                                                    NameCase::Snake,
                                                ),
                                                decoder_name: codec_name_text(
                                                    g.name,
                                                    CodecSide::Decoder,
                                                ),
                                                encoder_name: codec_name_text(
                                                    g.name,
                                                    CodecSide::Encoder,
                                                ),
                                                dimension_decoder_name: codec_name_text(
                                                    dimension.name,
                                                    CodecSide::Decoder,
                                                ),
                                                dimension_size: dimension_size as usize,
                                                block_length_primitive: block_kind.rust_name(),
                                                block_length_size: block_length_size as usize,
                                                num_in_group_primitive: num_kind.rust_name(),
                                                num_in_group_size: num_kind.width() as usize,
                                                block_length: block_length as usize,
                                                encoder_fields,
                                                decoder_fields,
                                                groups: nested_groups(group_fields(g.fields)),
                                                var_data: nested_var_data(
                                                    group_fields(g.fields),
                                                    var_data_fields(g.fields),
                                                ),
                                            },
                                        ),
                                    },
                                },
                            },
                        },
                    }
                },
            },
        }
    }
}

/// Constant elision: replacing the value that a constant field of a message or group
/// refers to changes neither the length of the block nor its encoder, which has no
/// accessor for the field.
pub proof fn lemma_constant_reference_elided(
    types: TypeMapView,
    fields: Seq<FieldTypeView>,
    start: nat,
    k: int,
    value_ref: Option<Seq<char>>,
    n: nat,
)
    requires
        0 <= k < fields.len(),
        fields[k].presence == Presence::Constant,
        n <= fields.len(),
    ensures
        ({
            let replaced = fields.update(k, FieldTypeView { value_ref, ..fields[k] });
            &&& types.block_end(replaced, start, n) == types.block_end(fields, start, n)
            &&& types.block_accessors(CodecSide::Encoder, replaced, start, n)
                == types.block_accessors(CodecSide::Encoder, fields, start, n)
        }),
    decreases n,
{
    if n > 0 {
        lemma_constant_reference_elided(types, fields, start, k, value_ref, (n - 1) as nat);
    }
}

/// The block grows with every field: where it stands after `i` fields, and the bytes of
/// the next field, lie before where it stands after any later field.
pub proof fn lemma_block_end_ascends(
    types: TypeMapView,
    fields: Seq<FieldTypeView>,
    start: nat,
    i: nat,
    j: nat,
)
    requires
        i <= j <= fields.len(),
        types.block_end(fields, start, j) is Ok,
    ensures
        types.block_end(fields, start, i) is Ok,
        start <= types.block_end(fields, start, i)->Ok_0 <= types.block_end(fields, start, j)->Ok_0,
        i < j ==> types.block_field_size(fields[i as int]) is Ok,
        i < j ==> types.block_end(fields, start, i)->Ok_0 + types.block_field_size(
            fields[i as int],
        )->Ok_0 <= types.block_end(fields, start, j)->Ok_0,
        types.block_end(fields, start, j)->Ok_0 <= usize::MAX || j == 0,
    decreases j,
{
    if i < j {
        lemma_block_end_ascends(types, fields, start, i, (j - 1) as nat);
    } else if j > 0 {
        lemma_block_end_ascends(types, fields, start, 0, (j - 1) as nat);
    }
}

/// The `i`-th accessor of a block is the accessor of its `i`-th field at the place where
/// the block stands after the fields before it.
pub proof fn lemma_block_accessors_index(
    types: TypeMapView,
    side: CodecSide,
    fields: Seq<FieldTypeView>,
    start: nat,
    n: nat,
    i: int,
)
    requires
        n <= fields.len(),
        types.block_accessors(side, fields, start, n) is Ok,
        0 <= i < n,
    ensures
        types.block_accessors(side, fields, start, n)->Ok_0.len() == n,
        types.block_end(fields, start, i as nat) is Ok,
        types.block_field(
            side,
            fields[i],
            types.block_end(fields, start, i as nat)->Ok_0 as usize,
        ) == Ok::<FieldAccessorView, Fault>(types.block_accessors(side, fields, start, n)->Ok_0[i]),
    decreases n,
{
    if i < n - 1 {
        lemma_block_accessors_index(types, side, fields, start, (n - 1) as nat, i);
    } else if n > 1 {
        lemma_block_accessors_index(types, side, fields, start, (n - 1) as nat, 0);
    }
}

/// Two accessors of a block for values on the wire do not overlap: the one that comes
/// first ends where the other starts, or before; the first starts within the block, and
/// the last ends within it.
pub proof fn lemma_block_accessors_apart(
    types: TypeMapView,
    side: CodecSide,
    fields: Seq<FieldTypeView>,
    start: usize,
    i: int,
    j: int,
)
    requires
        types.block(side, fields, start as nat) is Ok,
        0 <= i < j < fields.len(),
        types.block(side, fields, start as nat)->Ok_0.0[i] is Value,
        types.block(side, fields, start as nat)->Ok_0.0[j] is Value,
    ensures
        ({
            let (accessors, end) = types.block(side, fields, start as nat)->Ok_0;
            let first = accessors[i].span()->Some_0;
            let second = accessors[j].span()->Some_0;
            &&& start <= first.0
            &&& first.0 + first.1 <= second.0
            &&& second.0 + second.1 <= end
        }),
{
    let n = fields.len();
    lemma_block_end_ascends(types, fields, start as nat, (j + 1) as nat, n);
    lemma_block_end_ascends(types, fields, start as nat, j as nat, (j + 1) as nat);
    lemma_block_end_ascends(types, fields, start as nat, (i + 1) as nat, j as nat);
    lemma_block_end_ascends(types, fields, start as nat, i as nat, (i + 1) as nat);
    lemma_block_accessors_index(types, side, fields, start as nat, n, i);
    lemma_block_accessors_index(types, side, fields, start as nat, n, j);
    let oi = types.block_end(fields, start as nat, i as nat)->Ok_0;
    let oj = types.block_end(fields, start as nat, j as nat)->Ok_0;
    crate::generator::rust::codecs::composite_type::lemma_value_span(
        types,
        side,
        fields[i].name,
        fields[i].resolved_type(types),
        oi as usize,
    );
    crate::generator::rust::codecs::composite_type::lemma_value_span(
        types,
        side,
        fields[j].name,
        fields[j].resolved_type(types),
        oj as usize,
    );
}

/// A fault among the first accessors of a block is the fault of all.
pub proof fn lemma_block_accessors_fault(
    types: TypeMapView,
    side: CodecSide,
    fields: Seq<FieldTypeView>,
    start: nat,
    k: nat,
    n: nat,
)
    requires
        k <= n <= fields.len(),
        types.block_accessors(side, fields, start, k) is Err,
    ensures
        types.block_accessors(side, fields, start, n) == types.block_accessors(
            side,
            fields,
            start,
            k,
        ),
    decreases n - k,
{
    if k < n {
        lemma_block_accessors_fault(types, side, fields, start, k, (n - 1) as nat);
    }
}

/// The first value of the name `name`.
pub fn find_valid_value<'a>(values: &'a Vec<ValidValue>, name: &str) -> (r: Option<&'a ValidValue>)
    ensures
        match r {
            Some(v) => find_value(views_of(values@), name@) == Some(v@),
            None => find_value(views_of(values@), name@) is None,
        },
{
    let ghost views = views_of(values@);
    let mut i: usize = 0;
    while i < values.len()
        invariant
            i <= values.len(),
            views == views_of(values@),
            value_index_from(views, name@, 0) == value_index_from(views, name@, i as int),
        decreases values.len() - i,
    {
        if same_text(values[i].name.as_str(), name) {
            return Some(&values[i]);
        }
        i = i + 1;
    }
    None
}

/// The getter for a field that is fixed to a value of an enum.
pub fn generate_constant_enum(types: &TypeMap, field_type: &FieldType, repr_type: &Type) -> (r:
    Result<ConstantEnumAccessor, SchemaError>)
    ensures
        match r {
            Ok(a) => types@.constant_enum_accessor(field_type@, repr_type@) == Ok::<
                ConstantEnumAccessorView,
                Fault,
            >(a@),
            Err(e) => types@.constant_enum_accessor(field_type@, repr_type@) == Err::<
                ConstantEnumAccessorView,
                Fault,
            >(e@),
        },
{
    let field_name = snake_name(field_type.name.as_str());
    let enum_type = match repr_type {
        Type::Enum(enum_type) => enum_type,
        _ => { return Err(SchemaError::ConstantNotEnum(field_type.name.clone())); },
    };
    let named_type = camel_name(enum_type.name.as_str());
    let reference = match &field_type.value_ref {
        Some(r) => r,
        None => { return Err(SchemaError::ConstantWithoutRef(field_type.name.clone())); },
    };
    let wanted = match segment_after_first(reference.as_str(), '.') {
        Some(w) => w,
        None => { return Err(SchemaError::ConstantWithoutRef(field_type.name.clone())); },
    };
    let value = match find_valid_value(&enum_type.values, wanted.as_str()) {
        Some(v) => v,
        None => {
            return Err(
                SchemaError::ConstantUnknownValue { field: field_type.name.clone(), value: wanted },
            );
        },
    };
    Ok(ConstantEnumAccessor { field_name, named_type, variant: value.name.clone() })
}

/// What is emitted for a field of a message or group entry at `offset`, and the bytes
/// that the field takes in the block.
pub fn generate_field(types: &TypeMap, side: CodecSide, field_type: &FieldType, offset: usize) -> (r:
    Result<(FieldAccessor, usize), SchemaError>)
    ensures
        match r {
            Ok((a, size)) => types@.block_field(side, field_type@, offset) == Ok::<
                FieldAccessorView,
                Fault,
            >(a@) && types@.block_field_size(field_type@) == Ok::<nat, Fault>(size as nat),
            Err(e) => match types@.block_field(side, field_type@, offset) {
                Err(f) => f == e@,
                Ok(_) => types@.block_field_size(field_type@) == Err::<nat, Fault>(e@),
            },
        },
{
    let repr_type = match field_type.to_type(types) {
        Ok(t) => t,
        Err(e) => { return Err(e); },
    };
    match field_type.presence {
        Presence::Constant => match side {
            CodecSide::Encoder => Ok((FieldAccessor::Skipped, 0)),
            CodecSide::Decoder => match generate_constant_enum(types, field_type, &repr_type) {
                Ok(a) => Ok((FieldAccessor::ConstantEnum(a), 0)),
                Err(e) => Err(e),
            },
        },
        _ => {
            let accessor = match field_accessor(
                types,
                side,
                field_type.name.as_str(),
                &repr_type,
                offset,
            ) {
                Ok(a) => a,
                Err(e) => { return Err(e); },
            };
            match repr_type.size(types) {
                Ok(size) => Ok((accessor, size)),
                Err(e) => Err(e),
            }
        },
    }
}

/// The accessors of the fields of a block that starts at `*offset`.  At the end `*offset`
/// is where the block ends.
pub fn generate_fields(
    types: &TypeMap,
    side: CodecSide,
    fields: &Vec<&FieldType>,
    offset: &mut usize,
) -> (r: Result<Vec<FieldAccessor>, SchemaError>)
    ensures
        match r {
            Ok(a) => types@.block(side, views_of_refs(fields@), *old(offset) as nat) == Ok::<
                (Seq<FieldAccessorView>, nat),
                Fault,
            >((views_of(a@), *final(offset) as nat)),
            Err(e) => types@.block(side, views_of_refs(fields@), *old(offset) as nat) == Err::<
                (Seq<FieldAccessorView>, nat),
                Fault,
            >(e@),
        },
{
    let ghost views = views_of_refs(fields@);
    let ghost start = *offset as nat;
    let mut out: Vec<FieldAccessor> = Vec::new();
    assert(views_of(out@) =~= Seq::<FieldAccessorView>::empty());
    let mut i: usize = 0;
    while i < fields.len()
        invariant
            i <= fields.len(),
            views == views_of_refs(fields@),
            views.len() == fields.len(),
            start == *old(offset) as nat,
            types@.block_accessors(side, views, start, i as nat) == Ok::<
                Seq<FieldAccessorView>,
                Fault,
            >(views_of(out@)),
            types@.block_end(views, start, i as nat) == Ok::<nat, Fault>(*offset as nat),
        decreases fields.len() - i,
    {
        let ghost before = views_of(out@);
        assert(views[i as int] == fields@[i as int]@);
        proof {
            let next = (i + 1) as nat;
            assert((next - 1) as nat == i as nat);
            assert(types@.block_accessors(side, views, start, next) == match types@.block_field(
                side,
                views[i as int],
                *offset,
            ) {
                Err(f) => Err::<Seq<FieldAccessorView>, Fault>(f),
                Ok(a) => Ok(before.push(a)),
            });
            assert(types@.block_end(views, start, next) == match types@.block_field_size(
                views[i as int],
            ) {
                Err(f) => Err::<nat, Fault>(f),
                Ok(size) => crate::models::sizing::checked_sum(*offset as nat, size),
            });
        }
        let (accessor, size) = match generate_field(types, side, fields[i], *offset) {
            Ok(p) => p,
            Err(e) => {
                proof {
                    if types@.block_field(side, views[i as int], *offset) is Err {
                        lemma_block_accessors_fault(
                            types@,
                            side,
                            views,
                            start,
                            i as nat + 1,
                            fields@.len(),
                        );
                    } else {
                        lemma_block_end_fault(types@, views, start, i as nat + 1, fields@.len());
                        lemma_block_accessors_need_end(types@, side, views, start, i as nat + 1);
                    }
                }
                return Err(e);
            },
        };
        out.push(accessor);
        assert(views_of(out@) =~= before.push(accessor@));
        *offset = match offset.checked_add(size) {
            Some(n) => n,
            None => {
                proof {
                    lemma_block_end_fault(types@, views, start, i as nat + 1, fields@.len());
                    lemma_block_accessors_need_end(types@, side, views, start, i as nat + 1);
                }
                return Err(SchemaError::SizeOverflow);
            },
        };
        i = i + 1;
    }
    Ok(out)
}

/// A fault in the end of the first fields is the fault of the end of all.
pub proof fn lemma_block_end_fault(
    types: TypeMapView,
    fields: Seq<FieldTypeView>,
    start: nat,
    k: nat,
    n: nat,
)
    requires
        k <= n <= fields.len(),
        types.block_end(fields, start, k) is Err,
    ensures
        types.block_end(fields, start, n) == types.block_end(fields, start, k),
    decreases n - k,
{
    if k < n {
        lemma_block_end_fault(types, fields, start, k, (n - 1) as nat);
    }
}

/// Where the block has no end after `k` fields, the accessors of all fields either fail
/// with the same fault, or exist without the block having an end.
pub proof fn lemma_block_accessors_need_end(
    types: TypeMapView,
    side: CodecSide,
    fields: Seq<FieldTypeView>,
    start: nat,
    k: nat,
)
    requires
        k <= fields.len(),
        types.block_accessors(side, fields, start, k) is Ok,
        types.block_end(fields, start, k) is Err,
    ensures
        types.block(side, fields, start) == Err::<(Seq<FieldAccessorView>, nat), Fault>(
            types.block_end(fields, start, k)->Err_0,
        ),
{
    lemma_block_end_fault(types, fields, start, k, fields.len());
    if k < fields.len() {
        assert(types.block_accessors(side, fields, start, k + 1) is Err);
        assert(types.block_accessors(side, fields, start, k + 1)->Err_0 == types.block_end(
            fields,
            start,
            k,
        )->Err_0);
        lemma_block_accessors_fault(types, side, fields, start, k + 1, fields.len());
    }
}

fn recorded(name: &str, of_group: bool) -> (r: RecordedSize)
    ensures
        r@ == recorded_size(name@, of_group),
{
    RecordedSize {
        size_field: snake_name(name).concat("_size"),
        func_name: snake_name(name),
        of_group,
    }
}

fn recorded_for_groups(groups: &Vec<&GroupType>) -> (r: Vec<RecordedSize>)
    ensures
        views_of(r@) == recorded_groups(views_of_refs(groups@), groups@.len()),
{
    let mut out: Vec<RecordedSize> = Vec::new();
    let mut i: usize = 0;
    while i < groups.len()
        invariant
            i <= groups.len(),
            out@.len() == i,
            forall|j: int|
                0 <= j < i ==> (#[trigger] out@[j])@ == recorded_size(groups@[j]@.name, true),
        decreases groups.len() - i,
    {
        out.push(recorded(groups[i].name.as_str(), true));
        i = i + 1;
    }
    assert(views_of(out@) =~= recorded_groups(views_of_refs(groups@), groups@.len()));
    out
}

/// How the nested groups are reached.
pub fn generate_groups(groups: &Vec<&GroupType>) -> (r: Vec<NestedCodec>)
    ensures
        views_of(r@) == nested_groups(views_of_refs(groups@)),
{
    let ghost gv = views_of_refs(groups@);
    let mut out: Vec<NestedCodec> = Vec::new();
    let mut seen: Vec<RecordedSize> = Vec::new();
    let mut i: usize = 0;
    assert(views_of(seen@) =~= recorded_groups(gv, 0));
    while i < groups.len()
        invariant
            i <= groups.len(),
            gv == views_of_refs(groups@),
            out@.len() == i,
            views_of(seen@) == recorded_groups(gv, i as nat),
            forall|j: int|
                0 <= j < i ==> (#[trigger] out@[j])@ == nested_codec(
                    gv[j].name,
                    recorded_groups(gv, j as nat),
                ),
        decreases groups.len() - i,
    {
        assert(gv[i as int] == groups@[i as int]@);
        let name = groups[i].name.as_str();
        out.push(nested(name, duplicate_all(&seen)));
        let ghost before = seen@;
        seen.push(recorded(name, true));
        i = i + 1;
        assert(views_of(seen@) =~= recorded_groups(gv, i as nat)) by {
            assert(views_of(seen@) =~= views_of(before).push(recorded_size(name@, true)));
        }
    }
    assert(views_of(out@) =~= nested_groups(gv));
    out
}

/// How the variable-length fields are reached, behind the groups.
pub fn generate_var_data_fields(
    var_data_fields: &Vec<&VariableDataType>,
    groups: &Vec<&GroupType>,
) -> (r: Vec<NestedCodec>)
    ensures
        views_of(r@) == nested_var_data(views_of_refs(groups@), views_of_refs(var_data_fields@)),
{
    let ghost gv = views_of_refs(groups@);
    let ghost vv = views_of_refs(var_data_fields@);
    let ghost first = recorded_groups(gv, groups@.len());
    let mut out: Vec<NestedCodec> = Vec::new();
    let mut seen: Vec<RecordedSize> = recorded_for_groups(groups);
    let mut i: usize = 0;
    assert(views_of(seen@) =~= first + recorded_var_data(vv, 0));
    while i < var_data_fields.len()
        invariant
            i <= var_data_fields.len(),
            gv == views_of_refs(groups@),
            vv == views_of_refs(var_data_fields@),
            first == recorded_groups(gv, groups@.len()),
            out@.len() == i,
            views_of(seen@) == first + recorded_var_data(vv, i as nat),
            forall|j: int|
                0 <= j < i ==> (#[trigger] out@[j])@ == nested_codec(
                    vv[j].name,
                    first + recorded_var_data(vv, j as nat),
                ),
        decreases var_data_fields.len() - i,
    {
        assert(vv[i as int] == var_data_fields@[i as int]@);
        let name = var_data_fields[i].name.as_str();
        out.push(nested(name, duplicate_all(&seen)));
        let ghost before = seen@;
        seen.push(recorded(name, false));
        i = i + 1;
        assert(views_of(seen@) =~= first + recorded_var_data(vv, i as nat)) by {
            assert(views_of(seen@) =~= views_of(before).push(recorded_size(name@, false)));
        }
    }
    assert(views_of(out@) =~= nested_var_data(gv, vv));
    out
}

/// How a nested construct of the name `name` is reached, behind the constructs whose
/// sizes are `preceding`.
pub fn nested(name: &str, preceding: Vec<RecordedSize>) -> (r: NestedCodec)
    ensures
        r@ == nested_codec(name@, views_of(preceding@)),
{
    NestedCodec {
        func_name: snake_name(name),
        size_field: snake_name(name).concat("_size"),
        decoder_name: codec_name(name, CodecSide::Decoder),
        encoder_name: codec_name(name, CodecSide::Encoder),
        preceding,
    }
}

/// The dimension composite of a group.
pub fn dimension_type<'a>(group: &GroupType, composite_types: &'a crate::models::table::Table<
    CompositeType,
>) -> (r: Result<&'a CompositeType, SchemaError>)
    ensures
        match r {
            Ok(c) => lookup(composite_types@, dimension_name(group@)) == Some(c@),
            Err(e) => lookup(composite_types@, dimension_name(group@)) is None && e@
                == (Fault::MissingDimensionType {
                type_ref: dimension_name(group@),
                group: group@.name,
            }),
        },
{
    let dimension_type_name = match &group.dimension_type {
        Some(n) => n.clone(),
        None => String::from_str("groupSizeEncoding"),
    };
    match composite_types.get(dimension_type_name.as_str()) {
        Some(c) => Ok(c),
        None => Err(
            SchemaError::MissingDimensionType {
                type_ref: dimension_type_name,
                group: group.name.clone(),
            },
        ),
    }
}

/// All that the codecs of a group are made of.
pub fn group_codec(types: &TypeMap, group: &GroupType) -> (r: Result<GroupCodecPlan, SchemaError>)
    ensures
        match r {
            Ok(p) => types@.group_plan(group@) == Ok::<GroupCodecPlanView, Fault>(p@),
            Err(e) => types@.group_plan(group@) == Err::<GroupCodecPlanView, Fault>(e@),
        },
{
    reveal(TypeMapView::group_plan);
    let name = group.name.as_str();
    let (fields, groups, var_data) = field_groups(group.fields.as_slice());

    let dimension_type = match dimension_type(group, &types.composite_types) {
        Ok(c) => c,
        Err(e) => { return Err(e); },
    };
    proof {
        lemma_type_views(dimension_type.fields@);
        lemma_message_field_views(group.fields@);
    }
    let dimension_size = match dimension_type.size(types) {
        Ok(n) => n,
        Err(e) => { return Err(e); },
    };
    let count = dimension_type.fields.len();
    if count == 0 {
        return Err(SchemaError::BlockLengthNotEncoded(group.name.clone()));
    }
    let block_length_type = match &dimension_type.fields[0] {
        Type::EncodedData(block_length_type) => block_length_type,
        _ => { return Err(SchemaError::BlockLengthNotEncoded(group.name.clone())); },
    };
    let num_in_group_type = match &dimension_type.fields[count - 1] {
        Type::EncodedData(num_in_group_type) => num_in_group_type,
        _ => { return Err(SchemaError::NumInGroupNotEncoded(group.name.clone())); },
    };
    let block_length_primitive = match block_length_type.primitive_type.resolved(
        &types.encoded_types,
    ) {
        Ok(k) => k.rust_primitive(),
        Err(e) => { return Err(e); },
    };
    let block_length_size = match block_length_type.primitive_type.size(types) {
        Ok(n) => n,
        Err(e) => { return Err(e); },
    };
    let num_in_group_kind = match num_in_group_type.primitive_type.resolved(&types.encoded_types) {
        Ok(k) => k,
        Err(e) => { return Err(e); },
    };
    let num_in_group_primitive = num_in_group_kind.rust_primitive();
    let num_in_group_size = num_in_group_kind.width();

    let mut offset: usize = 0;
    let encoder_fields = match generate_fields(types, CodecSide::Encoder, &fields, &mut offset) {
        Ok(a) => a,
        Err(e) => { return Err(e); },
    };
    let block_length = offset;
    let mut offset: usize = 0;
    let decoder_fields = match generate_fields(types, CodecSide::Decoder, &fields, &mut offset) {
        Ok(a) => a,
        Err(e) => { return Err(e); },
    };

    Ok(
        GroupCodecPlan {
            name: String::from_str(name),
            module_name: snake_name(name),
            decoder_name: codec_name(name, CodecSide::Decoder),
            encoder_name: codec_name(name, CodecSide::Encoder),
            dimension_decoder_name: codec_name(dimension_type.name.as_str(), CodecSide::Decoder),
            dimension_size,
            block_length_primitive: String::from_str(block_length_primitive.name),
            block_length_size,
            num_in_group_primitive: String::from_str(num_in_group_primitive.name),
            num_in_group_size,
            block_length,
            encoder_fields,
            decoder_fields,
            groups: generate_groups(&groups),
            var_data: generate_var_data_fields(&var_data, &groups),
        },
    )
}

} // verus!
