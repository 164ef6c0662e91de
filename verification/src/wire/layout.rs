//! From the plan of an accessor to the field that the wire knows: the literals of the
//! schema become numbers.

use crate::duplicate::views_of;
use crate::generator::rust::codecs::composite_type::{
    lemma_accessors_apart, lemma_fields_size_fits, CodecSide, CompositeCodecPlan,
    CompositeCodecPlanView, FieldAccessor, FieldAccessorView, ValueAccessor, ValueAccessorView,
    ValueShape,
};
use crate::generator::rust::codecs::group_type::{
    lemma_block_accessors_apart, GroupCodecPlan, GroupCodecPlanView, NestedCodecView,
};
use crate::models::types::field_type::FieldTypeView;
use crate::models::types::TypeView;
use crate::models::{ByteOrder, TypeMapView};
use crate::wire::message::apart;
use crate::wire::scalar::lemma_other_field_untouched;
use crate::generator::rust::codecs::var_data_type::{VarDataCodecPlan, VarDataCodecPlanView};
use crate::wire::group::{GroupLayout, GroupLayoutView, NestedName, NestedNameView};
use crate::wire::message::{HeaderLayout, HeaderLayoutView};
use crate::wire::var_data::{VarDataLayout, VarDataLayoutView};
use crate::text::{opt_text, parse_unsigned, same_text, unsigned_of};
use crate::wire::buffer::lemma_pow256_values;
use crate::wire::scalar::{bound_view, Primitive, ScalarField, ScalarFieldView};
use vstd::prelude::*;
use vstd::string::*;

verus! {

/// The integer that a decimal numeral with an optional minus sign writes.
pub open spec fn signed_of(text: Seq<char>) -> Option<int> {
    if text.len() > 0 && text[0] == '-' {
        match unsigned_of(text.subrange(1, text.len() as int)) {
            Some(n) => Some(-(n as int)),
            None => None,
        }
    } else {
        match unsigned_of(text) {
            Some(n) => Some(n as int),
            None => None,
        }
    }
}

/// Reads a decimal numeral with an optional minus sign.
pub fn parse_signed(text: &str) -> (r: Option<i128>)
    ensures
        bound_view(r) == signed_of(text@),
{
    let len = text.unicode_len();
    if len > 0 && text.get_char(0) == '-' {
        match parse_unsigned(text.substring_char(1, len)) {
            Some(n) => Some(-(n as i128)),
            None => None,
        }
    } else {
        match parse_unsigned(text) {
            Some(n) => Some(n as i128),
            None => None,
        }
    }
}

/// The name of a primitive kind in emitted code.
pub open spec fn primitive_name(p: Primitive) -> Seq<char> {
    match p {
        Primitive::Char | Primitive::UInt8 => "u8"@,
        Primitive::UInt16 => "u16"@,
        Primitive::UInt32 => "u32"@,
        Primitive::UInt64 => "u64"@,
        Primitive::Int8 => "i8"@,
        Primitive::Int16 => "i16"@,
        Primitive::Int32 => "i32"@,
        Primitive::Int64 => "i64"@,
        Primitive::Float => "f32"@,
        Primitive::Double => "f64"@,
    }
}

/// The number that a literal of the schema stands for in a field of the kind `p`: the
/// greatest or least value or the NaN of the kind by its name, or a decimal numeral of a
/// value that the kind can hold.
pub open spec fn literal_of(text: Seq<char>, p: Primitive) -> Option<int> {
    if text == primitive_name(p) + "::MAX"@ && !p.is_float() {
        Some(p.greatest())
    } else if text == primitive_name(p) + "::MIN"@ && !p.is_float() {
        Some(p.least())
    } else if text == primitive_name(p) + "::NAN"@ && p.is_float() {
        Some(p.default_null())
    } else {
        match signed_of(text) {
            Some(v) => if p.holds(v) {
                Some(v)
            } else {
                None
            },
            None => None,
        }
    }
}

fn name_of(p: Primitive) -> (r: &'static str)
    ensures
        r@ == primitive_name(p),
{
    match p {
        Primitive::Char | Primitive::UInt8 => "u8",
        Primitive::UInt16 => "u16",
        Primitive::UInt32 => "u32",
        Primitive::UInt64 => "u64",
        Primitive::Int8 => "i8",
        Primitive::Int16 => "i16",
        Primitive::Int32 => "i32",
        Primitive::Int64 => "i64",
        Primitive::Float => "f32",
        Primitive::Double => "f64",
    }
}

/// The number that a literal of the schema stands for.
pub fn literal_value(text: &str, p: Primitive) -> (r: Option<i128>)
    ensures
        bound_view(r) == literal_of(text@, p),
        r matches Some(v) ==> p.holds(v as int),
{
    proof {
        lemma_pow256_values();
    }
    let float = match p {
        Primitive::Float | Primitive::Double => true,
        _ => false,
    };
    let m = p.modulus();
    if !float && same_text(text, String::from_str(name_of(p)).concat("::MAX").as_str()) {
        if p.is_signed() {
            Some(m / 2 - 1)
        } else {
            Some(m - 1)
        }
    } else if !float && same_text(text, String::from_str(name_of(p)).concat("::MIN").as_str()) {
        if p.is_signed() {
            Some(-(m / 2))
        } else {
            Some(0)
        }
    } else if float && same_text(text, String::from_str(name_of(p)).concat("::NAN").as_str()) {
        Some(p.null())
    } else {
        match parse_signed(text) {
            Some(v) => if p.contains(v) {
                Some(v)
            } else {
                None
            },
            None => None,
        }
    }
}

/// An optional literal as a number: none stays none; a literal that stands for no
/// number makes the whole fail.
pub open spec fn bound_of(text: Option<Seq<char>>, p: Primitive) -> Option<Option<int>> {
    match text {
        None => Some(None),
        Some(t) => match literal_of(t, p) {
            Some(v) => Some(Some(v)),
            None => None,
        },
    }
}

/// Whether the plan of an accessor is for one value of the primitive `p`, no more and no
/// less: one element, as wide as the primitive.
pub open spec fn one_value_of(a: ValueAccessorView, p: Primitive) -> bool {
    &&& a.shape is Single
    &&& a.metadata.field_length == 1
    &&& a.metadata.type_size == p.width()
}

/// The field that the wire knows for the plan of an accessor, with the null sentinel
/// that `null_literal` stands for.  There is none for a text or an array, nor for an
/// element that is not as wide as its primitive, nor where a literal stands for no
/// number of the primitive.
pub open spec fn scalar_field_of(a: ValueAccessorView, null_literal: Seq<char>) -> Option<
    ScalarFieldView,
> {
    match Primitive::of_native(a.metadata.field_primitive_type) {
        Some(p) if one_value_of(a, p) => match (
            literal_of(null_literal, p),
            bound_of(a.min_value, p),
            bound_of(a.max_value, p),
        ) {
            (Some(null_value), Some(min_value), Some(max_value)) => Some(
                ScalarFieldView {
                    name: a.metadata.field_name,
                    offset: a.offset,
                    primitive: p,
                    null_value,
                    null_is_nan: p.is_float() && p.is_nan(null_value),
                    min_value,
                    max_value,
                },
            ),
            _ => None,
        },
        _ => None,
    }
}

fn bound_value(text: &Option<String>, p: Primitive) -> (r: Option<Option<i128>>)
    ensures
        match r {
            Some(b) => bound_of(opt_text(*text), p) == Some(bound_view(b)),
            None => bound_of(opt_text(*text), p) is None,
        },
{
    match text {
        None => Some(None),
        Some(t) => match literal_value(t.as_str(), p) {
            Some(v) => Some(Some(v)),
            None => None,
        },
    }
}

/// The field that the wire knows for the plan of an accessor.
pub fn scalar_field(accessor: &ValueAccessor, null_literal: &str) -> (r: Option<ScalarField>)
    ensures
        match r {
            Some(f) => scalar_field_of(accessor@, null_literal@) == Some(f@) && f@.wf(),
            None => scalar_field_of(accessor@, null_literal@) is None,
        },
{
    let p = match Primitive::from_native(&accessor.metadata.field_primitive_type) {
        Some(p) => p,
        None => { return None; },
    };
    match accessor.shape {
        ValueShape::Single => {},
        _ => { return None; },
    }
    if accessor.metadata.field_length != 1 || accessor.metadata.type_size != p.size() {
        return None;
    }
    let null_value = match literal_value(null_literal, p) {
        Some(v) => v,
        None => { return None; },
    };
    let min_value = match bound_value(&accessor.min_value, p) {
        Some(b) => b,
        None => { return None; },
    };
    let max_value = match bound_value(&accessor.max_value, p) {
        Some(b) => b,
        None => { return None; },
    };
    let float = match p {
        Primitive::Float | Primitive::Double => true,
        _ => false,
    };
    let null_is_nan = float && p.nan(null_value);
    Some(
        ScalarField {
            name: accessor.metadata.field_name.clone(),
            offset: accessor.offset,
            primitive: p,
            null_value,
            null_is_nan,
            min_value,
            max_value,
        },
    )
}

/// A field that the wire knows for the plan of an accessor stands where the accessor
/// stands, and is as wide as the bytes that the accessor covers.
pub proof fn lemma_scalar_field_span(a: ValueAccessorView, null_literal: Seq<char>)
    requires
        scalar_field_of(a, null_literal) is Some,
    ensures
        ({
            let f = scalar_field_of(a, null_literal)->Some_0;
            FieldAccessorView::Value(a).span() == Some(
                (f.offset as nat, f.primitive.width()),
            )
        }),
{
    assert(a.metadata.type_size * a.metadata.field_length == a.metadata.type_size)
        by (nonlinear_arith)
        requires
            a.metadata.field_length == 1,
    ;
}

/// Offset locality of a composite: two sub-fields that the wire knows as single values
/// share no byte, and both lie within the composite.  So writing a value into the one
/// leaves what the other decodes to as it was.
pub proof fn lemma_composite_fields_apart(
    types: TypeMapView,
    side: CodecSide,
    fields: Seq<TypeView>,
    i: int,
    j: int,
    null_i: Seq<char>,
    null_j: Seq<char>,
    data: Seq<u8>,
    order: ByteOrder,
    v: int,
)
    requires
        types.fields_size(fields, types.count()) is Ok,
        types.accessors(side, fields, fields.len()) is Ok,
        0 <= i < fields.len(),
        0 <= j < fields.len(),
        i != j,
        types.accessors(side, fields, fields.len())->Ok_0[i] matches FieldAccessorView::Value(a)
            && scalar_field_of(a, null_i) is Some,
        types.accessors(side, fields, fields.len())->Ok_0[j] matches FieldAccessorView::Value(a)
            && scalar_field_of(a, null_j) is Some,
    ensures
        ({
            let accessors = types.accessors(side, fields, fields.len())->Ok_0;
            let f = scalar_field_of(accessors[i]->Value_0, null_i)->Some_0;
            let g = scalar_field_of(accessors[j]->Value_0, null_j)->Some_0;
            let size = types.fields_size(fields, types.count())->Ok_0;
            &&& apart(f, g)
            &&& f.offset + f.primitive.width() <= size
            &&& g.offset + g.primitive.width() <= size
            &&& f.primitive.holds(v) && f.encoded_required(data, order, v) is Ok && size
                <= data.len() ==> g.decoded_required(
                f.encoded_required(data, order, v)->Ok_0,
                order,
            ) == g.decoded_required(data, order)
        }),
{
    let accessors = types.accessors(side, fields, fields.len())->Ok_0;
    let f = scalar_field_of(accessors[i]->Value_0, null_i)->Some_0;
    let g = scalar_field_of(accessors[j]->Value_0, null_j)->Some_0;
    let size = types.fields_size(fields, types.count())->Ok_0;
    lemma_scalar_field_span(accessors[i]->Value_0, null_i);
    lemma_scalar_field_span(accessors[j]->Value_0, null_j);
    if i < j {
        lemma_accessors_apart(types, side, fields, i, j);
    } else {
        lemma_accessors_apart(types, side, fields, j, i);
    }
    lemma_fields_size_fits(types, fields, types.count());
    if f.primitive.holds(v) && f.encoded_required(data, order, v) is Ok && size <= data.len() {
        lemma_other_field_untouched(f, g, data, order, v);
    }
}

/// Offset locality of the block of a message or of a group entry: two fields that the
/// wire knows as single values share no byte, and both lie between the start of the
/// block and its end.  So writing a value into the one leaves what the other decodes to
/// as it was.
pub proof fn lemma_block_fields_apart(
    types: TypeMapView,
    side: CodecSide,
    fields: Seq<FieldTypeView>,
    start: usize,
    i: int,
    j: int,
    null_i: Seq<char>,
    null_j: Seq<char>,
    data: Seq<u8>,
    order: ByteOrder,
    v: int,
)
    requires
        types.block(side, fields, start as nat) is Ok,
        0 <= i < fields.len(),
        0 <= j < fields.len(),
        i != j,
        types.block(side, fields, start as nat)->Ok_0.0[i] matches FieldAccessorView::Value(a)
            && scalar_field_of(a, null_i) is Some,
        types.block(side, fields, start as nat)->Ok_0.0[j] matches FieldAccessorView::Value(a)
            && scalar_field_of(a, null_j) is Some,
    ensures
        ({
            let (accessors, end) = types.block(side, fields, start as nat)->Ok_0;
            let f = scalar_field_of(accessors[i]->Value_0, null_i)->Some_0;
            let g = scalar_field_of(accessors[j]->Value_0, null_j)->Some_0;
            &&& apart(f, g)
            &&& start <= f.offset && f.offset + f.primitive.width() <= end
            &&& start <= g.offset && g.offset + g.primitive.width() <= end
            &&& f.primitive.holds(v) && f.encoded_required(data, order, v) is Ok && end
                <= data.len() ==> g.decoded_required(
                f.encoded_required(data, order, v)->Ok_0,
                order,
            ) == g.decoded_required(data, order)
        }),
{
    let (accessors, end) = types.block(side, fields, start as nat)->Ok_0;
    let f = scalar_field_of(accessors[i]->Value_0, null_i)->Some_0;
    let g = scalar_field_of(accessors[j]->Value_0, null_j)->Some_0;
    lemma_scalar_field_span(accessors[i]->Value_0, null_i);
    lemma_scalar_field_span(accessors[j]->Value_0, null_j);
    if i < j {
        lemma_block_accessors_apart(types, side, fields, start, i, j);
    } else {
        lemma_block_accessors_apart(types, side, fields, start, j, i);
    }
    if f.primitive.holds(v) && f.encoded_required(data, order, v) is Ok && end <= data.len() {
        lemma_other_field_untouched(f, g, data, order, v);
    }
}

/// How a nested construct is named in the layout of a group.
pub open spec fn nested_name(n: NestedCodecView, is_group: bool) -> NestedNameView {
    NestedNameView { name: n.func_name, is_group }
}

/// The layout that the wire knows for the plan of a group: the nested groups come first,
/// then the variable-length fields.
pub open spec fn group_layout_of(plan: GroupCodecPlanView) -> GroupLayoutView {
    GroupLayoutView {
        name: plan.name,
        dimension_size: plan.dimension_size,
        block_length_size: plan.block_length_size,
        num_in_group_size: plan.num_in_group_size,
        block_length: plan.block_length,
        nested: plan.groups.map_values(|n: NestedCodecView| nested_name(n, true))
            + plan.var_data.map_values(|n: NestedCodecView| nested_name(n, false)),
    }
}

/// The layout that the wire knows for the plan of a group.
pub fn group_layout(plan: &GroupCodecPlan) -> (r: GroupLayout)
    ensures
        r@ == group_layout_of(plan@),
{
    let ghost groups = plan@.groups.map_values(|n: NestedCodecView| nested_name(n, true));
    let ghost var_data = plan@.var_data.map_values(|n: NestedCodecView| nested_name(n, false));
    let mut nested: Vec<NestedName> = Vec::new();
    let mut i: usize = 0;
    while i < plan.groups.len()
        invariant
            i <= plan.groups.len(),
            nested@.len() == i,
            forall|j: int|
                0 <= j < i ==> (#[trigger] nested@[j])@ == nested_name(plan.groups@[j]@, true),
        decreases plan.groups.len() - i,
    {
        nested.push(NestedName { name: plan.groups[i].func_name.clone(), is_group: true });
        i = i + 1;
    }
    let mut i: usize = 0;
    while i < plan.var_data.len()
        invariant
            i <= plan.var_data.len(),
            nested@.len() == plan.groups@.len() + i,
            forall|j: int|
                0 <= j < plan.groups@.len() ==> (#[trigger] nested@[j])@ == nested_name(
                    plan.groups@[j]@,
                    true,
                ),
            forall|j: int|
                0 <= j < i ==> (#[trigger] nested@[plan.groups@.len() + j])@ == nested_name(
                    plan.var_data@[j]@,
                    false,
                ),
        decreases plan.var_data.len() - i,
    {
        nested.push(NestedName { name: plan.var_data[i].func_name.clone(), is_group: false });
        i = i + 1;
    }
    let r = GroupLayout {
        name: plan.name.clone(),
        dimension_size: plan.dimension_size,
        block_length_size: plan.block_length_size,
        num_in_group_size: plan.num_in_group_size,
        block_length: plan.block_length,
        nested,
    };
    proof {
        let all = groups + var_data;
        assert(r@.nested.len() == all.len());
        assert forall|j: int| 0 <= j < all.len() implies r@.nested[j] == all[j] by {
            if j >= groups.len() {
                assert(nested@[plan.groups@.len() + (j - groups.len())]@ == nested_name(
                    plan.var_data@[j - groups.len()]@,
                    false,
                ));
            }
        }
        assert(r@.nested =~= all);
    }
    r
}

/// The layout that the wire knows for the plan of a variable-length field; none where
/// the elements are of no primitive kind.
pub open spec fn var_data_layout_of(plan: VarDataCodecPlanView) -> Option<VarDataLayoutView> {
    match Primitive::of_native(plan.value.field_primitive_type) {
        Some(element) => Some(
            VarDataLayoutView {
                name: plan.name,
                prefix_size: plan.length.type_size as usize,
                element,
                ascii_only: plan.ascii_only,
            },
        ),
        None => None,
    }
}

/// The layout that the wire knows for the plan of a variable-length field.
pub fn var_data_layout(plan: &VarDataCodecPlan) -> (r: Option<VarDataLayout>)
    ensures
        match r {
            Some(l) => var_data_layout_of(plan@) == Some(l@),
            None => var_data_layout_of(plan@) is None,
        },
{
    match Primitive::from_native(&plan.value.field_primitive_type) {
        Some(element) => Some(
            VarDataLayout {
                name: plan.name.clone(),
                prefix_size: plan.length.type_size,
                element,
                ascii_only: plan.ascii_only,
            },
        ),
        None => None,
    }
}

/// The index of the first accessor at or after `i` that is for a value on the wire under
/// the name `name`; the number of accessors if there is none.
pub open spec fn accessor_index_from(
    accessors: Seq<FieldAccessorView>,
    name: Seq<char>,
    i: int,
) -> int
    decreases accessors.len() - i,
{
    if i < 0 || i >= accessors.len() {
        accessors.len() as int
    } else if accessors[i] matches FieldAccessorView::Value(a) && a.metadata.field_name == name {
        i
    } else {
        accessor_index_from(accessors, name, i + 1)
    }
}

/// The field that the wire knows for the accessor of the name `name`, with the default
/// null of its primitive; none where there is no such accessor, or where it is for no
/// single primitive.
pub open spec fn header_field_of(accessors: Seq<FieldAccessorView>, name: Seq<char>) -> Option<
    ScalarFieldView,
> {
    let i = accessor_index_from(accessors, name, 0);
    if i < accessors.len() {
        let a = accessors[i]->Value_0;
        match Primitive::of_native(a.metadata.field_primitive_type) {
            Some(p) => scalar_field_of(a, default_null_text(p)),
            None => None,
        }
    } else {
        None
    }
}

/// The literal of the default null of a primitive kind.
pub open spec fn default_null_text(p: Primitive) -> Seq<char> {
    match p {
        Primitive::Char => "u8::MIN"@,
        Primitive::Float => "f32::NAN"@,
        Primitive::Double => "f64::NAN"@,
        _ => if p.signed() {
            primitive_name(p) + "::MIN"@
        } else {
            primitive_name(p) + "::MAX"@
        },
    }
}

fn null_text(p: Primitive) -> (r: String)
    ensures
        r@ == default_null_text(p),
{
    match p {
        Primitive::Char => String::from_str("u8::MIN"),
        Primitive::Float => String::from_str("f32::NAN"),
        Primitive::Double => String::from_str("f64::NAN"),
        Primitive::Int8 | Primitive::Int16 | Primitive::Int32 | Primitive::Int64 => String::from_str(
            name_of(p),
        ).concat("::MIN"),
        _ => String::from_str(name_of(p)).concat("::MAX"),
    }
}

fn header_field(accessors: &Vec<FieldAccessor>, name: &str) -> (r: Option<ScalarField>)
    ensures
        match r {
            Some(f) => header_field_of(views_of(accessors@), name@) == Some(f@),
            None => header_field_of(views_of(accessors@), name@) is None,
        },
{
    let ghost views = views_of(accessors@);
    let mut i: usize = 0;
    while i < accessors.len()
        invariant
            i <= accessors.len(),
            views == views_of(accessors@),
            accessor_index_from(views, name@, 0) == accessor_index_from(views, name@, i as int),
        decreases accessors.len() - i,
    {
        assert(views[i as int] == accessors@[i as int]@);
        if let FieldAccessor::Value(a) = &accessors[i] {
            if same_text(a.metadata.field_name.as_str(), name) {
                return match Primitive::from_native(&a.metadata.field_primitive_type) {
                    Some(p) => scalar_field(a, null_text(p).as_str()),
                    None => None,
                };
            }
        }
        i = i + 1;
    }
    None
}

/// The layout of the message header that the wire knows for the plan of the header
/// composite: its block length, template id, schema id and version, each where the
/// encoder of the composite writes it.
pub open spec fn header_layout_of(plan: CompositeCodecPlanView) -> Option<HeaderLayoutView> {
    match (
        header_field_of(plan.encoder_fields, "block_length"@),
        header_field_of(plan.encoder_fields, "template_id"@),
        header_field_of(plan.encoder_fields, "schema_id"@),
        header_field_of(plan.encoder_fields, "version"@),
    ) {
        (Some(block_length), Some(template_id), Some(schema_id), Some(version)) => Some(
            HeaderLayoutView { block_length, template_id, schema_id, version },
        ),
        _ => None,
    }
}

/// The layout of the message header that the wire knows for the plan of the header
/// composite.
pub fn header_layout(plan: &CompositeCodecPlan) -> (r: Option<HeaderLayout>)
    ensures
        match r {
            Some(h) => header_layout_of(plan@) == Some(h@),
            None => header_layout_of(plan@) is None,
        },
{
    let block_length = match header_field(&plan.encoder_fields, "block_length") {
        Some(f) => f,
        None => { return None; },
    };
    let template_id = match header_field(&plan.encoder_fields, "template_id") {
        Some(f) => f,
        None => { return None; },
    };
    let schema_id = match header_field(&plan.encoder_fields, "schema_id") {
        Some(f) => f,
        None => { return None; },
    };
    let version = match header_field(&plan.encoder_fields, "version") {
        Some(f) => f,
        None => { return None; },
    };
    Some(HeaderLayout { block_length, template_id, schema_id, version })
}

} // verus!
