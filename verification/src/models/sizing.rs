//! How many bytes a construct occupies on the wire, and where a field of a composite starts.
//!
//! A reference is followed through the type table.  Every step through the table uses up one
//! unit of an allowance that starts at the number of declared types: a chain that needs more
//! steps than there are types comes by some type twice, and is rejected as a cycle.

use crate::error::{size_outcome, Fault, SchemaError};
use crate::models::types::composite_type::CompositeType;
use crate::models::types::encoded_data_type::{EncodedDataType, EncodedDataTypeView};
use crate::models::types::primitive_type::{NativeType, NativeTypeView};
use crate::models::types::{lemma_type_views, type_views, Presence, Type, TypeView};
use crate::models::{TypeMap, TypeMapView};
use crate::text::byte_len;
use vstd::prelude::*;
use vstd::string::*;

verus! {

/// A sum, if it fits in `usize`.
pub open spec fn checked_sum(a: nat, b: nat) -> Result<nat, Fault> {
    if a + b > usize::MAX {
        Err(Fault::SizeOverflow)
    } else {
        Ok(a + b)
    }
}

/// A product, if it fits in `usize`.
pub open spec fn checked_product(a: nat, b: nat) -> Result<nat, Fault> {
    if a * b > usize::MAX {
        Err(Fault::SizeOverflow)
    } else {
        Ok(a * b)
    }
}

/// How many primitives an encoded type holds: its declared length; without one, a character
/// type with a literal holds as many as the literal has bytes, but at least one; anything
/// else holds one.
pub open spec fn element_count(e: EncodedDataTypeView) -> nat {
    match e.length {
        Some(n) => n as nat,
        None => match (e.primitive_type, e.default_value) {
            (NativeTypeView::Char, Some(v)) => if byte_len(v) < 1 {
                1
            } else {
                byte_len(v) as nat
            },
            _ => 1,
        },
    }
}

impl TypeMapView {
    /// The type that `name` leads to while `fuel` steps are still allowed.
    pub open spec fn target(self, name: Seq<char>, fuel: nat) -> Result<TypeView, Fault> {
        if fuel == 0 {
            Err(Fault::ReferenceCycle(name))
        } else {
            match self.find(name) {
                Some(t) => Ok(t),
                None => Err(Fault::UnknownType(name)),
            }
        }
    }

    /// The size of the primitive that an encoded type, a bit-set or an enum is made of:
    /// the width of a primitive kind, or for a reference the size of the type that it names.
    pub open spec fn unit_size(self, t: TypeView, fuel: nat) -> Result<nat, Fault>
        decreases fuel, t, 0nat,
    {
        match t.primitive() {
            NativeTypeView::Reference(name) => match self.target(name, fuel) {
                Ok(found) => self.type_size(found, (fuel - 1) as nat),
                Err(f) => Err(f),
            },
            p => Ok(p.width()),
        }
    }

    /// The size of a type as a member of a composite, a message or a group entry.
    /// A constant occupies no bytes.
    pub open spec fn type_size(self, t: TypeView, fuel: nat) -> Result<nat, Fault>
        decreases fuel, t, 1nat,
    {
        match t {
            TypeView::EncodedData(e) => if e.presence == Presence::Constant {
                Ok(0)
            } else {
                match self.unit_size(t, fuel) {
                    Ok(unit) => checked_product(unit, element_count(e)),
                    Err(f) => Err(f),
                }
            },
            TypeView::BitSet(_) => self.unit_size(t, fuel),
            TypeView::Enum(_) => self.unit_size(t, fuel),
            TypeView::Composite(c) => self.fields_size(c.fields, fuel),
            TypeView::Reference(r) => match self.target(r.type_ref, fuel) {
                Ok(found) => self.type_size(found, (fuel - 1) as nat),
                Err(f) => Err(f),
            },
        }
    }

    /// The sum of the sizes of `fields`, taken from the first to the last.
    /// The first field that has no size decides the fault.
    pub open spec fn fields_size(self, fields: Seq<TypeView>, fuel: nat) -> Result<nat, Fault>
        decreases fuel, fields, 0nat,
    {
        if fields.len() == 0 {
            Ok(0)
        } else {
            match self.fields_size(fields.drop_last(), fuel) {
                Ok(before) => match self.type_size(fields.last(), fuel) {
                    Ok(last) => checked_sum(before, last),
                    Err(f) => Err(f),
                },
                Err(f) => Err(f),
            }
        }
    }

    /// The size of a primitive kind: its width, or for a reference the size of the type
    /// that it names.
    pub open spec fn native_size(self, p: NativeTypeView, fuel: nat) -> Result<nat, Fault> {
        match p {
            NativeTypeView::Reference(name) => match self.target(name, fuel) {
                Ok(found) => self.type_size(found, (fuel - 1) as nat),
                Err(f) => Err(f),
            },
            _ => Ok(p.width()),
        }
    }

    /// The size that the value of an encoded type takes, whatever its presence: the size
    /// of its primitive times the number of primitives it holds.  For a constant this is
    /// the size of its literal, of which nothing stands on the wire.
    pub open spec fn literal_size(self, e: EncodedDataTypeView, fuel: nat) -> Result<nat, Fault> {
        match self.native_size(e.primitive_type, fuel) {
            Ok(unit) => checked_product(unit, element_count(e)),
            Err(f) => Err(f),
        }
    }

    /// Where the `k`-th of `fields` starts: the sum of the sizes of the fields before it.
    pub open spec fn offset_of(self, fields: Seq<TypeView>, k: int, fuel: nat) -> Result<nat, Fault> {
        self.fields_size(fields.subrange(0, k), fuel)
    }
}

/// A fault among the first fields is the fault of the whole.
pub proof fn lemma_fields_size_fault(
    types: TypeMapView,
    fields: Seq<TypeView>,
    k: int,
    fuel: nat,
)
    requires
        0 <= k <= fields.len(),
        types.fields_size(fields.subrange(0, k), fuel) is Err,
    ensures
        types.fields_size(fields, fuel) == types.fields_size(fields.subrange(0, k), fuel),
    decreases fields.len(),
{
    if k == fields.len() {
        assert(fields.subrange(0, k) == fields);
    } else {
        assert(fields.drop_last().subrange(0, k) == fields.subrange(0, k));
        lemma_fields_size_fault(types, fields.drop_last(), k, fuel);
    }
}

/// The sizes of the fields before the `k`-th and of the `k`-th add up to the offset of
/// the next.
pub proof fn lemma_fields_size_step(types: TypeMapView, fields: Seq<TypeView>, k: int, fuel: nat)
    requires
        0 <= k < fields.len(),
    ensures
        types.fields_size(fields.subrange(0, k + 1), fuel) == match types.fields_size(
            fields.subrange(0, k),
            fuel,
        ) {
            Ok(before) => match types.type_size(fields[k], fuel) {
                Ok(size) => checked_sum(before, size),
                Err(f) => Err(f),
            },
            Err(f) => Err(f),
        },
{
    let next = fields.subrange(0, k + 1);
    assert(next.drop_last() == fields.subrange(0, k));
    assert(next.last() == fields[k]);
}

/// The offsets of a composite grow with the index: a field starts where the one before
/// it ends.
pub proof fn lemma_offsets_ascend(
    types: TypeMapView,
    fields: Seq<TypeView>,
    i: int,
    j: int,
    fuel: nat,
)
    requires
        0 <= i <= j <= fields.len(),
        types.offset_of(fields, j, fuel) is Ok,
    ensures
        types.offset_of(fields, i, fuel) is Ok,
        i < j ==> types.type_size(fields[i], fuel) is Ok,
        i < j ==> types.offset_of(fields, i, fuel)->Ok_0 + types.type_size(fields[i], fuel)->Ok_0
            <= types.offset_of(fields, j, fuel)->Ok_0,
        types.offset_of(fields, i, fuel)->Ok_0 <= types.offset_of(fields, j, fuel)->Ok_0,
    decreases j - i,
{
    if i < j {
        lemma_fields_size_step(types, fields, j - 1, fuel);
        lemma_offsets_ascend(types, fields, i, j - 1, fuel);
    }
}

/// More allowance does not change a size: once a construct has a size, it has the same
/// size under every larger allowance.
pub proof fn lemma_type_size_fuel(types: TypeMapView, t: TypeView, fuel: nat, more: nat)
    requires
        fuel <= more,
        types.type_size(t, fuel) is Ok,
    ensures
        types.type_size(t, more) == types.type_size(t, fuel),
    decreases fuel, t, 1nat,
{
    match t {
        TypeView::EncodedData(e) => {
            if e.presence != Presence::Constant {
                lemma_unit_size_fuel(types, t, fuel, more);
            }
        },
        TypeView::BitSet(_) => {
            lemma_unit_size_fuel(types, t, fuel, more);
        },
        TypeView::Enum(_) => {
            lemma_unit_size_fuel(types, t, fuel, more);
        },
        TypeView::Composite(c) => {
            lemma_fields_size_fuel(types, c.fields, fuel, more);
        },
        TypeView::Reference(r) => {
            let found = types.target(r.type_ref, fuel)->Ok_0;
            lemma_type_size_fuel(types, found, (fuel - 1) as nat, (more - 1) as nat);
        },
    }
}

/// More allowance does not change the size of a primitive.
pub proof fn lemma_unit_size_fuel(types: TypeMapView, t: TypeView, fuel: nat, more: nat)
    requires
        fuel <= more,
        types.unit_size(t, fuel) is Ok,
    ensures
        types.unit_size(t, more) == types.unit_size(t, fuel),
    decreases fuel, t, 0nat,
{
    if let NativeTypeView::Reference(name) = t.primitive() {
        let found = types.target(name, fuel)->Ok_0;
        lemma_type_size_fuel(types, found, (fuel - 1) as nat, (more - 1) as nat);
    }
}

/// More allowance does not change a sum of sizes.
pub proof fn lemma_fields_size_fuel(
    types: TypeMapView,
    fields: Seq<TypeView>,
    fuel: nat,
    more: nat,
)
    requires
        fuel <= more,
        types.fields_size(fields, fuel) is Ok,
    ensures
        types.fields_size(fields, more) == types.fields_size(fields, fuel),
    decreases fuel, fields, 0nat,
{
    if fields.len() > 0 {
        lemma_fields_size_fuel(types, fields.drop_last(), fuel, more);
        lemma_type_size_fuel(types, fields.last(), fuel, more);
    }
}

/// A constant occupies no bytes, whatever its literal.
pub proof fn lemma_constant_occupies_nothing(types: TypeMapView, e: EncodedDataTypeView, fuel: nat)
    requires
        e.presence == Presence::Constant,
    ensures
        types.type_size(TypeView::EncodedData(e), fuel) == Ok::<nat, Fault>(0),
{
}

/// Replacing the literal of a constant sub-field changes neither the size of the
/// composite nor the offset of any of its sub-fields.
pub proof fn lemma_constant_literal_elided(
    types: TypeMapView,
    fields: Seq<TypeView>,
    k: int,
    literal: Option<Seq<char>>,
    fuel: nat,
)
    requires
        0 <= k < fields.len(),
        fields[k] matches TypeView::EncodedData(e) && e.presence == Presence::Constant,
    ensures
        ({
            let e = fields[k]->EncodedData_0;
            let replaced = fields.update(
                k,
                TypeView::EncodedData(EncodedDataTypeView { default_value: literal, ..e }),
            );
            &&& types.fields_size(replaced, fuel) == types.fields_size(fields, fuel)
            &&& forall|i: int|
                0 <= i <= fields.len() ==> types.offset_of(replaced, i, fuel) == types.offset_of(
                    fields,
                    i,
                    fuel,
                )
        }),
{
    let e = fields[k]->EncodedData_0;
    let new = TypeView::EncodedData(EncodedDataTypeView { default_value: literal, ..e });
    let replaced = fields.update(k, new);
    assert forall|i: int| 0 <= i <= fields.len() implies types.offset_of(replaced, i, fuel)
        == types.offset_of(fields, i, fuel) by {
        lemma_same_sizes_same_sum(types, fields.subrange(0, i), replaced.subrange(0, i), fuel);
    }
    lemma_same_sizes_same_sum(types, fields, replaced, fuel);
}

/// Two lists of fields whose fields agree in size, one by one, agree in their sum.
pub proof fn lemma_same_sizes_same_sum(
    types: TypeMapView,
    a: Seq<TypeView>,
    b: Seq<TypeView>,
    fuel: nat,
)
    requires
        a.len() == b.len(),
        forall|i: int| 0 <= i < a.len() ==> types.type_size(a[i], fuel) == types.type_size(b[i], fuel),
    ensures
        types.fields_size(a, fuel) == types.fields_size(b, fuel),
    decreases a.len(),
{
    if a.len() > 0 {
        lemma_same_sizes_same_sum(types, a.drop_last(), b.drop_last(), fuel);
    }
}

/// The type that `name` leads to, as long as a step through the table is still allowed.
fn follow(types: &TypeMap, name: &str, fuel: usize) -> (r: Result<Type, SchemaError>)
    ensures
        match r {
            Ok(t) => types@.target(name@, fuel as nat) == Ok::<TypeView, Fault>(t@),
            Err(e) => types@.target(name@, fuel as nat) == Err::<TypeView, Fault>(e@),
        },
{
    if fuel == 0 {
        return Err(SchemaError::ReferenceCycle(String::from_str(name)));
    }
    match types.find_type(name) {
        Some(t) => Ok(t),
        None => Err(SchemaError::UnknownType(String::from_str(name))),
    }
}

fn sum_sizes(a: usize, b: usize) -> (r: Result<usize, SchemaError>)
    ensures
        size_outcome(r) == checked_sum(a as nat, b as nat),
{
    match a.checked_add(b) {
        Some(n) => Ok(n),
        None => Err(SchemaError::SizeOverflow),
    }
}

fn multiply_sizes(a: usize, b: usize) -> (r: Result<usize, SchemaError>)
    ensures
        size_outcome(r) == checked_product(a as nat, b as nat),
{
    match a.checked_mul(b) {
        Some(n) => Ok(n),
        None => Err(SchemaError::SizeOverflow),
    }
}

/// The number of primitives that an encoded type holds.
pub fn count_elements(e: &EncodedDataType) -> (n: usize)
    ensures
        n == element_count(e@),
{
    match e.length {
        Some(length) => length,
        None => match e.primitive_type {
            NativeType::Char => match &e.default_value {
                Some(val) => {
                    let n = val.as_str().len();
                    if n < 1 {
                        1
                    } else {
                        n
                    }
                },
                None => 1,
            },
            _ => 1,
        },
    }
}

/// The size of the primitive that `t` is made of, with `fuel` steps allowed.
fn unit_size_within(t: &Type, types: &TypeMap, fuel: usize) -> (r: Result<usize, SchemaError>)
    requires
        t is EncodedData || t is BitSet || t is Enum,
    ensures
        size_outcome(r) == types@.unit_size(t@, fuel as nat),
    decreases fuel, t, 0nat,
{
    let p = match t {
        Type::EncodedData(e) => &e.primitive_type,
        Type::BitSet(s) => &s.encoding_type,
        Type::Enum(e) => &e.encoding_type,
        _ => { return Ok(0) },
    };
    match p {
        NativeType::Reference(name) => match follow(types, name.as_str(), fuel) {
            Ok(found) => type_size_within(&found, types, fuel - 1),
            Err(e) => Err(e),
        },
        _ => Ok(p.width()),
    }
}

/// The sum of the sizes of `fields` with `fuel` steps allowed.
pub fn fields_size_within(fields: &Vec<Type>, types: &TypeMap, fuel: usize) -> (r: Result<
    usize,
    SchemaError,
>)
    ensures
        size_outcome(r) == types@.fields_size(type_views(fields@), fuel as nat),
    decreases fuel, fields, 0nat,
{
    let ghost views = type_views(fields@);
    proof {
        lemma_type_views(fields@);
    }
    let mut total: usize = 0;
    let mut i: usize = 0;
    while i < fields.len()
        invariant
            i <= fields.len(),
            views == type_views(fields@),
            views.len() == fields.len(),
            forall|j: int| 0 <= j < fields.len() ==> (#[trigger] views[j]) == fields@[j]@,
            types@.fields_size(views.subrange(0, i as int), fuel as nat) == Ok::<nat, Fault>(
                total as nat,
            ),
        decreases fields.len() - i,
    {
        assert(decreases_to!(fields => fields[i as int]));
        proof {
            lemma_fields_size_step(types@, views, i as int, fuel as nat);
        }
        let size = match type_size_within(&fields[i], types, fuel) {
            Ok(size) => size,
            Err(e) => {
                proof {
                    lemma_fields_size_fault(types@, views, i as int + 1, fuel as nat);
                }
                return Err(e);
            },
        };
        total = match sum_sizes(total, size) {
            Ok(n) => n,
            Err(e) => {
                proof {
                    lemma_fields_size_fault(types@, views, i as int + 1, fuel as nat);
                }
                return Err(e);
            },
        };
        i = i + 1;
    }
    assert(views.subrange(0, i as int) == views);
    Ok(total)
}

/// The size of a type as a member of a composite, with `fuel` steps allowed.
pub fn type_size_within(t: &Type, types: &TypeMap, fuel: usize) -> (r: Result<usize, SchemaError>)
    ensures
        size_outcome(r) == types@.type_size(t@, fuel as nat),
    decreases fuel, t, 1nat,
{
    match t {
        Type::EncodedData(e) => match e.presence {
            Presence::Constant => Ok(0usize),
            _ => match unit_size_within(t, types, fuel) {
                Ok(unit) => multiply_sizes(unit, count_elements(e)),
                Err(e) => Err(e),
            },
        },
        Type::BitSet(_) => unit_size_within(t, types, fuel),
        Type::Enum(_) => unit_size_within(t, types, fuel),
        Type::Composite(c) => fields_size_within(&c.fields, types, fuel),
        Type::Reference(r) => match follow(types, r.type_ref.as_str(), fuel) {
            Ok(found) => type_size_within(&found, types, fuel - 1),
            Err(e) => Err(e),
        },
    }
}

/// The size of a primitive kind with `fuel` steps through the table allowed.
pub fn native_size_within(p: &NativeType, types: &TypeMap, fuel: usize) -> (r: Result<
    usize,
    SchemaError,
>)
    ensures
        size_outcome(r) == types@.native_size(p@, fuel as nat),
{
    match p {
        NativeType::Reference(name) => match follow(types, name.as_str(), fuel) {
            Ok(found) => type_size_within(&found, types, fuel - 1),
            Err(e) => Err(e),
        },
        _ => Ok(p.width()),
    }
}

/// The size that the value of an encoded type takes, whatever its presence, with `fuel`
/// steps allowed.
pub fn literal_size_within(e: &EncodedDataType, types: &TypeMap, fuel: usize) -> (r: Result<
    usize,
    SchemaError,
>)
    ensures
        size_outcome(r) == types@.literal_size(e@, fuel as nat),
{
    match native_size_within(&e.primitive_type, types, fuel) {
        Ok(unit) => multiply_sizes(unit, count_elements(e)),
        Err(e) => Err(e),
    }
}

/// The size of an encoded type with `fuel` steps allowed: a constant occupies no bytes.
pub fn encoded_size_within(e: &EncodedDataType, types: &TypeMap, fuel: usize) -> (r: Result<
    usize,
    SchemaError,
>)
    ensures
        size_outcome(r) == types@.type_size(TypeView::EncodedData(e@), fuel as nat),
{
    proof {
        let t = TypeView::EncodedData(e@);
        assert(types@.unit_size(t, fuel as nat) == types@.native_size(
            e@.primitive_type,
            fuel as nat,
        ));
    }
    match e.presence {
        Presence::Constant => Ok(0usize),
        _ => literal_size_within(e, types, fuel),
    }
}

/// The size of a composite with `fuel` steps allowed.
pub fn composite_size_within(c: &CompositeType, types: &TypeMap, fuel: usize) -> (r: Result<
    usize,
    SchemaError,
>)
    ensures
        size_outcome(r) == types@.fields_size(c@.fields, fuel as nat),
{
    fields_size_within(&c.fields, types, fuel)
}

} // verus!
