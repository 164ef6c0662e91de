//! What the typing stub of the scripting layer says of each exported class.

use crate::duplicate::{views_of, Duplicate};
use crate::error::{Fault, SchemaError};
use crate::generator::rust::codecs::enum_type::{enum_value_plans, enum_values, EnumValuePlanView};
use crate::models::message::{MessageType, MessageTypeView};
use crate::models::types::composite_type::{CompositeType, CompositeTypeView};
use crate::models::types::enum_type::{EnumType, EnumTypeView};
use crate::models::types::primitive_type::{resolved_kind, NativeType, ResolvableType};
use crate::models::types::set_type::{ChoiceView, SetType, SetTypeView};
use crate::models::types::{
    lemma_message_field_views, lemma_type_views, message_field_views, MessageField,
    MessageFieldView, Presence, Type, TypeView,
};
use crate::models::{TypeMap, TypeMapView};
use crate::naming::{camel_name, case_converted, snake_name, NameCase};
use crate::text::{decimal_text, decimal_wide};
use vstd::prelude::*;
use vstd::string::*;

verus! {

/// What an exported class stands for.
#[derive(PartialEq, Eq, Structural, Debug, Copy, Clone)]
pub enum ClassKind {
    Message,
    Group,
    Composite,
    BitSet,
    Enum,
}

/// One line of a class in the typing stub: a name and what is written after it.
#[derive(Debug)]
pub struct TypingField {
    /// The name of the attribute, parameter or member.
    pub name: String,
    /// The annotation of an attribute or parameter; the value of an enum member.
    pub annotation: String,
}

/// The mathematical content of a [`TypingField`].
pub struct TypingFieldView {
    pub name: Seq<char>,
    pub annotation: Seq<char>,
}

impl View for TypingField {
    type V = TypingFieldView;

    open spec fn view(&self) -> TypingFieldView {
        TypingFieldView {
            name: self.name@,
            annotation: self.annotation@,
        }
    }
}

/// All that the typing stub says of one exported class.
#[derive(Debug)]
pub struct TypingClassPlan {
    /// The name of the class.
    pub name: String,
    /// What the class stands for.
    pub kind: ClassKind,
    /// The attributes of the class; for an enum, its members.
    pub attributes: Vec<TypingField>,
    /// The parameters of the constructor: required ones first, constants left out.
    pub init: Vec<TypingField>,
}

/// The mathematical content of a [`TypingClassPlan`].
pub struct TypingClassPlanView {
    pub name: Seq<char>,
    pub kind: ClassKind,
    pub attributes: Seq<TypingFieldView>,
    pub init: Seq<TypingFieldView>,
}

impl View for TypingClassPlan {
    type V = TypingClassPlanView;

    open spec fn view(&self) -> TypingClassPlanView {
        TypingClassPlanView {
            name: self.name@,
            kind: self.kind,
            attributes: views_of(self.attributes@),
            init: views_of(self.init@),
        }
    }
}

/// A construct that the scripting layer exports as a class.
#[derive(Debug)]
pub enum ExportedClass {
    Message(MessageType),
    Group(crate::models::types::group_type::GroupType),
    Composite(CompositeType),
    BitSet(SetType),
    Enum(EnumType),
}

/// The mathematical content of an [`ExportedClass`].
pub enum ExportedClassView {
    Message(MessageTypeView),
    Group(crate::models::types::group_type::GroupTypeView),
    Composite(CompositeTypeView),
    BitSet(SetTypeView),
    Enum(EnumTypeView),
}

impl View for ExportedClass {
    type V = ExportedClassView;

    open spec fn view(&self) -> ExportedClassView {
        match *self {
            ExportedClass::Message(m) => ExportedClassView::Message(m@),
            ExportedClass::Group(g) => ExportedClassView::Group(g@),
            ExportedClass::Composite(c) => ExportedClassView::Composite(c@),
            ExportedClass::BitSet(s) => ExportedClassView::BitSet(s@),
            ExportedClass::Enum(e) => ExportedClassView::Enum(e@),
        }
    }
}

/// Whether a child of a message or group is an optional plain field.
pub open spec fn is_optional_field(f: MessageFieldView) -> bool {
    f matches MessageFieldView::Field(t) && t.presence == Presence::Optional
}

/// Those of the first `n` children that are optional plain fields, or those that are
/// not, in their order.
pub open spec fn children_where(fields: Seq<MessageFieldView>, optional: bool, n: nat) -> Seq<
    MessageFieldView,
>
    decreases n,
{
    if n == 0 || n > fields.len() {
        Seq::empty()
    } else if is_optional_field(fields[n - 1]) == optional {
        children_where(fields, optional, (n - 1) as nat).push(fields[n - 1])
    } else {
        children_where(fields, optional, (n - 1) as nat)
    }
}

/// The children in the order of the stub: optional plain fields go to the end,
/// everything else keeps its place.
pub open spec fn stub_order(fields: Seq<MessageFieldView>) -> Seq<MessageFieldView> {
    children_where(fields, false, fields.len()) + children_where(fields, true, fields.len())
}

/// What is written after the name of a child: its type, `| None` for an optional field,
/// and in a constructor a default for an optional field and a comma.
pub open spec fn annotated(f: MessageFieldView, type_text: Seq<char>, init: bool) -> Seq<char> {
    if is_optional_field(f) {
        if init {
            type_text + " | None = None,"@
        } else {
            type_text + " | None"@
        }
    } else if init {
        type_text + ","@
    } else {
        type_text
    }
}

impl TypeMapView {
    /// The annotation for a value of a type at hand: one element has the primitive's
    /// name, several characters are a `str`, several unsigned bytes are `bytes`, several
    /// of anything else are a list.
    pub open spec fn direct_annotation(self, t: TypeView) -> Result<Seq<char>, Fault> {
        match t {
            TypeView::EncodedData(e) => match resolved_kind(
                self.encoded_types,
                e.primitive_type,
                self.encoded_types.len(),
            ) {
                Err(f) => Err(f),
                Ok(kind) => {
                    let length = match e.length {
                        Some(n) => n,
                        None => 1,
                    };
                    Ok(
                        if length <= 1 {
                            kind.python_name()
                        } else if kind is Char {
                            "str"@
                        } else if kind is UInt8 {
                            "bytes"@
                        } else {
                            "list["@ + kind.python_name() + "]"@
                        },
                    )
                },
            },
            TypeView::Reference(r) => Err(Fault::UnknownType(r.type_ref)),
            _ => Ok(case_converted(t.name(), NameCase::UpperCamel)),
        }
    }

    /// The annotation for a value of a type.
    pub open spec fn annotation(self, t: TypeView) -> Result<Seq<char>, Fault> {
        match t {
            TypeView::Reference(r) => match self.find(r.type_ref) {
                Some(found) => self.direct_annotation(found),
                None => Err(Fault::UnknownType(r.type_ref)),
            },
            _ => self.direct_annotation(t),
        }
    }

    /// The annotation for a child of a message or group.
    pub open spec fn child_annotation(self, f: MessageFieldView) -> Result<Seq<char>, Fault> {
        match f {
            MessageFieldView::Field(t) => self.annotation(t.resolved_type(self)),
            MessageFieldView::Group(g) => Ok(
                "list["@ + case_converted(g.name, NameCase::UpperCamel) + "]"@,
            ),
            MessageFieldView::VariableData(v) => match v.value_type(self.composite_types) {
                Err(e) => Err(e),
                Ok(value_type) => match resolved_kind(
                    self.encoded_types,
                    value_type.primitive_type,
                    self.encoded_types.len(),
                ) {
                    Err(e) => Err(e),
                    Ok(kind) => if kind is Char {
                        Ok("str"@)
                    } else if kind is UInt8 {
                        Ok("bytes"@)
                    } else {
                        match self.direct_annotation(TypeView::EncodedData(value_type)) {
                            Err(e) => Err(e),
                            Ok(inner) => Ok("list["@ + inner + "]"@),
                        }
                    },
                },
            },
        }
    }

    /// The line for a child of a message or group; none for a constant in a constructor.
    pub open spec fn child_line(self, f: MessageFieldView, init: bool) -> Result<
        Option<TypingFieldView>,
        Fault,
    > {
        if init && (f matches MessageFieldView::Field(t) && t.presence == Presence::Constant) {
            Ok(None)
        } else {
            match self.child_annotation(f) {
                Err(e) => Err(e),
                Ok(type_text) => Ok(
                    Some(
                        TypingFieldView {
                            name: case_converted(f.name(), NameCase::Snake),
                            annotation: annotated(f, type_text, init),
                        },
                    ),
                ),
            }
        }
    }

    /// The line for a sub-field of a composite; none for a constant in a constructor.
    pub open spec fn sub_field_line(self, t: TypeView, init: bool) -> Result<
        Option<TypingFieldView>,
        Fault,
    > {
        match self.presence_of(t) {
            Err(e) if init => Err(e),
            presence => if init && presence == Ok::<Presence, Fault>(Presence::Constant) {
                Ok(None)
            } else {
                match self.annotation(t) {
                    Err(e) => Err(e),
                    Ok(type_text) => Ok(
                        Some(
                            TypingFieldView {
                                name: case_converted(t.name(), NameCase::Snake),
                                annotation: if init {
                                    type_text + ","@
                                } else {
                                    type_text
                                },
                            },
                        ),
                    ),
                }
            },
        }
    }

    /// The lines for the members of an enum.
    pub open spec fn member_lines(self, e: EnumTypeView) -> Result<Seq<TypingFieldView>, Fault> {
        match resolved_kind(self.encoded_types, e.encoding_type, self.encoded_types.len()) {
            Err(f) => Err(f),
            Ok(kind) => match enum_value_plans(e.values, kind is Char, e.values.len()) {
                Err(f) => Err(f),
                Ok(values) => Ok(values.map_values(|v: EnumValuePlanView| member_line(v))),
            },
        }
    }

    /// What the stub says of an exported class.
    #[verifier::opaque]
    pub open spec fn typing_class(self, name: Seq<char>, class: ExportedClassView) -> Result<
        TypingClassPlanView,
        Fault,
    > {
        match class {
            ExportedClassView::Message(m) => self.block_typing(name, ClassKind::Message, m.fields),
            ExportedClassView::Group(g) => self.block_typing(name, ClassKind::Group, g.fields),
            ExportedClassView::Composite(c) => match gathered_lines(
                self.sub_field_lines(c.fields, false),
                c.fields.len(),
            ) {
                Err(f) => Err(f),
                Ok(attributes) => match gathered_lines(
                    self.sub_field_lines(c.fields, true),
                    c.fields.len(),
                ) {
                    Err(f) => Err(f),
                    Ok(init) => Ok(
                        TypingClassPlanView { name, kind: ClassKind::Composite, attributes, init },
                    ),
                },
            },
            ExportedClassView::BitSet(s) => Ok(
                TypingClassPlanView {
                    name,
                    kind: ClassKind::BitSet,
                    attributes: s.choices.map_values(|c: ChoiceView| flag_line(c)),
                    init: Seq::empty(),
                },
            ),
            ExportedClassView::Enum(e) => match self.member_lines(e) {
                Err(f) => Err(f),
                Ok(attributes) => Ok(
                    TypingClassPlanView {
                        name,
                        kind: ClassKind::Enum,
                        attributes,
                        init: Seq::empty(),
                    },
                ),
            },
        }
    }

    /// What the stub says of a message or group.
    pub open spec fn block_typing(
        self,
        name: Seq<char>,
        kind: ClassKind,
        fields: Seq<MessageFieldView>,
    ) -> Result<TypingClassPlanView, Fault> {
        match gathered_lines(self.child_lines(fields, false), fields.len()) {
            Err(f) => Err(f),
            Ok(attributes) => match gathered_lines(self.child_lines(fields, true), fields.len()) {
                Err(f) => Err(f),
                Ok(init) => Ok(TypingClassPlanView { name, kind, attributes, init }),
            },
        }
    }

    /// The lines for the children of a message or group in the order of the stub, one
    /// result for each child.
    pub open spec fn child_lines(self, fields: Seq<MessageFieldView>, init: bool) -> Seq<
        Result<Option<TypingFieldView>, Fault>,
    > {
        Seq::new(stub_order(fields).len(), |i: int| self.child_line(stub_order(fields)[i], init))
    }

    /// The lines for the sub-fields of a composite, one result for each sub-field.
    pub open spec fn sub_field_lines(self, fields: Seq<TypeView>, init: bool) -> Seq<
        Result<Option<TypingFieldView>, Fault>,
    > {
        Seq::new(fields.len(), |i: int| self.sub_field_line(fields[i], init))
    }
}

/// The first `n` of `results` gathered into one, results without a line left out.
pub open spec fn gathered_lines(results: Seq<Result<Option<TypingFieldView>, Fault>>, n: nat) -> Result<
    Seq<TypingFieldView>,
    Fault,
>
    decreases n,
{
    if n == 0 || n > results.len() {
        Ok(Seq::empty())
    } else {
        match gathered_lines(results, (n - 1) as nat) {
            Err(f) => Err(f),
            Ok(before) => match results[n - 1] {
                Err(f) => Err(f),
                Ok(Some(line)) => Ok(before.push(line)),
                Ok(None) => Ok(before),
            },
        }
    }
}

/// A fault among the first lines is the fault of all.
pub proof fn lemma_gathered_lines_fault(
    results: Seq<Result<Option<TypingFieldView>, Fault>>,
    k: nat,
    n: nat,
)
    requires
        k <= n <= results.len(),
        gathered_lines(results, k) is Err,
    ensures
        gathered_lines(results, n) == gathered_lines(results, k),
    decreases n - k,
{
    if k < n {
        lemma_gathered_lines_fault(results, k, (n - 1) as nat);
    }
}

/// The line of a flag of a bit-set.
pub open spec fn flag_line(c: ChoiceView) -> TypingFieldView {
    TypingFieldView { name: case_converted(c.name, NameCase::Snake), annotation: "bool"@ }
}

/// The line of a member of an enum.
pub open spec fn member_line(v: EnumValuePlanView) -> TypingFieldView {
    TypingFieldView { name: v.member, annotation: decimal_text(v.value as nat) }
}

/// The annotation for a value of a type.
pub fn resolved_type_name(simple_type: &Type, types: &TypeMap) -> (r: Result<String, SchemaError>)
    ensures
        crate::error::text_outcome(r) == types@.annotation(simple_type@),
{
    match simple_type {
        Type::Reference(ref_type) => match types.find_type(ref_type.type_ref.as_str()) {
            Some(found) => direct_type_annotation(&found, types),
            None => Err(SchemaError::UnknownType(ref_type.type_ref.clone())),
        },
        _ => direct_type_annotation(simple_type, types),
    }
}

fn direct_type_annotation(simple_type: &Type, types: &TypeMap) -> (r: Result<String, SchemaError>)
    ensures
        crate::error::text_outcome(r) == types@.direct_annotation(simple_type@),
{
    match simple_type {
        Type::EncodedData(encoded_type) => {
            let field_type = match encoded_type.primitive_type.resolved(&types.encoded_types) {
                Ok(k) => k,
                Err(e) => { return Err(e); },
            };
            let lang_primitive = field_type.python_primitive();
            let field_length = match encoded_type.length {
                Some(n) => n,
                None => 1,
            };
            if field_length <= 1 {
                Ok(String::from_str(lang_primitive.name))
            } else {
                match field_type {
                    NativeType::Char => Ok(String::from_str("str")),
                    NativeType::UInt8 => Ok(String::from_str("bytes")),
                    _ => Ok(String::from_str("list[").concat(lang_primitive.name).concat("]")),
                }
            }
        },
        Type::Reference(ref_type) => Err(SchemaError::UnknownType(ref_type.type_ref.clone())),
        _ => Ok(camel_name(simple_type.name())),
    }
}

/// The annotation for a child of a message or group.
pub fn resolved_field_type_name(field: &MessageField, types: &TypeMap) -> (r: Result<
    String,
    SchemaError,
>)
    ensures
        crate::error::text_outcome(r) == types@.child_annotation(field@),
{
    match field {
        MessageField::Field(field_type) => {
            let field_type = match field_type.to_type(types) {
                Ok(t) => t,
                Err(e) => { return Err(e); },
            };
            resolved_type_name(&field_type, types)
        },
        MessageField::Group(group_type) => Ok(
            String::from_str("list[").concat(camel_name(group_type.name.as_str()).as_str()).concat(
                "]",
            ),
        ),
        MessageField::VariableData(var_data_type) => {
            let value_type = match var_data_type.value_type(&types.composite_types) {
                Ok(v) => v,
                Err(e) => { return Err(e); },
            };
            let kind = match value_type.primitive_type.resolved(&types.encoded_types) {
                Ok(k) => k,
                Err(e) => { return Err(e); },
            };
            match kind {
                NativeType::Char => Ok(String::from_str("str")),
                NativeType::UInt8 => Ok(String::from_str("bytes")),
                _ => {
                    let element = Type::EncodedData(value_type.duplicate());
                    match direct_type_annotation(&element, types) {
                        Ok(inner) => Ok(String::from_str("list[").concat(inner.as_str()).concat("]")),
                        Err(e) => Err(e),
                    }
                },
            }
        },
    }
}

fn optional_field(field: &MessageField) -> (r: bool)
    ensures
        r == is_optional_field(field@),
{
    match field {
        MessageField::Field(t) => match t.presence {
            Presence::Optional => true,
            _ => false,
        },
        _ => false,
    }
}

/// The children in the order of the stub.
pub fn ordered_children(fields: &Vec<MessageField>) -> (r: Vec<&MessageField>)
    ensures
        r@.map_values(|f: &MessageField| f@) == stub_order(message_field_views(fields@)),
{
    let ghost views = message_field_views(fields@);
    proof {
        lemma_message_field_views(fields@);
    }
    let mut first: Vec<&MessageField> = Vec::new();
    let mut last: Vec<&MessageField> = Vec::new();
    let mut i: usize = 0;
    while i < fields.len()
        invariant
            i <= fields.len(),
            views == message_field_views(fields@),
            views.len() == fields.len(),
            forall|j: int| 0 <= j < fields.len() ==> (#[trigger] views[j]) == fields@[j]@,
            first@.map_values(|f: &MessageField| f@) == children_where(views, false, i as nat),
            last@.map_values(|f: &MessageField| f@) == children_where(views, true, i as nat),
        decreases fields.len() - i,
    {
        let ghost old_first = first@.map_values(|f: &MessageField| f@);
        let ghost old_last = last@.map_values(|f: &MessageField| f@);
        if optional_field(&fields[i]) {
            last.push(&fields[i]);
            assert(last@.map_values(|f: &MessageField| f@) =~= old_last.push(fields@[i as int]@));
        } else {
            first.push(&fields[i]);
            assert(first@.map_values(|f: &MessageField| f@) =~= old_first.push(fields@[i as int]@));
        }
        i = i + 1;
    }
    let ghost a = first@.map_values(|f: &MessageField| f@);
    let ghost b = last@.map_values(|f: &MessageField| f@);
    let mut j: usize = 0;
    while j < last.len()
        invariant
            j <= last.len(),
            b == last@.map_values(|f: &MessageField| f@),
            first@.map_values(|f: &MessageField| f@) == a + b.subrange(0, j as int),
        decreases last.len() - j,
    {
        let ghost before = first@.map_values(|f: &MessageField| f@);
        first.push(last[j]);
        assert(first@.map_values(|f: &MessageField| f@) =~= before.push(last@[j as int]@));
        assert(a + b.subrange(0, j as int + 1) =~= (a + b.subrange(0, j as int)).push(b[j as int]));
        j = j + 1;
    }
    assert(b.subrange(0, j as int) == b);
    first
}

/// The lines for the children of a message or group: the attributes, or with `init` the
/// parameters of the constructor.
pub fn write_fields(fields: &Vec<MessageField>, init: bool, types: &TypeMap) -> (r: Result<
    Vec<TypingField>,
    SchemaError,
>)
    ensures
        match r {
            Ok(lines) => gathered_lines(
                types@.child_lines(message_field_views(fields@), init),
                fields@.len(),
            ) == Ok::<Seq<TypingFieldView>, Fault>(views_of(lines@)),
            Err(e) => gathered_lines(
                types@.child_lines(message_field_views(fields@), init),
                fields@.len(),
            ) == Err::<Seq<TypingFieldView>, Fault>(e@),
        },
{
    let ordered = ordered_children(fields);
    let ghost order = stub_order(message_field_views(fields@));
    let ghost results = types@.child_lines(message_field_views(fields@), init);
    proof {
        lemma_message_field_views(fields@);
        lemma_stub_order_len(message_field_views(fields@));
        assert(ordered@.map_values(|f: &MessageField| f@).len() == ordered@.len());
    }
    let mut out: Vec<TypingField> = Vec::new();
    assert(views_of(out@) =~= Seq::<TypingFieldView>::empty());
    let mut i: usize = 0;
    while i < ordered.len()
        invariant
            i <= ordered.len(),
            ordered@.len() == fields@.len(),
            order == ordered@.map_values(|f: &MessageField| f@),
            results == types@.child_lines(message_field_views(fields@), init),
            results.len() == ordered@.len(),
            forall|j: int| 0 <= j < results.len() ==> results[j] == types@.child_line(order[j], init),
            gathered_lines(results, i as nat) == Ok::<Seq<TypingFieldView>, Fault>(views_of(out@)),
        decreases ordered.len() - i,
    {
        let ghost before = views_of(out@);
        let field = ordered[i];
        proof {
            let next = (i + 1) as nat;
            assert((next - 1) as nat == i as nat);
            assert(order[i as int] == field@);
            assert(gathered_lines(results, next) == match results[i as int] {
                Err(f) => Err(f),
                Ok(Some(line)) => Ok(before.push(line)),
                Ok(None) => Ok(before),
            });
        }
        let skip = init && match field {
            MessageField::Field(t) => match t.presence {
                Presence::Constant => true,
                _ => false,
            },
            _ => false,
        };
        if !skip {
            let type_text = match resolved_field_type_name(field, types) {
                Ok(t) => t,
                Err(e) => {
                    proof {
                        lemma_gathered_lines_fault(results, i as nat + 1, results.len());
                    }
                    return Err(e);
                },
            };
            let annotation = if optional_field(field) {
                if init {
                    type_text.concat(" | None = None,")
                } else {
                    type_text.concat(" | None")
                }
            } else if init {
                type_text.concat(",")
            } else {
                type_text
            };
            let line = TypingField { name: snake_name(field.name()), annotation };
            out.push(line);
            assert(views_of(out@) =~= before.push(line@));
        }
        i = i + 1;
    }
    Ok(out)
}

/// The order of the stub holds every child once.
pub proof fn lemma_stub_order_len(fields: Seq<MessageFieldView>)
    ensures
        stub_order(fields).len() == fields.len(),
{
    lemma_children_where_len(fields, fields.len());
}

proof fn lemma_children_where_len(fields: Seq<MessageFieldView>, n: nat)
    requires
        n <= fields.len(),
    ensures
        children_where(fields, false, n).len() + children_where(fields, true, n).len() == n,
    decreases n,
{
    if n > 0 {
        lemma_children_where_len(fields, (n - 1) as nat);
    }
}

/// The lines for the sub-fields of a composite: the attributes, or with `init` the
/// parameters of the constructor.
pub fn write_composite_fields(composite_type: &CompositeType, init: bool, types: &TypeMap) -> (r:
    Result<Vec<TypingField>, SchemaError>)
    ensures
        match r {
            Ok(lines) => gathered_lines(
                types@.sub_field_lines(composite_type@.fields, init),
                composite_type@.fields.len(),
            ) == Ok::<Seq<TypingFieldView>, Fault>(views_of(lines@)),
            Err(e) => gathered_lines(
                types@.sub_field_lines(composite_type@.fields, init),
                composite_type@.fields.len(),
            ) == Err::<Seq<TypingFieldView>, Fault>(e@),
        },
{
    let fields = &composite_type.fields;
    let ghost results = types@.sub_field_lines(composite_type@.fields, init);
    proof {
        lemma_type_views(fields@);
    }
    let mut out: Vec<TypingField> = Vec::new();
    assert(views_of(out@) =~= Seq::<TypingFieldView>::empty());
    let mut i: usize = 0;
    while i < fields.len()
        invariant
            i <= fields.len(),
            results == types@.sub_field_lines(composite_type@.fields, init),
            results.len() == fields.len(),
            composite_type@.fields.len() == fields.len(),
            forall|j: int|
                0 <= j < results.len() ==> results[j] == types@.sub_field_line(fields@[j]@, init),
            gathered_lines(results, i as nat) == Ok::<Seq<TypingFieldView>, Fault>(views_of(out@)),
        decreases fields.len() - i,
    {
        let ghost before = views_of(out@);
        let simple_type = &fields[i];
        proof {
            let next = (i + 1) as nat;
            assert((next - 1) as nat == i as nat);
            assert(gathered_lines(results, next) == match results[i as int] {
                Err(f) => Err(f),
                Ok(Some(line)) => Ok(before.push(line)),
                Ok(None) => Ok(before),
            });
        }
        let mut skip = false;
        if init {
            match simple_type.presence(types) {
                Ok(Presence::Constant) => {
                    skip = true;
                },
                Ok(_) => {},
                Err(e) => {
                    proof {
                        lemma_gathered_lines_fault(results, i as nat + 1, results.len());
                    }
                    return Err(e);
                },
            }
        }
        if !skip {
            let type_text = match resolved_type_name(simple_type, types) {
                Ok(t) => t,
                Err(e) => {
                    proof {
                        lemma_gathered_lines_fault(results, i as nat + 1, results.len());
                    }
                    return Err(e);
                },
            };
            let annotation = if init {
                type_text.concat(",")
            } else {
                type_text
            };
            let line = TypingField { name: snake_name(simple_type.name()), annotation };
            out.push(line);
            assert(views_of(out@) =~= before.push(line@));
        }
        i = i + 1;
    }
    Ok(out)
}

/// The lines for the flags of a bit-set.
pub fn write_set_fields(set_type: &SetType) -> (r: Vec<TypingField>)
    ensures
        views_of(r@) == set_type@.choices.map_values(|c: ChoiceView| flag_line(c)),
{
    let mut out: Vec<TypingField> = Vec::new();
    let mut i: usize = 0;
    while i < set_type.choices.len()
        invariant
            i <= set_type.choices.len(),
            out@.len() == i,
            forall|j: int| 0 <= j < i ==> (#[trigger] out@[j])@ == flag_line(set_type.choices@[j]@),
        decreases set_type.choices.len() - i,
    {
        out.push(
            TypingField {
                name: snake_name(set_type.choices[i].name.as_str()),
                annotation: String::from_str("bool"),
            },
        );
        i = i + 1;
    }
    assert(views_of(out@) =~= set_type@.choices.map_values(|c: ChoiceView| flag_line(c)));
    out
}

/// The lines for the members of an enum: each name with the number that stands for it.
pub fn write_enum_fields(enum_type: &EnumType, types: &TypeMap) -> (r: Result<
    Vec<TypingField>,
    SchemaError,
>)
    ensures
        match r {
            Ok(lines) => types@.member_lines(enum_type@) == Ok::<Seq<TypingFieldView>, Fault>(
                views_of(lines@),
            ),
            Err(e) => types@.member_lines(enum_type@) == Err::<Seq<TypingFieldView>, Fault>(e@),
        },
{
    let kind = match enum_type.encoding_type.resolved(&types.encoded_types) {
        Ok(k) => k,
        Err(e) => { return Err(e); },
    };
    let char_encoding = match kind {
        NativeType::Char => true,
        _ => false,
    };
    let values = match enum_values(&enum_type.values, char_encoding) {
        Ok(v) => v,
        Err(e) => { return Err(e); },
    };
    let mut out: Vec<TypingField> = Vec::new();
    let mut i: usize = 0;
    while i < values.len()
        invariant
            i <= values.len(),
            out@.len() == i,
            forall|j: int| 0 <= j < i ==> (#[trigger] out@[j])@ == member_line(values@[j]@),
        decreases values.len() - i,
    {
        out.push(
            TypingField {
                name: values[i].member.clone(),
                annotation: decimal_wide(values[i].value as u128),
            },
        );
        i = i + 1;
    }
    assert(views_of(out@) =~= views_of(values@).map_values(|v: EnumValuePlanView| member_line(v)));
    Ok(out)
}

/// What the stub says of one exported class.
pub fn typing_class(name: &str, class: &ExportedClass, types: &TypeMap) -> (r: Result<
    TypingClassPlan,
    SchemaError,
>)
    ensures
        match r {
            Ok(p) => types@.typing_class(name@, class@) == Ok::<TypingClassPlanView, Fault>(p@),
            Err(e) => types@.typing_class(name@, class@) == Err::<TypingClassPlanView, Fault>(e@),
        },
{
    reveal(TypeMapView::typing_class);
    match class {
        ExportedClass::Message(message) => {
            proof {
                lemma_message_field_views(message.fields@);
            }
            let attributes = match write_fields(&message.fields, false, types) {
                Ok(a) => a,
                Err(e) => { return Err(e); },
            };
            let init = match write_fields(&message.fields, true, types) {
                Ok(a) => a,
                Err(e) => { return Err(e); },
            };
            Ok(
                TypingClassPlan {
                    name: String::from_str(name),
                    kind: ClassKind::Message,
                    attributes,
                    init,
                },
            )
        },
        ExportedClass::Group(group) => {
            proof {
                lemma_message_field_views(group.fields@);
            }
            let attributes = match write_fields(&group.fields, false, types) {
                Ok(a) => a,
                Err(e) => { return Err(e); },
            };
            let init = match write_fields(&group.fields, true, types) {
                Ok(a) => a,
                Err(e) => { return Err(e); },
            };
            Ok(
                TypingClassPlan {
                    name: String::from_str(name),
                    kind: ClassKind::Group,
                    attributes,
                    init,
                },
            )
        },
        ExportedClass::Composite(composite) => {
            let attributes = match write_composite_fields(composite, false, types) {
                Ok(a) => a,
                Err(e) => { return Err(e); },
            };
            let init = match write_composite_fields(composite, true, types) {
                Ok(a) => a,
                Err(e) => { return Err(e); },
            };
            Ok(
                TypingClassPlan {
                    name: String::from_str(name),
                    kind: ClassKind::Composite,
                    attributes,
                    init,
                },
            )
        },
        ExportedClass::BitSet(set) => {
            let init: Vec<TypingField> = Vec::new();
            assert(views_of(init@) =~= Seq::<TypingFieldView>::empty());
            assert(views_of(set.choices@) == set@.choices);
            Ok(
                TypingClassPlan {
                    name: String::from_str(name),
                    kind: ClassKind::BitSet,
                    attributes: write_set_fields(set),
                    init,
                },
            )
        },
        ExportedClass::Enum(enum_type) => {
            let attributes = match write_enum_fields(enum_type, types) {
                Ok(a) => a,
                Err(e) => { return Err(e); },
            };
            let init: Vec<TypingField> = Vec::new();
            assert(views_of(init@) =~= Seq::<TypingFieldView>::empty());
            Ok(
                TypingClassPlan {
                    name: String::from_str(name),
                    kind: ClassKind::Enum,
                    attributes,
                    init,
                },
            )
        },
    }
}

} // verus!
