//! A schema as it was read, and the schema that generation works from.

use crate::duplicate::{views_of, Duplicate};
use crate::error::{Fault, SchemaError};
use crate::models::message::{MessageType, MessageTypeView};
use crate::models::table::{inserted, lookup, merged, Table};
use crate::models::types::{
    copy_types, lemma_message_field_views, lemma_type_views, message_field_views, type_views,
    MessageField, MessageFieldView, Type, TypeView,
};
use crate::models::{ByteOrder, MessageTypeMap, MessageTypeMapView, TypeMap, TypeMapView};
use crate::text::{
    copy_text, count_char, count_occurrences, decimal, decimal_text, last_segment, opt_text,
    tail_after_last,
};
use vstd::prelude::*;
use vstd::string::*;

verus! {

/// A schema as it stands in the document: attributes, type sections and messages.
#[derive(PartialEq, Debug, Clone)]
pub struct MessageSchema {
    pub package: String,
    pub id: u16,
    pub version: usize,
    pub semantic_version: Option<String>,
    pub description: Option<String>,
    pub byte_order: Option<ByteOrder>,
    pub header_type: Option<String>,
    pub types_section: Vec<TypesSection>,
    pub message_types: Vec<MessageType>,
}

/// The mathematical content of a [`MessageSchema`].
pub struct MessageSchemaView {
    pub package: Seq<char>,
    pub id: u16,
    pub version: usize,
    pub semantic_version: Option<Seq<char>>,
    pub description: Option<Seq<char>>,
    pub byte_order: Option<ByteOrder>,
    pub header_type: Option<Seq<char>>,
    pub types_section: Seq<TypesSectionView>,
    pub message_types: Seq<MessageTypeView>,
}

impl View for MessageSchema {
    type V = MessageSchemaView;

    open spec fn view(&self) -> MessageSchemaView {
        MessageSchemaView {
            package: self.package@,
            id: self.id,
            version: self.version,
            semantic_version: opt_text(self.semantic_version),
            description: opt_text(self.description),
            byte_order: self.byte_order,
            header_type: opt_text(self.header_type),
            types_section: views_of(self.types_section@),
            message_types: views_of(self.message_types@),
        }
    }
}

/// A schema with its defaults resolved and its types and messages sorted into tables.
#[derive(PartialEq, Debug, Clone)]
pub struct ValidatedMessageSchema {
    pub package: String,
    pub id: u16,
    pub version: usize,
    pub semantic_version: String,
    pub description: Option<String>,
    pub byte_order: ByteOrder,
    pub types: TypeMap,
    pub message_types: MessageTypeMap,
}

/// The mathematical content of a [`ValidatedMessageSchema`].
pub struct ValidatedMessageSchemaView {
    pub package: Seq<char>,
    pub id: u16,
    pub version: usize,
    pub semantic_version: Seq<char>,
    pub description: Option<Seq<char>>,
    pub byte_order: ByteOrder,
    pub types: TypeMapView,
    pub message_types: MessageTypeMapView,
}

impl View for ValidatedMessageSchema {
    type V = ValidatedMessageSchemaView;

    open spec fn view(&self) -> ValidatedMessageSchemaView {
        ValidatedMessageSchemaView {
            package: self.package@,
            id: self.id,
            version: self.version,
            semantic_version: self.semantic_version@,
            description: opt_text(self.description),
            byte_order: self.byte_order,
            types: self.types@,
            message_types: self.message_types@,
        }
    }
}

/// One `types` section of a schema.
#[derive(PartialEq, Debug, Clone)]
pub struct TypesSection {
    pub types: Vec<Type>,
}

/// The mathematical content of a [`TypesSection`].
pub struct TypesSectionView {
    pub types: Seq<TypeView>,
}

impl View for TypesSection {
    type V = TypesSectionView;

    open spec fn view(&self) -> TypesSectionView {
        TypesSectionView { types: type_views(self.types@) }
    }
}

impl Duplicate for TypesSection {
    fn duplicate(&self) -> (r: Self) {
        TypesSection { types: copy_types(&self.types) }
    }
}

/// The types that a type declares: itself under its own name and, for a composite, all
/// that its sub-types declare in turn.  A reference declares nothing.
pub open spec fn nested_types(t: TypeView) -> Seq<(Seq<char>, TypeView)>
    decreases t, 1nat,
{
    match t {
        TypeView::Composite(c) => nested_types_in(
            inserted(Seq::<(Seq<char>, TypeView)>::empty(), c.name, t),
            c.fields,
        ),
        TypeView::Reference(_) => Seq::empty(),
        _ => inserted(Seq::<(Seq<char>, TypeView)>::empty(), t.name(), t),
    }
}

/// `base`, and after it what each of `types` declares, from the first to the last.
/// Where a name is declared more than once, the last declaration stands.
pub open spec fn nested_types_in(
    base: Seq<(Seq<char>, TypeView)>,
    types: Seq<TypeView>,
) -> Seq<(Seq<char>, TypeView)>
    decreases types, 0nat,
{
    if types.len() == 0 {
        base
    } else {
        let found = nested_types(types.last());
        merged(nested_types_in(base, types.drop_last()), found, found.len())
    }
}

/// One more type is taken in after those before it.
pub proof fn lemma_nested_types_step(
    base: Seq<(Seq<char>, TypeView)>,
    types: Seq<TypeView>,
    k: int,
)
    requires
        0 <= k < types.len(),
    ensures
        nested_types_in(base, types.subrange(0, k + 1)) == merged(
            nested_types_in(base, types.subrange(0, k)),
            nested_types(types[k]),
            nested_types(types[k]).len(),
        ),
{
    let next = types.subrange(0, k + 1);
    assert(next.drop_last() == types.subrange(0, k));
    assert(next.last() == types[k]);
}

/// What all sections of a schema declare.
pub open spec fn declared_types(sections: Seq<TypesSectionView>) -> Seq<(Seq<char>, TypeView)>
    decreases sections.len(),
{
    if sections.len() == 0 {
        Seq::empty()
    } else {
        nested_types_in(declared_types(sections.drop_last()), sections.last().types)
    }
}

/// The fields that a message field brings: itself under its own name and, for a group,
/// all that its children bring in turn.
pub open spec fn nested_fields(f: MessageFieldView) -> Seq<(Seq<char>, MessageFieldView)>
    decreases f, 1nat,
{
    match f {
        MessageFieldView::Group(g) => nested_fields_in(
            inserted(Seq::<(Seq<char>, MessageFieldView)>::empty(), f.name(), f),
            g.fields,
        ),
        _ => inserted(Seq::<(Seq<char>, MessageFieldView)>::empty(), f.name(), f),
    }
}

/// `base`, and after it what each of `fields` brings, from the first to the last.
pub open spec fn nested_fields_in(
    base: Seq<(Seq<char>, MessageFieldView)>,
    fields: Seq<MessageFieldView>,
) -> Seq<(Seq<char>, MessageFieldView)>
    decreases fields, 0nat,
{
    if fields.len() == 0 {
        base
    } else {
        let found = nested_fields(fields.last());
        merged(nested_fields_in(base, fields.drop_last()), found, found.len())
    }
}

/// One more field is taken in after those before it.
pub proof fn lemma_nested_fields_step(
    base: Seq<(Seq<char>, MessageFieldView)>,
    fields: Seq<MessageFieldView>,
    k: int,
)
    requires
        0 <= k < fields.len(),
    ensures
        nested_fields_in(base, fields.subrange(0, k + 1)) == merged(
            nested_fields_in(base, fields.subrange(0, k)),
            nested_fields(fields[k]),
            nested_fields(fields[k]).len(),
        ),
{
    let next = fields.subrange(0, k + 1);
    assert(next.drop_last() == fields.subrange(0, k));
    assert(next.last() == fields[k]);
}

/// The fields of all messages, groups looked into.
pub open spec fn declared_fields(messages: Seq<MessageTypeView>) -> Seq<
    (Seq<char>, MessageFieldView),
>
    decreases messages.len(),
{
    if messages.len() == 0 {
        Seq::empty()
    } else {
        nested_fields_in(declared_fields(messages.drop_last()), messages.last().fields)
    }
}

/// The messages under their names.
pub open spec fn declared_messages(messages: Seq<MessageTypeView>) -> Seq<
    (Seq<char>, MessageTypeView),
>
    decreases messages.len(),
{
    if messages.len() == 0 {
        Seq::empty()
    } else {
        inserted(declared_messages(messages.drop_last()), messages.last().name, messages.last())
    }
}

/// A version of exactly three parts: `.0` is added for each part that is missing.
pub open spec fn three_part_version(v: Seq<char>) -> Seq<char> {
    if count_char(v, '.') == 0 {
        v + ".0.0"@
    } else if count_char(v, '.') == 1 {
        v + ".0"@
    } else {
        v
    }
}

impl MessageSchemaView {
    /// The version of the emitted project: the semantic version, or else the schema
    /// version, brought to three parts.
    pub open spec fn project_version(self) -> Seq<char> {
        three_part_version(
            match self.semantic_version {
                Some(v) => v,
                None => decimal_text(self.version as nat) + ".0.0"@,
            },
        )
    }

    /// The name of the header composite: `messageHeader` unless the schema names another.
    pub open spec fn header_name(self) -> Seq<char> {
        match self.header_type {
            Some(n) => n,
            None => "messageHeader"@,
        }
    }

    /// The validated schema, or why the schema is rejected: because its package has no
    /// last segment, or because its header type is not declared or is no composite.
    pub open spec fn validated(self) -> Result<ValidatedMessageSchemaView, Fault> {
        let types = declared_types(self.types_section);
        let fields = declared_fields(self.message_types);
        if last_segment(self.package, '.').len() == 0 {
            Err(Fault::EmptyPackage)
        } else {
            match lookup(types, self.header_name()) {
                None => Err(Fault::HeaderNotFound(self.header_name())),
                Some(TypeView::Composite(header)) => Ok(
                    ValidatedMessageSchemaView {
                        package: last_segment(self.package, '.'),
                        id: self.id,
                        version: self.version,
                        semantic_version: self.project_version(),
                        description: self.description,
                        byte_order: match self.byte_order {
                            Some(b) => b,
                            None => ByteOrder::LittleEndian,
                        },
                        types: TypeMapView::collected(header, types, types.len()),
                        message_types: MessageTypeMapView::collected(
                            declared_messages(self.message_types),
                            fields,
                            fields.len(),
                        ),
                    },
                ),
                Some(_) => Err(Fault::HeaderNotComposite(self.header_name())),
            }
        }
    }
}

impl MessageSchema {
    /// The types that `type_` declares.
    pub fn find_nested_types(type_: &Type) -> (r: Table<Type>)
        ensures
            r@ == nested_types(type_@),
        decreases type_,
    {
        let mut result: Table<Type> = Table::new();
        match type_ {
            Type::Composite(c) => {
                result.insert(c.name.clone(), type_.duplicate());
                let ghost base = result@;
                let ghost views = type_views(c.fields@);
                proof {
                    lemma_type_views(c.fields@);
                    assert(views.subrange(0, 0) =~= Seq::<TypeView>::empty());
                }
                let mut i: usize = 0;
                while i < c.fields.len()
                    invariant
                        i <= c.fields.len(),
                        decreases_to!(*type_ => c.fields),
                        views == type_views(c.fields@),
                        views.len() == c.fields.len(),
                        forall|j: int| 0 <= j < c.fields.len() ==> (#[trigger] views[j]) == c.fields@[j]@,
                        result@ == nested_types_in(base, views.subrange(0, i as int)),
                    decreases c.fields.len() - i,
                {
                    assert(decreases_to!(c.fields => c.fields[i as int]));
                    proof {
                        lemma_nested_types_step(base, views, i as int);
                    }
                    let found = Self::find_nested_types(&c.fields[i]);
                    result.extend(&found);
                    i = i + 1;
                }
                assert(views.subrange(0, i as int) == views);
            },
            Type::Reference(_) => (),
            _ => {
                result.insert(String::from_str(type_.name()), type_.duplicate());
            },
        }
        result
    }

    /// The fields that `message_field` brings.
    pub fn find_nested_message_types(message_field: &MessageField) -> (r: Table<MessageField>)
        ensures
            r@ == nested_fields(message_field@),
        decreases message_field,
    {
        let mut result: Table<MessageField> = Table::new();
        result.insert(String::from_str(message_field.name()), message_field.duplicate());
        if let MessageField::Group(group_type) = message_field {
            let ghost base = result@;
            let ghost views = message_field_views(group_type.fields@);
            proof {
                lemma_message_field_views(group_type.fields@);
                assert(views.subrange(0, 0) =~= Seq::<MessageFieldView>::empty());
            }
            let mut i: usize = 0;
            while i < group_type.fields.len()
                invariant
                    i <= group_type.fields.len(),
                    decreases_to!(*message_field => group_type.fields),
                    views == message_field_views(group_type.fields@),
                    views.len() == group_type.fields.len(),
                    forall|j: int|
                        0 <= j < group_type.fields.len() ==> (#[trigger] views[j])
                            == group_type.fields@[j]@,
                    result@ == nested_fields_in(base, views.subrange(0, i as int)),
                decreases group_type.fields.len() - i,
            {
                assert(decreases_to!(group_type.fields => group_type.fields[i as int]));
                proof {
                    lemma_nested_fields_step(base, views, i as int);
                }
                let found = Self::find_nested_message_types(&group_type.fields[i]);
                result.extend(&found);
                i = i + 1;
            }
            assert(views.subrange(0, i as int) == views);
        }
        result
    }

    /// All declared types under their names, nested ones included.
    pub fn types(&self) -> (r: Table<Type>)
        ensures
            r@ == declared_types(self@.types_section),
    {
        let mut result: Table<Type> = Table::new();
        let ghost sections = self@.types_section;
        let mut s: usize = 0;
        assert(sections.subrange(0, 0) =~= Seq::<TypesSectionView>::empty());
        while s < self.types_section.len()
            invariant
                s <= self.types_section.len(),
                sections == self@.types_section,
                sections.len() == self.types_section.len(),
                result@ == declared_types(sections.subrange(0, s as int)),
            decreases self.types_section.len() - s,
        {
            let section = &self.types_section[s];
            let ghost base = result@;
            let ghost views = type_views(section.types@);
            proof {
                lemma_type_views(section.types@);
                assert(views.subrange(0, 0) =~= Seq::<TypeView>::empty());
                assert(sections[s as int] == section@);
            }
            let mut i: usize = 0;
            while i < section.types.len()
                invariant
                    i <= section.types.len(),
                    views == type_views(section.types@),
                    views.len() == section.types.len(),
                    forall|j: int|
                        0 <= j < section.types.len() ==> (#[trigger] views[j]) == section.types@[j]@,
                    result@ == nested_types_in(base, views.subrange(0, i as int)),
                decreases section.types.len() - i,
            {
                proof {
                    lemma_nested_types_step(base, views, i as int);
                }
                let found = Self::find_nested_types(&section.types[i]);
                result.extend(&found);
                i = i + 1;
            }
            proof {
                assert(views.subrange(0, i as int) == views);
                let next = sections.subrange(0, s as int + 1);
                assert(next.drop_last() == sections.subrange(0, s as int));
                assert(next.last() == sections[s as int]);
            }
            s = s + 1;
        }
        assert(sections.subrange(0, s as int) == sections);
        result
    }

    /// The messages under their names.
    pub fn message_types(&self) -> (r: Table<MessageType>)
        ensures
            r@ == declared_messages(self@.message_types),
    {
        let mut result: Table<MessageType> = Table::new();
        let ghost messages = self@.message_types;
        let mut i: usize = 0;
        assert(messages.subrange(0, 0) =~= Seq::<MessageTypeView>::empty());
        while i < self.message_types.len()
            invariant
                i <= self.message_types.len(),
                messages == self@.message_types,
                messages.len() == self.message_types.len(),
                result@ == declared_messages(messages.subrange(0, i as int)),
            decreases self.message_types.len() - i,
        {
            let message_type = &self.message_types[i];
            proof {
                let next = messages.subrange(0, i as int + 1);
                assert(next.drop_last() == messages.subrange(0, i as int));
                assert(next.last() == message_type@);
            }
            result.insert(message_type.name.clone(), message_type.duplicate());
            i = i + 1;
        }
        assert(messages.subrange(0, i as int) == messages);
        result
    }

    /// The fields of all messages under their names, groups looked into.
    pub fn message_field_types(&self) -> (r: Table<MessageField>)
        ensures
            r@ == declared_fields(self@.message_types),
    {
        let mut result: Table<MessageField> = Table::new();
        let ghost messages = self@.message_types;
        let mut m: usize = 0;
        assert(messages.subrange(0, 0) =~= Seq::<MessageTypeView>::empty());
        while m < self.message_types.len()
            invariant
                m <= self.message_types.len(),
                messages == self@.message_types,
                messages.len() == self.message_types.len(),
                result@ == declared_fields(messages.subrange(0, m as int)),
            decreases self.message_types.len() - m,
        {
            let message_type = &self.message_types[m];
            let ghost base = result@;
            let ghost views = message_field_views(message_type.fields@);
            proof {
                lemma_message_field_views(message_type.fields@);
                assert(views.subrange(0, 0) =~= Seq::<MessageFieldView>::empty());
                assert(messages[m as int] == message_type@);
            }
            let mut i: usize = 0;
            while i < message_type.fields.len()
                invariant
                    i <= message_type.fields.len(),
                    views == message_field_views(message_type.fields@),
                    views.len() == message_type.fields.len(),
                    forall|j: int|
                        0 <= j < message_type.fields.len() ==> (#[trigger] views[j])
                            == message_type.fields@[j]@,
                    result@ == nested_fields_in(base, views.subrange(0, i as int)),
                decreases message_type.fields.len() - i,
            {
                proof {
                    lemma_nested_fields_step(base, views, i as int);
                }
                let found = Self::find_nested_message_types(&message_type.fields[i]);
                result.extend(&found);
                i = i + 1;
            }
            proof {
                assert(views.subrange(0, i as int) == views);
                let next = messages.subrange(0, m as int + 1);
                assert(next.drop_last() == messages.subrange(0, m as int));
                assert(next.last() == messages[m as int]);
            }
            m = m + 1;
        }
        assert(messages.subrange(0, m as int) == messages);
        result
    }

    /// The version of the emitted project, in three parts.
    pub fn project_version(&self) -> (r: String)
        ensures
            r@ == self@.project_version(),
    {
        let version = match &self.semantic_version {
            Some(v) => v.clone(),
            None => decimal(self.version).concat(".0.0"),
        };
        let dot_count = count_occurrences(version.as_str(), '.');
        if dot_count == 0 {
            version.concat(".0.0")
        } else if dot_count == 1 {
            version.concat(".0")
        } else {
            version
        }
    }

    /// Turns the schema as read into the schema that generation works from: defaults are
    /// resolved, the header composite is looked up, types and messages are sorted into
    /// tables.
    pub fn validate(self) -> (r: Result<ValidatedMessageSchema, SchemaError>)
        ensures
            match r {
                Ok(v) => self@.validated() == Ok::<ValidatedMessageSchemaView, Fault>(v@),
                Err(e) => self@.validated() == Err::<ValidatedMessageSchemaView, Fault>(e@),
            },
    {
        let types = self.types();
        let message_types = self.message_types();
        let message_field_types = self.message_field_types();

        let package = tail_after_last(self.package.as_str(), '.');
        if package.as_str().unicode_len() == 0 {
            return Err(SchemaError::EmptyPackage);
        }
        let byte_order = match self.byte_order {
            Some(b) => b,
            None => ByteOrder::LittleEndian,
        };
        let semantic_version = self.project_version();

        let header_type_name = match &self.header_type {
            Some(n) => n.clone(),
            None => String::from_str("messageHeader"),
        };
        let header_type = match types.get(header_type_name.as_str()) {
            Some(t) => t,
            None => { return Err(SchemaError::HeaderNotFound(header_type_name)); },
        };
        let header_type = match header_type {
            Type::Composite(composite_type) => composite_type.duplicate(),
            _ => { return Err(SchemaError::HeaderNotComposite(header_type_name)); },
        };

        Ok(
            ValidatedMessageSchema {
                package,
                id: self.id,
                version: self.version,
                semantic_version,
                description: copy_text(&self.description),
                byte_order,
                types: TypeMap::new(types, header_type),
                message_types: MessageTypeMap::new(message_types, message_field_types),
            },
        )
    }
}

} // verus!
