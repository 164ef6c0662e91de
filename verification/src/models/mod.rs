//! The schema as it stands in memory.

pub mod constants;
pub mod message;
pub mod schema;
pub mod sizing;
pub mod table;
pub mod types;

use crate::duplicate::Duplicate;
use crate::error::{Fault, SchemaError};
use crate::models::message::{MessageType, MessageTypeView};
use crate::models::table::{inserted, values_of, Table};
use crate::models::types::composite_type::{CompositeType, CompositeTypeView};
use crate::models::types::encoded_data_type::{EncodedDataType, EncodedDataTypeView};
use crate::models::types::enum_type::{EnumType, EnumTypeView};
use crate::models::types::group_type::{GroupType, GroupTypeView};
use crate::models::types::set_type::{SetType, SetTypeView};
use crate::models::types::variable_data_type::{VariableDataType, VariableDataTypeView};
use crate::models::types::{
    lemma_message_field_views, lemma_type_views, message_field_views, type_views, MessageField,
    MessageFieldView, Type, TypeView,
};
use crate::text::same_text;
use vstd::prelude::*;
use vstd::string::*;

verus! {

/// The order in which the bytes of a multi-byte primitive stand on the wire.
#[derive(PartialEq, Eq, Structural, Debug, Copy, Clone)]
pub enum ByteOrder {
    LittleEndian,
    BigEndian,
}

impl ByteOrder {
    /// What a byte-order attribute means, if it is one of the two names.
    pub open spec fn of_name(s: Seq<char>) -> Option<ByteOrder> {
        if s == "littleEndian"@ {
            Some(ByteOrder::LittleEndian)
        } else if s == "bigEndian"@ {
            Some(ByteOrder::BigEndian)
        } else {
            None
        }
    }

    /// Reads a byte-order attribute.
    pub fn from_name(s: &str) -> (r: Result<ByteOrder, SchemaError>)
        ensures
            match r {
                Ok(b) => ByteOrder::of_name(s@) == Some(b),
                Err(e) => ByteOrder::of_name(s@) is None && e@ == Fault::InvalidByteOrder(s@),
            },
    {
        if same_text(s, "littleEndian") {
            Ok(ByteOrder::LittleEndian)
        } else if same_text(s, "bigEndian") {
            Ok(ByteOrder::BigEndian)
        } else {
            Err(SchemaError::InvalidByteOrder(String::from_str(s)))
        }
    }
}

impl std::str::FromStr for ByteOrder {
    type Err = SchemaError;

    fn from_str(s: &str) -> (r: Result<Self, SchemaError>)
        ensures
            match r {
                Ok(b) => ByteOrder::of_name(s@) == Some(b),
                Err(e) => ByteOrder::of_name(s@) is None && e@ == Fault::InvalidByteOrder(s@),
            },
    {
        ByteOrder::from_name(s)
    }
}

/// The declared types of a schema, one table for each kind, and the message header.
#[derive(PartialEq, Debug, Clone)]
pub struct TypeMap {
    pub header_type: CompositeType,
    pub encoded_types: Table<EncodedDataType>,
    pub set_types: Table<SetType>,
    pub enum_types: Table<EnumType>,
    pub composite_types: Table<CompositeType>,
}

/// The mathematical content of a [`TypeMap`].
pub struct TypeMapView {
    pub header_type: CompositeTypeView,
    pub encoded_types: Seq<(Seq<char>, EncodedDataTypeView)>,
    pub set_types: Seq<(Seq<char>, SetTypeView)>,
    pub enum_types: Seq<(Seq<char>, EnumTypeView)>,
    pub composite_types: Seq<(Seq<char>, CompositeTypeView)>,
}

impl View for TypeMap {
    type V = TypeMapView;

    open spec fn view(&self) -> TypeMapView {
        TypeMapView {
            header_type: self.header_type@,
            encoded_types: self.encoded_types@,
            set_types: self.set_types@,
            enum_types: self.enum_types@,
            composite_types: self.composite_types@,
        }
    }
}

impl TypeMapView {
    /// The map without any declared type.
    pub open spec fn empty(header_type: CompositeTypeView) -> TypeMapView {
        TypeMapView {
            header_type,
            encoded_types: Seq::empty(),
            set_types: Seq::empty(),
            enum_types: Seq::empty(),
            composite_types: Seq::empty(),
        }
    }

    /// The map after one more declaration: it goes to the table of its kind.
    /// A reference declares nothing.
    pub open spec fn with(self, name: Seq<char>, t: TypeView) -> TypeMapView {
        match t {
            TypeView::EncodedData(e) => TypeMapView {
                encoded_types: inserted(self.encoded_types, name, e),
                ..self
            },
            TypeView::BitSet(s) => TypeMapView { set_types: inserted(self.set_types, name, s), ..self },
            TypeView::Enum(e) => TypeMapView { enum_types: inserted(self.enum_types, name, e), ..self },
            TypeView::Composite(c) => TypeMapView {
                composite_types: inserted(self.composite_types, name, c),
                ..self
            },
            TypeView::Reference(_) => self,
        }
    }

    /// The map that holds the first `n` of the given declarations.
    pub open spec fn collected(
        header_type: CompositeTypeView,
        declared: Seq<(Seq<char>, TypeView)>,
        n: nat,
    ) -> TypeMapView
        decreases n,
    {
        if n == 0 || n > declared.len() {
            TypeMapView::empty(header_type)
        } else {
            TypeMapView::collected(header_type, declared, (n - 1) as nat).with(
                declared[n - 1].0,
                declared[n - 1].1,
            )
        }
    }

    /// The type declared under `name`.  The encoded types are asked first, then the
    /// bit-sets, the enums and the composites; the first that knows the name answers.
    pub open spec fn find(self, name: Seq<char>) -> Option<TypeView> {
        match crate::models::table::lookup(self.encoded_types, name) {
            Some(e) => Some(TypeView::EncodedData(e)),
            None => match crate::models::table::lookup(self.set_types, name) {
                Some(s) => Some(TypeView::BitSet(s)),
                None => match crate::models::table::lookup(self.enum_types, name) {
                    Some(e) => Some(TypeView::Enum(e)),
                    None => match crate::models::table::lookup(self.composite_types, name) {
                        Some(c) => Some(TypeView::Composite(c)),
                        None => None,
                    },
                },
            },
        }
    }

    /// All declared types: the encoded types, then the bit-sets, the enums and the
    /// composites, each table in its own order.
    pub open spec fn values(self) -> Seq<TypeView> {
        values_of(self.encoded_types).map_values(|e: EncodedDataTypeView| TypeView::EncodedData(e))
            + values_of(self.set_types).map_values(|s: SetTypeView| TypeView::BitSet(s))
            + values_of(self.enum_types).map_values(|e: EnumTypeView| TypeView::Enum(e))
            + values_of(self.composite_types).map_values(
            |c: CompositeTypeView| TypeView::Composite(c),
        )
    }

    /// The number of declared types, as far as a `usize` can tell it.
    pub open spec fn count(self) -> nat {
        let n = self.encoded_types.len() + self.set_types.len() + self.enum_types.len()
            + self.composite_types.len();
        if n > usize::MAX {
            usize::MAX as nat
        } else {
            n
        }
    }
}

/// What the type map knows of a declaration: a reference declares nothing.
pub open spec fn declared_type(found: Option<TypeView>) -> Option<TypeView> {
    match found {
        Some(t) => if t is Reference {
            None
        } else {
            Some(t)
        },
        None => None,
    }
}

/// What was declared is found: a type map that was collected from declarations of
/// distinct names finds under a name exactly the type that was declared under it,
/// unless that is a reference.
pub proof fn lemma_collected_find(
    header_type: CompositeTypeView,
    declared: Seq<(Seq<char>, TypeView)>,
    n: nat,
    name: Seq<char>,
)
    requires
        crate::models::table::distinct_names(declared),
        n <= declared.len(),
    ensures
        TypeMapView::collected(header_type, declared, n).find(name) == declared_type(
            crate::models::table::lookup(declared.subrange(0, n as int), name),
        ),
        crate::models::table::lookup(declared.subrange(0, n as int), name) is None ==> {
            let map = TypeMapView::collected(header_type, declared, n);
            &&& crate::models::table::lookup(map.encoded_types, name) is None
            &&& crate::models::table::lookup(map.set_types, name) is None
            &&& crate::models::table::lookup(map.enum_types, name) is None
            &&& crate::models::table::lookup(map.composite_types, name) is None
        },
    decreases n,
{
    if n == 0 {
        assert(declared.subrange(0, 0) =~= Seq::<(Seq<char>, TypeView)>::empty());
    } else {
        let before = TypeMapView::collected(header_type, declared, (n - 1) as nat);
        let (key, t) = declared[n - 1];
        let earlier = declared.subrange(0, n - 1);
        assert(declared.subrange(0, n as int) =~= earlier.push((key, t)));
        lemma_collected_find(header_type, declared, (n - 1) as nat, name);
        crate::models::table::lemma_lookup_push(earlier, key, t, name);
        crate::models::table::lemma_lookup_inserted(before.encoded_types, key, t->EncodedData_0, name);
        crate::models::table::lemma_lookup_inserted(before.set_types, key, t->BitSet_0, name);
        crate::models::table::lemma_lookup_inserted(before.enum_types, key, t->Enum_0, name);
        crate::models::table::lemma_lookup_inserted(before.composite_types, key, t->Composite_0, name);
        if key == name {
            crate::models::table::lemma_position_from(earlier, name, 0);
            let p = crate::models::table::position(earlier, name);
            if p < earlier.len() {
                assert(declared[p].0 == earlier[p].0);
                assert(declared[p].0 != declared[n - 1].0);
            }
        }
    }
}

impl TypeMap {
    /// Sorts declarations into the table of their kind.
    pub fn new(types: Table<Type>, header_type: CompositeType) -> (r: Self)
        ensures
            r@ == TypeMapView::collected(header_type@, types@, types@.len()),
    {
        let ghost header = header_type@;
        let mut map = TypeMap {
            header_type,
            encoded_types: Table::new(),
            set_types: Table::new(),
            enum_types: Table::new(),
            composite_types: Table::new(),
        };
        let mut i: usize = 0;
        while i < types.len()
            invariant
                i <= types@.len(),
                map@ == TypeMapView::collected(header, types@, i as nat),
            decreases types@.len() - i,
        {
            let name = String::from_str(types.name_at(i));
            match types.value_at(i) {
                Type::EncodedData(encoded_type) => {
                    map.encoded_types.insert(name, encoded_type.duplicate());
                },
                Type::BitSet(set_type) => {
                    map.set_types.insert(name, set_type.duplicate());
                },
                Type::Enum(enum_type) => {
                    map.enum_types.insert(name, enum_type.duplicate());
                },
                Type::Composite(composite_type) => {
                    map.composite_types.insert(name, composite_type.duplicate());
                },
                Type::Reference(_) => (),
            }
            i = i + 1;
        }
        map
    }

    /// The type declared under `name`.
    pub fn find_type(&self, name: &str) -> (r: Option<Type>)
        ensures
            match r {
                Some(t) => self@.find(name@) == Some(t@),
                None => self@.find(name@) is None,
            },
    {
        match self.encoded_types.get(name) {
            Some(res) => Some(Type::EncodedData(res.duplicate())),
            None => match self.set_types.get(name) {
                Some(res) => Some(Type::BitSet(res.duplicate())),
                None => match self.enum_types.get(name) {
                    Some(res) => Some(Type::Enum(res.duplicate())),
                    None => match self.composite_types.get(name) {
                        Some(res) => Some(Type::Composite(res.duplicate())),
                        None => None,
                    },
                },
            },
        }
    }

    /// All declared types, references left out, in a fixed order.
    pub fn iter_values(&self) -> (r: Vec<Type>)
        ensures
            type_views(r@) == self@.values(),
    {
        let mut out: Vec<Type> = Vec::new();
        let ghost a = values_of(self@.encoded_types).map_values(
            |e: EncodedDataTypeView| TypeView::EncodedData(e),
        );
        let ghost b = values_of(self@.set_types).map_values(|s: SetTypeView| TypeView::BitSet(s));
        let ghost c = values_of(self@.enum_types).map_values(|e: EnumTypeView| TypeView::Enum(e));
        let ghost d = values_of(self@.composite_types).map_values(
            |c: CompositeTypeView| TypeView::Composite(c),
        );
        let mut i: usize = 0;
        while i < self.encoded_types.len()
            invariant
                i <= self.encoded_types@.len(),
                out@.len() == i,
                forall|j: int| 0 <= j < i ==> (#[trigger] out@[j])@ == a[j],
                a == values_of(self@.encoded_types).map_values(
                    |e: EncodedDataTypeView| TypeView::EncodedData(e),
                ),
            decreases self.encoded_types@.len() - i,
        {
            out.push(Type::EncodedData(self.encoded_types.value_at(i).duplicate()));
            i = i + 1;
        }
        let mut i: usize = 0;
        while i < self.set_types.len()
            invariant
                i <= self.set_types@.len(),
                out@.len() == a.len() + i,
                forall|j: int| 0 <= j < a.len() ==> (#[trigger] out@[j])@ == a[j],
                forall|j: int| 0 <= j < i ==> (#[trigger] out@[a.len() + j])@ == b[j],
                b == values_of(self@.set_types).map_values(|s: SetTypeView| TypeView::BitSet(s)),
            decreases self.set_types@.len() - i,
        {
            out.push(Type::BitSet(self.set_types.value_at(i).duplicate()));
            i = i + 1;
        }
        let mut i: usize = 0;
        while i < self.enum_types.len()
            invariant
                i <= self.enum_types@.len(),
                out@.len() == a.len() + b.len() + i,
                forall|j: int| 0 <= j < a.len() ==> (#[trigger] out@[j])@ == a[j],
                forall|j: int| 0 <= j < b.len() ==> (#[trigger] out@[a.len() + j])@ == b[j],
                forall|j: int| 0 <= j < i ==> (#[trigger] out@[a.len() + b.len() + j])@ == c[j],
                c == values_of(self@.enum_types).map_values(|e: EnumTypeView| TypeView::Enum(e)),
            decreases self.enum_types@.len() - i,
        {
            out.push(Type::Enum(self.enum_types.value_at(i).duplicate()));
            i = i + 1;
        }
        let mut i: usize = 0;
        while i < self.composite_types.len()
            invariant
                i <= self.composite_types@.len(),
                out@.len() == a.len() + b.len() + c.len() + i,
                forall|j: int| 0 <= j < a.len() ==> (#[trigger] out@[j])@ == a[j],
                forall|j: int| 0 <= j < b.len() ==> (#[trigger] out@[a.len() + j])@ == b[j],
                forall|j: int| 0 <= j < c.len() ==> (#[trigger] out@[a.len() + b.len() + j])@ == c[j],
                forall|j: int|
                    0 <= j < i ==> (#[trigger] out@[a.len() + b.len() + c.len() + j])@ == d[j],
                d == values_of(self@.composite_types).map_values(
                    |c: CompositeTypeView| TypeView::Composite(c),
                ),
            decreases self.composite_types@.len() - i,
        {
            out.push(Type::Composite(self.composite_types.value_at(i).duplicate()));
            i = i + 1;
        }
        proof {
            lemma_type_views(out@);
            let all = a + b + c + d;
            assert(type_views(out@).len() == all.len());
            assert forall|j: int| 0 <= j < all.len() implies type_views(out@)[j] == all[j] by {
                if j < a.len() {
                } else if j < a.len() + b.len() {
                    assert(out@[a.len() + (j - a.len())]@ == b[j - a.len()]);
                } else if j < a.len() + b.len() + c.len() {
                    assert(out@[a.len() + b.len() + (j - a.len() - b.len())]@ == c[j - a.len()
                        - b.len()]);
                } else {
                    assert(out@[a.len() + b.len() + c.len() + (j - a.len() - b.len() - c.len())]@
                        == d[j - a.len() - b.len() - c.len()]);
                }
            }
            assert(type_views(out@) =~= self@.values());
        }
        out
    }

    /// The number of declared types, as far as a `usize` can tell it.
    pub fn count(&self) -> (n: usize)
        ensures
            n == self@.count(),
    {
        let a = self.encoded_types.len();
        let b = self.set_types.len();
        let c = self.enum_types.len();
        let d = self.composite_types.len();
        match a.checked_add(b) {
            None => usize::MAX,
            Some(ab) => match ab.checked_add(c) {
                None => usize::MAX,
                Some(abc) => match abc.checked_add(d) {
                    None => usize::MAX,
                    Some(n) => n,
                },
            },
        }
    }
}

impl Duplicate for TypeMap {
    fn duplicate(&self) -> (r: Self) {
        TypeMap {
            header_type: self.header_type.duplicate(),
            encoded_types: self.encoded_types.duplicate(),
            set_types: self.set_types.duplicate(),
            enum_types: self.enum_types.duplicate(),
            composite_types: self.composite_types.duplicate(),
        }
    }
}

/// The messages of a schema, and the groups and variable-length fields found in them.
#[derive(PartialEq, Debug, Clone)]
pub struct MessageTypeMap {
    pub message_types: Table<MessageType>,
    pub group_types: Table<GroupType>,
    pub variable_data_types: Table<VariableDataType>,
}

/// The mathematical content of a [`MessageTypeMap`].
pub struct MessageTypeMapView {
    pub message_types: Seq<(Seq<char>, MessageTypeView)>,
    pub group_types: Seq<(Seq<char>, GroupTypeView)>,
    pub variable_data_types: Seq<(Seq<char>, VariableDataTypeView)>,
}

impl View for MessageTypeMap {
    type V = MessageTypeMapView;

    open spec fn view(&self) -> MessageTypeMapView {
        MessageTypeMapView {
            message_types: self.message_types@,
            group_types: self.group_types@,
            variable_data_types: self.variable_data_types@,
        }
    }
}

impl MessageTypeMapView {
    /// The map after one more message field: a group or a variable-length field goes to
    /// the table of its kind, a plain field to none.
    pub open spec fn with(self, name: Seq<char>, f: MessageFieldView) -> MessageTypeMapView {
        match f {
            MessageFieldView::Field(_) => self,
            MessageFieldView::Group(g) => MessageTypeMapView {
                group_types: inserted(self.group_types, name, g),
                ..self
            },
            MessageFieldView::VariableData(v) => MessageTypeMapView {
                variable_data_types: inserted(self.variable_data_types, name, v),
                ..self
            },
        }
    }

    /// The map that holds the given messages and the first `n` of the given fields.
    pub open spec fn collected(
        message_types: Seq<(Seq<char>, MessageTypeView)>,
        fields: Seq<(Seq<char>, MessageFieldView)>,
        n: nat,
    ) -> MessageTypeMapView
        decreases n,
    {
        if n == 0 || n > fields.len() {
            MessageTypeMapView {
                message_types,
                group_types: Seq::empty(),
                variable_data_types: Seq::empty(),
            }
        } else {
            MessageTypeMapView::collected(message_types, fields, (n - 1) as nat).with(
                fields[n - 1].0,
                fields[n - 1].1,
            )
        }
    }

    /// The groups, then the variable-length fields, each table in its own order.
    pub open spec fn values(self) -> Seq<MessageFieldView> {
        values_of(self.group_types).map_values(|g: GroupTypeView| MessageFieldView::Group(g))
            + values_of(self.variable_data_types).map_values(
            |v: VariableDataTypeView| MessageFieldView::VariableData(v),
        )
    }
}

impl MessageTypeMap {
    /// Keeps the messages, and sorts the groups and variable-length fields among
    /// `message_field_types` into the table of their kind.
    pub fn new(message_types: Table<MessageType>, message_field_types: Table<MessageField>) -> (r:
        Self)
        ensures
            r@ == MessageTypeMapView::collected(
                message_types@,
                message_field_types@,
                message_field_types@.len(),
            ),
    {
        let ghost messages = message_types@;
        let mut map = MessageTypeMap {
            message_types,
            group_types: Table::new(),
            variable_data_types: Table::new(),
        };
        let mut i: usize = 0;
        while i < message_field_types.len()
            invariant
                i <= message_field_types@.len(),
                map@ == MessageTypeMapView::collected(messages, message_field_types@, i as nat),
            decreases message_field_types@.len() - i,
        {
            let name = String::from_str(message_field_types.name_at(i));
            match message_field_types.value_at(i) {
                MessageField::Field(_) => (),
                MessageField::Group(group_type) => {
                    map.group_types.insert(name, group_type.duplicate());
                },
                MessageField::VariableData(variable_data_type) => {
                    map.variable_data_types.insert(name, variable_data_type.duplicate());
                },
            }
            i = i + 1;
        }
        map
    }

    /// The groups and the variable-length fields, in a fixed order.
    pub fn iter_values(&self) -> (r: Vec<MessageField>)
        ensures
            message_field_views(r@) == self@.values(),
    {
        let mut out: Vec<MessageField> = Vec::new();
        let ghost a = values_of(self@.group_types).map_values(
            |g: GroupTypeView| MessageFieldView::Group(g),
        );
        let ghost b = values_of(self@.variable_data_types).map_values(
            |v: VariableDataTypeView| MessageFieldView::VariableData(v),
        );
        let mut i: usize = 0;
        while i < self.group_types.len()
            invariant
                i <= self.group_types@.len(),
                out@.len() == i,
                forall|j: int| 0 <= j < i ==> (#[trigger] out@[j])@ == a[j],
                a == values_of(self@.group_types).map_values(
                    |g: GroupTypeView| MessageFieldView::Group(g),
                ),
            decreases self.group_types@.len() - i,
        {
            out.push(MessageField::Group(self.group_types.value_at(i).duplicate()));
            i = i + 1;
        }
        let mut i: usize = 0;
        while i < self.variable_data_types.len()
            invariant
                i <= self.variable_data_types@.len(),
                out@.len() == a.len() + i,
                forall|j: int| 0 <= j < a.len() ==> (#[trigger] out@[j])@ == a[j],
                forall|j: int| 0 <= j < i ==> (#[trigger] out@[a.len() + j])@ == b[j],
                b == values_of(self@.variable_data_types).map_values(
                    |v: VariableDataTypeView| MessageFieldView::VariableData(v),
                ),
            decreases self.variable_data_types@.len() - i,
        {
            out.push(
                MessageField::VariableData(self.variable_data_types.value_at(i).duplicate()),
            );
            i = i + 1;
        }
        proof {
            lemma_message_field_views(out@);
            let all = a + b;
            assert(message_field_views(out@).len() == all.len());
            assert forall|j: int| 0 <= j < all.len() implies message_field_views(out@)[j]
                == all[j] by {
                if j >= a.len() {
                    assert(out@[a.len() + (j - a.len())]@ == b[j - a.len()]);
                }
            }
            assert(message_field_views(out@) =~= self@.values());
        }
        out
    }
}

impl Duplicate for MessageTypeMap {
    fn duplicate(&self) -> (r: Self) {
        MessageTypeMap {
            message_types: self.message_types.duplicate(),
            group_types: self.group_types.duplicate(),
            variable_data_types: self.variable_data_types.duplicate(),
        }
    }
}

} // verus!
