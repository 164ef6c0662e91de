//! The scripting-runtime backend: data classes over the codecs of the systems backend.

pub mod codecs;
pub mod typing;

use crate::duplicate::{views_of, Duplicate};
use crate::error::{Fault, SchemaError};
use crate::generator::common::{gathered, lemma_gathered_fault};
use crate::generator::python::codecs::{
    composite_data_class, group_data_class, message_data_class, DataClassPlan, DataClassPlanView,
};
use crate::generator::python::typing::{
    typing_class, ExportedClass, ExportedClassView, TypingClassPlan, TypingClassPlanView,
};
use crate::models::message::MessageTypeView;
use crate::models::schema::{ValidatedMessageSchema, ValidatedMessageSchemaView};
use crate::models::table::{inserted, Table};
use crate::models::types::{
    lemma_message_field_views, lemma_type_views, MessageField, MessageFieldView, Type, TypeView,
};
use crate::naming::{camel_name, case_converted, NameCase};
use vstd::prelude::*;

verus! {

/// The classes after one more declared type: a bit-set, an enum or a composite is
/// exported under its name in camel case; an encoded type is not exported.
pub open spec fn with_exported_type(
    classes: Seq<(Seq<char>, ExportedClassView)>,
    t: TypeView,
) -> Seq<(Seq<char>, ExportedClassView)> {
    match t {
        TypeView::BitSet(s) => inserted(
            classes,
            case_converted(s.name, NameCase::UpperCamel),
            ExportedClassView::BitSet(s),
        ),
        TypeView::Enum(e) => inserted(
            classes,
            case_converted(e.name, NameCase::UpperCamel),
            ExportedClassView::Enum(e),
        ),
        TypeView::Composite(c) => inserted(
            classes,
            case_converted(c.name, NameCase::UpperCamel),
            ExportedClassView::Composite(c),
        ),
        _ => classes,
    }
}

/// The classes for the first `n` declared types.
pub open spec fn exported_types(types: Seq<TypeView>, n: nat) -> Seq<
    (Seq<char>, ExportedClassView),
>
    decreases n,
{
    if n == 0 || n > types.len() {
        Seq::empty()
    } else {
        with_exported_type(exported_types(types, (n - 1) as nat), types[n - 1])
    }
}

/// `base`, and the classes for the groups among the first `n` fields.
pub open spec fn exported_groups(
    base: Seq<(Seq<char>, ExportedClassView)>,
    fields: Seq<MessageFieldView>,
    n: nat,
) -> Seq<(Seq<char>, ExportedClassView)>
    decreases n,
{
    if n == 0 || n > fields.len() {
        base
    } else {
        match fields[n - 1] {
            MessageFieldView::Group(g) => inserted(
                exported_groups(base, fields, (n - 1) as nat),
                case_converted(g.name, NameCase::UpperCamel),
                ExportedClassView::Group(g),
            ),
            _ => exported_groups(base, fields, (n - 1) as nat),
        }
    }
}

/// `base`, and the classes for the first `n` messages.
pub open spec fn exported_messages(
    base: Seq<(Seq<char>, ExportedClassView)>,
    messages: Seq<(Seq<char>, MessageTypeView)>,
    n: nat,
) -> Seq<(Seq<char>, ExportedClassView)>
    decreases n,
{
    if n == 0 || n > messages.len() {
        base
    } else {
        inserted(
            exported_messages(base, messages, (n - 1) as nat),
            case_converted(messages[n - 1].1.name, NameCase::UpperCamel),
            ExportedClassView::Message(messages[n - 1].1),
        )
    }
}

impl ValidatedMessageSchemaView {
    /// The classes that the scripting layer exports: the bit-sets, enums and composites,
    /// then the groups, then the messages, each under its name in camel case.
    pub open spec fn exported_classes(self) -> Seq<(Seq<char>, ExportedClassView)> {
        exported_messages(
            exported_groups(
                exported_types(self.types.values(), self.types.values().len()),
                self.message_types.values(),
                self.message_types.values().len(),
            ),
            self.message_types.message_types,
            self.message_types.message_types.len(),
        )
    }

    /// What the typing stub says of each of `classes`, or why it says nothing.
    pub open spec fn typing_plans(self, classes: Seq<(Seq<char>, ExportedClassView)>) -> Seq<
        Result<TypingClassPlanView, Fault>,
    > {
        Seq::new(classes.len(), |i: int| self.types.typing_class(classes[i].0, classes[i].1))
    }

    /// The data class of each of the composites, or why it has none.
    pub open spec fn composite_class_plans(self) -> Seq<Result<DataClassPlanView, Fault>> {
        Seq::new(
            self.types.composite_types.len(),
            |i: int| self.types.composite_class(self.types.composite_types[i].1),
        )
    }

    /// The data class of each of the groups, or why it has none.
    pub open spec fn group_class_plans(self) -> Seq<Result<DataClassPlanView, Fault>> {
        Seq::new(
            self.message_types.group_types.len(),
            |i: int| self.types.block_class(self.message_types.group_types[i].1.name, self.message_types.group_types[i].1.fields, false),
        )
    }

    /// The data class of each of the messages, or why it has none.
    pub open spec fn message_class_plans(self) -> Seq<Result<DataClassPlanView, Fault>> {
        Seq::new(
            self.message_types.message_types.len(),
            |i: int| self.types.block_class(self.message_types.message_types[i].1.name, self.message_types.message_types[i].1.fields, true),
        )
    }
}

/// Works out the module that the scripting layer is emitted from.
pub struct PythonGenerator<'a> {
    pub schema: &'a ValidatedMessageSchema,
}

impl<'a> PythonGenerator<'a> {
    pub fn new(schema: &'a ValidatedMessageSchema) -> (r: Self)
        ensures
            r.schema == schema,
    {
        PythonGenerator { schema }
    }

    /// The classes that the scripting layer exports.
    pub fn exported_classes(&self) -> (r: Table<ExportedClass>)
        ensures
            r@ == self.schema@.exported_classes(),
    {
        let mut classes: Table<ExportedClass> = Table::new();
        let types = self.schema.types.iter_values();
        let ghost type_list = self.schema@.types.values();
        proof {
            lemma_type_views(types@);
        }
        let mut i: usize = 0;
        while i < types.len()
            invariant
                i <= types.len(),
                type_list.len() == types.len(),
                forall|j: int| 0 <= j < types.len() ==> (#[trigger] type_list[j]) == types@[j]@,
                classes@ == exported_types(type_list, i as nat),
            decreases types.len() - i,
        {
            match &types[i] {
                Type::BitSet(s) => {
                    classes.insert(camel_name(s.name.as_str()), ExportedClass::BitSet(s.duplicate()));
                },
                Type::Enum(e) => {
                    classes.insert(camel_name(e.name.as_str()), ExportedClass::Enum(e.duplicate()));
                },
                Type::Composite(c) => {
                    classes.insert(
                        camel_name(c.name.as_str()),
                        ExportedClass::Composite(c.duplicate()),
                    );
                },
                _ => {},
            }
            i = i + 1;
        }
        let fields = self.schema.message_types.iter_values();
        let ghost field_list = self.schema@.message_types.values();
        let ghost base = classes@;
        proof {
            lemma_message_field_views(fields@);
        }
        let mut i: usize = 0;
        while i < fields.len()
            invariant
                i <= fields.len(),
                field_list.len() == fields.len(),
                forall|j: int| 0 <= j < fields.len() ==> (#[trigger] field_list[j]) == fields@[j]@,
                classes@ == exported_groups(base, field_list, i as nat),
            decreases fields.len() - i,
        {
            if let MessageField::Group(g) = &fields[i] {
                classes.insert(camel_name(g.name.as_str()), ExportedClass::Group(g.duplicate()));
            }
            i = i + 1;
        }
        let messages = &self.schema.message_types.message_types;
        let ghost base = classes@;
        let mut i: usize = 0;
        while i < messages.len()
            invariant
                i <= messages@.len(),
                classes@ == exported_messages(base, messages@, i as nat),
            decreases messages@.len() - i,
        {
            let message = messages.value_at(i);
            classes.insert(
                camel_name(message.name.as_str()),
                ExportedClass::Message(message.duplicate()),
            );
            i = i + 1;
        }
        classes
    }

    /// What the typing stub says of every exported class.
    pub fn write_typing_hints(&self, exported_classes: &Table<ExportedClass>) -> (r: Result<
        Vec<TypingClassPlan>,
        SchemaError,
    >)
        ensures
            match r {
                Ok(p) => gathered(
                    self.schema@.typing_plans(exported_classes@),
                    exported_classes@.len(),
                ) == Ok::<Seq<TypingClassPlanView>, Fault>(views_of(p@)),
                Err(e) => gathered(
                    self.schema@.typing_plans(exported_classes@),
                    exported_classes@.len(),
                ) == Err::<Seq<TypingClassPlanView>, Fault>(e@),
            },
    {
        let types = &self.schema.types;
        let ghost plans = self.schema@.typing_plans(exported_classes@);
        let mut out: Vec<TypingClassPlan> = Vec::new();
        assert(views_of(out@) =~= Seq::<TypingClassPlanView>::empty());
        let mut i: usize = 0;
        while i < exported_classes.len()
            invariant
                i <= exported_classes@.len(),
                plans == self.schema@.typing_plans(exported_classes@),
                plans.len() == exported_classes@.len(),
                forall|j: int|
                    0 <= j < plans.len() ==> plans[j] == types@.typing_class(
                        exported_classes@[j].0,
                        exported_classes@[j].1,
                    ),
                gathered(plans, i as nat) == Ok::<Seq<TypingClassPlanView>, Fault>(views_of(out@)),
            decreases exported_classes@.len() - i,
        {
            let ghost before = views_of(out@);
            proof {
                let next = (i + 1) as nat;
                assert((next - 1) as nat == i as nat);
                assert(gathered(plans, next) == match plans[i as int] {
                    Err(f) => Err(f),
                    Ok(p) => Ok(before.push(p)),
                });
            }
            let class = match typing_class(
                exported_classes.name_at(i),
                exported_classes.value_at(i),
                types,
            ) {
                Ok(p) => p,
                Err(e) => {
                    proof {
                        lemma_gathered_fault(plans, i as nat + 1, plans.len());
                    }
                    return Err(e);
                },
            };
            out.push(class);
            assert(views_of(out@) =~= before.push(class@));
            i = i + 1;
        }
        Ok(out)
    }

    /// The data classes of the composites, in the order of the table.
    /// The first construct that has no data class decides the fault.
    pub fn composite_classes(&self) -> (r: Result<Vec<DataClassPlan>, SchemaError>)
        ensures
            match r {
                Ok(p) => gathered(self.schema@.composite_class_plans(), self.schema@.composite_class_plans().len()) == Ok::<
                    Seq<DataClassPlanView>,
                    Fault,
                >(views_of(p@)),
                Err(e) => gathered(self.schema@.composite_class_plans(), self.schema@.composite_class_plans().len()) == Err::<
                    Seq<DataClassPlanView>,
                    Fault,
                >(e@),
            },
    {
        let table = &self.schema.types.composite_types;
        let types = &self.schema.types;
        let ghost plans = self.schema@.composite_class_plans();
        let mut out: Vec<DataClassPlan> = Vec::new();
        assert(views_of(out@) =~= Seq::<DataClassPlanView>::empty());
        let mut i: usize = 0;
        while i < table.len()
            invariant
                i <= table@.len(),
                plans == self.schema@.composite_class_plans(),
                plans.len() == table@.len(),
                forall|j: int| 0 <= j < plans.len() ==> plans[j] == types@.composite_class(table@[j].1),
                gathered(plans, i as nat) == Ok::<Seq<DataClassPlanView>, Fault>(views_of(out@)),
            decreases table@.len() - i,
        {
            let ghost before = views_of(out@);
            proof {
                let next = (i + 1) as nat;
                assert((next - 1) as nat == i as nat);
                assert(gathered(plans, next) == match plans[i as int] {
                    Err(f) => Err(f),
                    Ok(p) => Ok(before.push(p)),
                });
            }
            let class = match composite_data_class(table.value_at(i), types) {
                Ok(p) => p,
                Err(e) => {
                    proof {
                        lemma_gathered_fault(plans, i as nat + 1, plans.len());
                    }
                    return Err(e);
                },
            };
            out.push(class);
            assert(views_of(out@) =~= before.push(class@));
            i = i + 1;
        }
        Ok(out)
    }

    /// The data classes of the groups, in the order of the table.
    /// The first construct that has no data class decides the fault.
    pub fn group_classes(&self) -> (r: Result<Vec<DataClassPlan>, SchemaError>)
        ensures
            match r {
                Ok(p) => gathered(self.schema@.group_class_plans(), self.schema@.group_class_plans().len()) == Ok::<
                    Seq<DataClassPlanView>,
                    Fault,
                >(views_of(p@)),
                Err(e) => gathered(self.schema@.group_class_plans(), self.schema@.group_class_plans().len()) == Err::<
                    Seq<DataClassPlanView>,
                    Fault,
                >(e@),
            },
    {
        let table = &self.schema.message_types.group_types;
        let types = &self.schema.types;
        let ghost plans = self.schema@.group_class_plans();
        let mut out: Vec<DataClassPlan> = Vec::new();
        assert(views_of(out@) =~= Seq::<DataClassPlanView>::empty());
        let mut i: usize = 0;
        while i < table.len()
            invariant
                i <= table@.len(),
                plans == self.schema@.group_class_plans(),
                plans.len() == table@.len(),
                forall|j: int| 0 <= j < plans.len() ==> plans[j] == types@.block_class(table@[j].1.name, table@[j].1.fields, false),
                gathered(plans, i as nat) == Ok::<Seq<DataClassPlanView>, Fault>(views_of(out@)),
            decreases table@.len() - i,
        {
            let ghost before = views_of(out@);
            proof {
                let next = (i + 1) as nat;
                assert((next - 1) as nat == i as nat);
                assert(gathered(plans, next) == match plans[i as int] {
                    Err(f) => Err(f),
                    Ok(p) => Ok(before.push(p)),
                });
            }
            let class = match group_data_class(table.value_at(i), types) {
                Ok(p) => p,
                Err(e) => {
                    proof {
                        lemma_gathered_fault(plans, i as nat + 1, plans.len());
                    }
                    return Err(e);
                },
            };
            out.push(class);
            assert(views_of(out@) =~= before.push(class@));
            i = i + 1;
        }
        Ok(out)
    }

    /// The data classes of the messages, in the order of the table.
    /// The first construct that has no data class decides the fault.
    pub fn message_classes(&self) -> (r: Result<Vec<DataClassPlan>, SchemaError>)
        ensures
            match r {
                Ok(p) => gathered(self.schema@.message_class_plans(), self.schema@.message_class_plans().len()) == Ok::<
                    Seq<DataClassPlanView>,
                    Fault,
                >(views_of(p@)),
                Err(e) => gathered(self.schema@.message_class_plans(), self.schema@.message_class_plans().len()) == Err::<
                    Seq<DataClassPlanView>,
                    Fault,
                >(e@),
            },
    {
        let table = &self.schema.message_types.message_types;
        let types = &self.schema.types;
        let ghost plans = self.schema@.message_class_plans();
        let mut out: Vec<DataClassPlan> = Vec::new();
        assert(views_of(out@) =~= Seq::<DataClassPlanView>::empty());
        let mut i: usize = 0;
        while i < table.len()
            invariant
                i <= table@.len(),
                plans == self.schema@.message_class_plans(),
                plans.len() == table@.len(),
                forall|j: int| 0 <= j < plans.len() ==> plans[j] == types@.block_class(table@[j].1.name, table@[j].1.fields, true),
                gathered(plans, i as nat) == Ok::<Seq<DataClassPlanView>, Fault>(views_of(out@)),
            decreases table@.len() - i,
        {
            let ghost before = views_of(out@);
            proof {
                let next = (i + 1) as nat;
                assert((next - 1) as nat == i as nat);
                assert(gathered(plans, next) == match plans[i as int] {
                    Err(f) => Err(f),
                    Ok(p) => Ok(before.push(p)),
                });
            }
            let class = match message_data_class(table.value_at(i), types) {
                Ok(p) => p,
                Err(e) => {
                    proof {
                        lemma_gathered_fault(plans, i as nat + 1, plans.len());
                    }
                    return Err(e);
                },
            };
            out.push(class);
            assert(views_of(out@) =~= before.push(class@));
            i = i + 1;
        }
        Ok(out)
    }
}

} // verus!
