//! The plan of one emitted module: the codecs of every construct of a schema.

use crate::duplicate::views_of;
use crate::error::{Fault, SchemaError};
use crate::generator::common::{gathered, lemma_gathered_fault};
use crate::generator::rust::codecs::composite_type::{
    composite_codec, CompositeCodecPlan, CompositeCodecPlanView,
};
use crate::generator::rust::codecs::enum_type::{enum_codec, EnumCodecPlan, EnumCodecPlanView};
use crate::generator::rust::codecs::group_type::{group_codec, GroupCodecPlan, GroupCodecPlanView};
use crate::generator::rust::codecs::message_type::{
    message_codec, MessageCodecPlan, MessageCodecPlanView,
};
use crate::generator::rust::codecs::set_type::{set_codec, SetCodecPlan, SetCodecPlanView};
use crate::generator::rust::codecs::var_data_type::{
    var_data_codec, VarDataCodecPlan, VarDataCodecPlanView,
};
use crate::models::schema::{ValidatedMessageSchema, ValidatedMessageSchemaView};
use vstd::prelude::*;

verus! {

impl ValidatedMessageSchemaView {
    /// The plan of each of the enums, or why it has none.
    pub open spec fn enum_plans(self) -> Seq<Result<EnumCodecPlanView, Fault>> {
        Seq::new(
            self.types.enum_types.len(),
            |i: int| self.types.enum_plan(self.types.enum_types[i].1),
        )
    }

    /// The plan of each of the bit-sets, or why it has none.
    pub open spec fn set_plans(self) -> Seq<Result<SetCodecPlanView, Fault>> {
        Seq::new(
            self.types.set_types.len(),
            |i: int| self.types.set_plan(self.types.set_types[i].1),
        )
    }

    /// The plan of each of the composites, or why it has none.
    pub open spec fn composite_plans(self) -> Seq<Result<CompositeCodecPlanView, Fault>> {
        Seq::new(
            self.types.composite_types.len(),
            |i: int| self.types.composite_plan(self.types.composite_types[i].1),
        )
    }

    /// The plan of each of the groups, or why it has none.
    pub open spec fn group_plans(self) -> Seq<Result<GroupCodecPlanView, Fault>> {
        Seq::new(
            self.message_types.group_types.len(),
            |i: int| self.types.group_plan(self.message_types.group_types[i].1),
        )
    }

    /// The plan of each of the variable-length fields, or why it has none.
    pub open spec fn var_data_plans(self) -> Seq<Result<VarDataCodecPlanView, Fault>> {
        Seq::new(
            self.message_types.variable_data_types.len(),
            |i: int| self.types.var_data_plan(self.message_types.variable_data_types[i].1),
        )
    }

    /// The plan of each of the messages, or why it has none.
    pub open spec fn message_plans(self) -> Seq<Result<MessageCodecPlanView, Fault>> {
        Seq::new(
            self.message_types.message_types.len(),
            |i: int| self.types.message_plan(self.message_types.message_types[i].1),
        )
    }
}

/// Works out the module that is emitted for one schema.
pub struct ModuleGenerator<'a> {
    pub schema: &'a ValidatedMessageSchema,
}

impl<'a> ModuleGenerator<'a> {
    pub fn new(schema: &'a ValidatedMessageSchema) -> (r: Self)
        ensures
            r.schema == schema,
    {
        ModuleGenerator { schema }
    }

    /// The codecs of all enums, in the order of the table.
    /// The first construct that has no plan decides the fault.
    pub fn enum_codecs(&self) -> (r: Result<Vec<EnumCodecPlan>, SchemaError>)
        ensures
            match r {
                Ok(p) => gathered(self.schema@.enum_plans(), self.schema@.enum_plans().len()) == Ok::<
                    Seq<EnumCodecPlanView>,
                    Fault,
                >(views_of(p@)),
                Err(e) => gathered(self.schema@.enum_plans(), self.schema@.enum_plans().len()) == Err::<
                    Seq<EnumCodecPlanView>,
                    Fault,
                >(e@),
            },
    {
        let table = &self.schema.types.enum_types;
        let types = &self.schema.types;
        let ghost plans = self.schema@.enum_plans();
        let mut out: Vec<EnumCodecPlan> = Vec::new();
        assert(views_of(out@) =~= Seq::<EnumCodecPlanView>::empty());
        let mut i: usize = 0;
        while i < table.len()
            invariant
                i <= table@.len(),
                plans == self.schema@.enum_plans(),
                plans.len() == table@.len(),
                forall|j: int| 0 <= j < plans.len() ==> plans[j] == types@.enum_plan(table@[j].1),
                gathered(plans, i as nat) == Ok::<Seq<EnumCodecPlanView>, Fault>(views_of(out@)),
            decreases table@.len() - i,
        {
            let ghost before = views_of(out@);
            proof {
                let next = (i + 1) as nat;
                assert((next - 1) as nat == i as nat);
                assert(gathered(plans, next) == match plans[i as int] {
                    Err(f) => Err(f),
                    Ok(p) => Ok(before.push(p)),
                });
            }
            let enum_type = match enum_codec(types, table.value_at(i)) {
                Ok(p) => p,
                Err(e) => {
                    proof {
                        lemma_gathered_fault(plans, i as nat + 1, plans.len());
                    }
                    return Err(e);
                },
            };
            out.push(enum_type);
            assert(views_of(out@) =~= before.push(enum_type@));
            i = i + 1;
        }
        Ok(out)
    }

    /// The codecs of all bit-sets, in the order of the table.
    /// The first construct that has no plan decides the fault.
    pub fn set_codecs(&self) -> (r: Result<Vec<SetCodecPlan>, SchemaError>)
        ensures
            match r {
                Ok(p) => gathered(self.schema@.set_plans(), self.schema@.set_plans().len()) == Ok::<
                    Seq<SetCodecPlanView>,
                    Fault,
                >(views_of(p@)),
                Err(e) => gathered(self.schema@.set_plans(), self.schema@.set_plans().len()) == Err::<
                    Seq<SetCodecPlanView>,
                    Fault,
                >(e@),
            },
    {
        let table = &self.schema.types.set_types;
        let types = &self.schema.types;
        let ghost plans = self.schema@.set_plans();
        let mut out: Vec<SetCodecPlan> = Vec::new();
        assert(views_of(out@) =~= Seq::<SetCodecPlanView>::empty());
        let mut i: usize = 0;
        while i < table.len()
            invariant
                i <= table@.len(),
                plans == self.schema@.set_plans(),
                plans.len() == table@.len(),
                forall|j: int| 0 <= j < plans.len() ==> plans[j] == types@.set_plan(table@[j].1),
                gathered(plans, i as nat) == Ok::<Seq<SetCodecPlanView>, Fault>(views_of(out@)),
            decreases table@.len() - i,
        {
            let ghost before = views_of(out@);
            proof {
                let next = (i + 1) as nat;
                assert((next - 1) as nat == i as nat);
                assert(gathered(plans, next) == match plans[i as int] {
                    Err(f) => Err(f),
                    Ok(p) => Ok(before.push(p)),
                });
            }
            let set_type = match set_codec(types, table.value_at(i)) {
                Ok(p) => p,
                Err(e) => {
                    proof {
                        lemma_gathered_fault(plans, i as nat + 1, plans.len());
                    }
                    return Err(e);
                },
            };
            out.push(set_type);
            assert(views_of(out@) =~= before.push(set_type@));
            i = i + 1;
        }
        Ok(out)
    }

    /// The codecs of all composites, in the order of the table.
    /// The first construct that has no plan decides the fault.
    pub fn composite_codecs(&self) -> (r: Result<Vec<CompositeCodecPlan>, SchemaError>)
        ensures
            match r {
                Ok(p) => gathered(self.schema@.composite_plans(), self.schema@.composite_plans().len()) == Ok::<
                    Seq<CompositeCodecPlanView>,
                    Fault,
                >(views_of(p@)),
                Err(e) => gathered(self.schema@.composite_plans(), self.schema@.composite_plans().len()) == Err::<
                    Seq<CompositeCodecPlanView>,
                    Fault,
                >(e@),
            },
    {
        let table = &self.schema.types.composite_types;
        let types = &self.schema.types;
        let ghost plans = self.schema@.composite_plans();
        let mut out: Vec<CompositeCodecPlan> = Vec::new();
        assert(views_of(out@) =~= Seq::<CompositeCodecPlanView>::empty());
        let mut i: usize = 0;
        while i < table.len()
            invariant
                i <= table@.len(),
                plans == self.schema@.composite_plans(),
                plans.len() == table@.len(),
                forall|j: int| 0 <= j < plans.len() ==> plans[j] == types@.composite_plan(table@[j].1),
                gathered(plans, i as nat) == Ok::<Seq<CompositeCodecPlanView>, Fault>(views_of(out@)),
            decreases table@.len() - i,
        {
            let ghost before = views_of(out@);
            proof {
                let next = (i + 1) as nat;
                assert((next - 1) as nat == i as nat);
                assert(gathered(plans, next) == match plans[i as int] {
                    Err(f) => Err(f),
                    Ok(p) => Ok(before.push(p)),
                });
            }
            let composite_type = match composite_codec(types, table.value_at(i)) {
                Ok(p) => p,
                Err(e) => {
                    proof {
                        lemma_gathered_fault(plans, i as nat + 1, plans.len());
                    }
                    return Err(e);
                },
            };
            out.push(composite_type);
            assert(views_of(out@) =~= before.push(composite_type@));
            i = i + 1;
        }
        Ok(out)
    }

    /// The codecs of all groups, in the order of the table.
    /// The first construct that has no plan decides the fault.
    pub fn group_codecs(&self) -> (r: Result<Vec<GroupCodecPlan>, SchemaError>)
        ensures
            match r {
                Ok(p) => gathered(self.schema@.group_plans(), self.schema@.group_plans().len()) == Ok::<
                    Seq<GroupCodecPlanView>,
                    Fault,
                >(views_of(p@)),
                Err(e) => gathered(self.schema@.group_plans(), self.schema@.group_plans().len()) == Err::<
                    Seq<GroupCodecPlanView>,
                    Fault,
                >(e@),
            },
    {
        let table = &self.schema.message_types.group_types;
        let types = &self.schema.types;
        let ghost plans = self.schema@.group_plans();
        let mut out: Vec<GroupCodecPlan> = Vec::new();
        assert(views_of(out@) =~= Seq::<GroupCodecPlanView>::empty());
        let mut i: usize = 0;
        while i < table.len()
            invariant
                i <= table@.len(),
                plans == self.schema@.group_plans(),
                plans.len() == table@.len(),
                forall|j: int| 0 <= j < plans.len() ==> plans[j] == types@.group_plan(table@[j].1),
                gathered(plans, i as nat) == Ok::<Seq<GroupCodecPlanView>, Fault>(views_of(out@)),
            decreases table@.len() - i,
        {
            let ghost before = views_of(out@);
            proof {
                let next = (i + 1) as nat;
                assert((next - 1) as nat == i as nat);
                assert(gathered(plans, next) == match plans[i as int] {
                    Err(f) => Err(f),
                    Ok(p) => Ok(before.push(p)),
                });
            }
            let group_type = match group_codec(types, table.value_at(i)) {
                Ok(p) => p,
                Err(e) => {
                    proof {
                        lemma_gathered_fault(plans, i as nat + 1, plans.len());
                    }
                    return Err(e);
                },
            };
            out.push(group_type);
            assert(views_of(out@) =~= before.push(group_type@));
            i = i + 1;
        }
        Ok(out)
    }

    /// The codecs of all variable-length fields, in the order of the table.
    /// The first construct that has no plan decides the fault.
    pub fn var_data_codecs(&self) -> (r: Result<Vec<VarDataCodecPlan>, SchemaError>)
        ensures
            match r {
                Ok(p) => gathered(self.schema@.var_data_plans(), self.schema@.var_data_plans().len()) == Ok::<
                    Seq<VarDataCodecPlanView>,
                    Fault,
                >(views_of(p@)),
                Err(e) => gathered(self.schema@.var_data_plans(), self.schema@.var_data_plans().len()) == Err::<
                    Seq<VarDataCodecPlanView>,
                    Fault,
                >(e@),
            },
    {
        let table = &self.schema.message_types.variable_data_types;
        let types = &self.schema.types;
        let ghost plans = self.schema@.var_data_plans();
        let mut out: Vec<VarDataCodecPlan> = Vec::new();
        assert(views_of(out@) =~= Seq::<VarDataCodecPlanView>::empty());
        let mut i: usize = 0;
        while i < table.len()
            invariant
                i <= table@.len(),
                plans == self.schema@.var_data_plans(),
                plans.len() == table@.len(),
                forall|j: int| 0 <= j < plans.len() ==> plans[j] == types@.var_data_plan(table@[j].1),
                gathered(plans, i as nat) == Ok::<Seq<VarDataCodecPlanView>, Fault>(views_of(out@)),
            decreases table@.len() - i,
        {
            let ghost before = views_of(out@);
            proof {
                let next = (i + 1) as nat;
                assert((next - 1) as nat == i as nat);
                assert(gathered(plans, next) == match plans[i as int] {
                    Err(f) => Err(f),
                    Ok(p) => Ok(before.push(p)),
                });
            }
            let var_data_type = match var_data_codec(types, table.value_at(i)) {
                Ok(p) => p,
                Err(e) => {
                    proof {
                        lemma_gathered_fault(plans, i as nat + 1, plans.len());
                    }
                    return Err(e);
                },
            };
            out.push(var_data_type);
            assert(views_of(out@) =~= before.push(var_data_type@));
            i = i + 1;
        }
        Ok(out)
    }

    /// The codecs of all messages, in the order of the table.
    /// The first construct that has no plan decides the fault.
    pub fn message_codecs(&self) -> (r: Result<Vec<MessageCodecPlan>, SchemaError>)
        ensures
            match r {
                Ok(p) => gathered(self.schema@.message_plans(), self.schema@.message_plans().len()) == Ok::<
                    Seq<MessageCodecPlanView>,
                    Fault,
                >(views_of(p@)),
                Err(e) => gathered(self.schema@.message_plans(), self.schema@.message_plans().len()) == Err::<
                    Seq<MessageCodecPlanView>,
                    Fault,
                >(e@),
            },
    {
        let table = &self.schema.message_types.message_types;
        let types = &self.schema.types;
        let ghost plans = self.schema@.message_plans();
        let mut out: Vec<MessageCodecPlan> = Vec::new();
        assert(views_of(out@) =~= Seq::<MessageCodecPlanView>::empty());
        let mut i: usize = 0;
        while i < table.len()
            invariant
                i <= table@.len(),
                plans == self.schema@.message_plans(),
                plans.len() == table@.len(),
                forall|j: int| 0 <= j < plans.len() ==> plans[j] == types@.message_plan(table@[j].1),
                gathered(plans, i as nat) == Ok::<Seq<MessageCodecPlanView>, Fault>(views_of(out@)),
            decreases table@.len() - i,
        {
            let ghost before = views_of(out@);
            proof {
                let next = (i + 1) as nat;
                assert((next - 1) as nat == i as nat);
                assert(gathered(plans, next) == match plans[i as int] {
                    Err(f) => Err(f),
                    Ok(p) => Ok(before.push(p)),
                });
            }
            let message_type = match message_codec(types, table.value_at(i)) {
                Ok(p) => p,
                Err(e) => {
                    proof {
                        lemma_gathered_fault(plans, i as nat + 1, plans.len());
                    }
                    return Err(e);
                },
            };
            out.push(message_type);
            assert(views_of(out@) =~= before.push(message_type@));
            i = i + 1;
        }
        Ok(out)
    }
}

} // verus!
