//! What the codec of a bit-set is made of: one unsigned primitive, and a getter and a
//! setter for each flag.

use crate::duplicate::views_of;
use crate::error::{Fault, SchemaError};
use crate::models::types::primitive_type::{resolved_kind, ResolvableType};
use crate::models::types::set_type::{Choice, ChoiceView, SetType, SetTypeView};
use crate::models::{TypeMap, TypeMapView};
use crate::naming::{camel_name, case_converted, snake_name, NameCase};
use crate::text::joined;
use vstd::prelude::*;
use vstd::string::*;

verus! {

/// One flag of a bit-set.
#[derive(Debug)]
pub struct ChoicePlan {
    /// The name of the flag in its getter and setter.
    pub name: String,
    /// The position of the bit that holds the flag.
    pub bit: u64,
}

/// The mathematical content of a [`ChoicePlan`].
pub struct ChoicePlanView {
    pub name: Seq<char>,
    pub bit: u64,
}

impl View for ChoicePlan {
    type V = ChoicePlanView;

    open spec fn view(&self) -> ChoicePlanView {
        ChoicePlanView {
            name: self.name@,
            bit: self.bit,
        }
    }
}

/// All that the codec of a bit-set is made of.
#[derive(Debug)]
pub struct SetCodecPlan {
    /// The name of the bit-set in emitted code.
    pub name: String,
    /// The name of the module that holds the codec.
    pub module_name: String,
    /// The name under which the scripting layer imports the codec.
    pub wrapped_name: String,
    /// The primitive that is wrapped.
    pub lang_type: String,
    /// The flags, in declared order.
    pub choices: Vec<ChoicePlan>,
}

/// The mathematical content of a [`SetCodecPlan`].
pub struct SetCodecPlanView {
    pub name: Seq<char>,
    pub module_name: Seq<char>,
    pub wrapped_name: Seq<char>,
    pub lang_type: Seq<char>,
    pub choices: Seq<ChoicePlanView>,
}

impl View for SetCodecPlan {
    type V = SetCodecPlanView;

    open spec fn view(&self) -> SetCodecPlanView {
        SetCodecPlanView {
            name: self.name@,
            module_name: self.module_name@,
            wrapped_name: self.wrapped_name@,
            lang_type: self.lang_type@,
            choices: views_of(self.choices@),
        }
    }
}

/// One flag as the codec holds it.
pub open spec fn choice_plan(c: ChoiceView) -> ChoicePlanView {
    ChoicePlanView { name: case_converted(c.name, NameCase::Snake), bit: c.value }
}

impl TypeMapView {
    /// All that the codec of a bit-set is made of.
    #[verifier::opaque]
    pub open spec fn set_plan(self, s: SetTypeView) -> Result<SetCodecPlanView, Fault> {
        match resolved_kind(self.encoded_types, s.encoding_type, self.encoded_types.len()) {
            Err(f) => Err(f),
            Ok(kind) => Ok(
                SetCodecPlanView {
                    name: case_converted(s.name, NameCase::UpperCamel),
                    module_name: case_converted(
                        case_converted(s.name, NameCase::UpperCamel),
                        NameCase::Snake,
                    ),
                    wrapped_name: "Rust"@ + case_converted(s.name, NameCase::UpperCamel),
                    lang_type: kind.rust_name(),
                    choices: s.choices.map_values(|c: ChoiceView| choice_plan(c)),
                },
            ),
        }
    }
}

/// The flags as the codec holds them.
pub fn generate_choices(choices: &Vec<Choice>) -> (r: Vec<ChoicePlan>)
    ensures
        views_of(r@) == views_of(choices@).map_values(|c: ChoiceView| choice_plan(c)),
{
    let mut out: Vec<ChoicePlan> = Vec::new();
    let mut i: usize = 0;
    while i < choices.len()
        invariant
            i <= choices.len(),
            out@.len() == i,
            forall|j: int| 0 <= j < i ==> (#[trigger] out@[j])@ == choice_plan(choices@[j]@),
        decreases choices.len() - i,
    {
        out.push(
            ChoicePlan { name: snake_name(choices[i].name.as_str()), bit: choices[i].value },
        );
        i = i + 1;
    }
    assert(views_of(out@) =~= views_of(choices@).map_values(|c: ChoiceView| choice_plan(c)));
    out
}

/// All that the codec of a bit-set is made of.
pub fn set_codec(types: &TypeMap, set_type: &SetType) -> (r: Result<SetCodecPlan, SchemaError>)
    ensures
        match r {
            Ok(p) => types@.set_plan(set_type@) == Ok::<SetCodecPlanView, Fault>(p@),
            Err(e) => types@.set_plan(set_type@) == Err::<SetCodecPlanView, Fault>(e@),
        },
{
    reveal(TypeMapView::set_plan);
    let name = camel_name(set_type.name.as_str());
    let kind = match set_type.encoding_type.resolved(&types.encoded_types) {
        Ok(k) => k,
        Err(e) => { return Err(e); },
    };
    Ok(
        SetCodecPlan {
            module_name: snake_name(name.as_str()),
            wrapped_name: joined("Rust", name.as_str()),
            name,
            lang_type: String::from_str(kind.rust_primitive().name),
            choices: generate_choices(&set_type.choices),
        },
    )
}

} // verus!
