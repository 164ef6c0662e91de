//! What the codec of an enum is made of: a closed set of named values over one primitive,
//! and `NullVal` for the null of that primitive.

use crate::duplicate::views_of;
use crate::error::{Fault, SchemaError};
use crate::models::types::enum_type::{EnumType, EnumTypeView, ValidValue, ValidValueView};
use crate::models::types::primitive_type::{resolved_kind, NativeType, ResolvableType};
use crate::models::{TypeMap, TypeMapView};
use crate::naming::{camel_name, case_converted, member_name, snake_name, NameCase};
use crate::text::joined;
use vstd::prelude::*;
use vstd::string::*;

verus! {

/// One value of an enum.
#[derive(Debug)]
pub struct EnumValuePlan {
    /// The name of the value in the codec.
    pub variant: String,
    /// The name of the value in the scripting layer.
    pub member: String,
    /// The number that stands for the value on the wire.
    pub value: u64,
}

/// The mathematical content of a [`EnumValuePlan`].
pub struct EnumValuePlanView {
    pub variant: Seq<char>,
    pub member: Seq<char>,
    pub value: u64,
}

impl View for EnumValuePlan {
    type V = EnumValuePlanView;

    open spec fn view(&self) -> EnumValuePlanView {
        EnumValuePlanView {
            variant: self.variant@,
            member: self.member@,
            value: self.value,
        }
    }
}

/// All that the codec of an enum is made of.
#[derive(Debug)]
pub struct EnumCodecPlan {
    /// The name of the enum in emitted code.
    pub name: String,
    /// The name of the module that holds the codec.
    pub module_name: String,
    /// The name under which the scripting layer imports the codec.
    pub wrapped_name: String,
    /// The primitive that carries a value.
    pub lang_type: String,
    /// Whether the values are characters.
    pub char_encoding: bool,
    /// The literal that stands for `NullVal`.
    pub null_value: String,
    /// The values, in declared order.
    pub values: Vec<EnumValuePlan>,
}

/// The mathematical content of a [`EnumCodecPlan`].
pub struct EnumCodecPlanView {
    pub name: Seq<char>,
    pub module_name: Seq<char>,
    pub wrapped_name: Seq<char>,
    pub lang_type: Seq<char>,
    pub char_encoding: bool,
    pub null_value: Seq<char>,
    pub values: Seq<EnumValuePlanView>,
}

impl View for EnumCodecPlan {
    type V = EnumCodecPlanView;

    open spec fn view(&self) -> EnumCodecPlanView {
        EnumCodecPlanView {
            name: self.name@,
            module_name: self.module_name@,
            wrapped_name: self.wrapped_name@,
            lang_type: self.lang_type@,
            char_encoding: self.char_encoding,
            null_value: self.null_value@,
            values: views_of(self.values@),
        }
    }
}

/// One value of an enum as the codec holds it.
pub open spec fn enum_value_plan(v: ValidValueView, char_encoding: bool) -> Result<
    EnumValuePlanView,
    Fault,
> {
    match v.encoded_value(char_encoding) {
        Err(f) => Err(f),
        Ok(value) => Ok(
            EnumValuePlanView {
                variant: case_converted(v.name, NameCase::UpperCamel),
                member: case_converted(v.name, NameCase::UpperSnake),
                value,
            },
        ),
    }
}

/// The first `n` values of an enum as the codec holds them.
pub open spec fn enum_value_plans(values: Seq<ValidValueView>, char_encoding: bool, n: nat) -> Result<
    Seq<EnumValuePlanView>,
    Fault,
>
    decreases n,
{
    if n == 0 || n > values.len() {
        Ok(Seq::empty())
    } else {
        match enum_value_plans(values, char_encoding, (n - 1) as nat) {
            Err(f) => Err(f),
            Ok(before) => match enum_value_plan(values[n - 1], char_encoding) {
                Err(f) => Err(f),
                Ok(v) => Ok(before.push(v)),
            },
        }
    }
}

/// A fault among the first values is the fault of all.
pub proof fn lemma_enum_value_plans_fault(
    values: Seq<ValidValueView>,
    char_encoding: bool,
    k: nat,
    n: nat,
)
    requires
        k <= n <= values.len(),
        enum_value_plans(values, char_encoding, k) is Err,
    ensures
        enum_value_plans(values, char_encoding, n) == enum_value_plans(values, char_encoding, k),
    decreases n - k,
{
    if k < n {
        lemma_enum_value_plans_fault(values, char_encoding, k, (n - 1) as nat);
    }
}

impl TypeMapView {
    /// All that the codec of an enum is made of.  The values are characters exactly if
    /// the encoding resolves to `char`.
    #[verifier::opaque]
    pub open spec fn enum_plan(self, e: EnumTypeView) -> Result<EnumCodecPlanView, Fault> {
        match resolved_kind(self.encoded_types, e.encoding_type, self.encoded_types.len()) {
            Err(f) => Err(f),
            Ok(kind) => match kind.null_literal() {
                Err(f) => Err(f),
                Ok(null_value) => match enum_value_plans(e.values, kind is Char, e.values.len()) {
                    Err(f) => Err(f),
                    Ok(values) => Ok(
                        EnumCodecPlanView {
                            name: case_converted(e.name, NameCase::UpperCamel),
                            module_name: case_converted(
                                case_converted(e.name, NameCase::UpperCamel),
                                NameCase::Snake,
                            ),
                            wrapped_name: "Rust"@ + case_converted(e.name, NameCase::UpperCamel),
                            lang_type: kind.rust_name(),
                            char_encoding: kind is Char,
                            null_value,
                            values,
                        },
                    ),
                },
            },
        }
    }
}

/// The values of an enum as the codec holds them.
pub fn enum_values(values: &Vec<ValidValue>, char_encoding: bool) -> (r: Result<
    Vec<EnumValuePlan>,
    SchemaError,
>)
    ensures
        match r {
            Ok(p) => enum_value_plans(views_of(values@), char_encoding, values@.len()) == Ok::<
                Seq<EnumValuePlanView>,
                Fault,
            >(views_of(p@)),
            Err(e) => enum_value_plans(views_of(values@), char_encoding, values@.len()) == Err::<
                Seq<EnumValuePlanView>,
                Fault,
            >(e@),
        },
{
    let ghost views = views_of(values@);
    let mut out: Vec<EnumValuePlan> = Vec::new();
    assert(views_of(out@) =~= Seq::<EnumValuePlanView>::empty());
    let mut i: usize = 0;
    while i < values.len()
        invariant
            i <= values.len(),
            views == views_of(values@),
            enum_value_plans(views, char_encoding, i as nat) == Ok::<Seq<EnumValuePlanView>, Fault>(
                views_of(out@),
            ),
        decreases values.len() - i,
    {
        let ghost before = views_of(out@);
        assert(views[i as int] == values@[i as int]@);
        let value = match values[i].encoded_value(char_encoding) {
            Ok(v) => v,
            Err(e) => {
                proof {
                    lemma_enum_value_plans_fault(views, char_encoding, i as nat + 1, values@.len());
                }
                return Err(e);
            },
        };
        let plan = EnumValuePlan {
            variant: camel_name(values[i].name.as_str()),
            member: member_name(values[i].name.as_str()),
            value,
        };
        out.push(plan);
        assert(views_of(out@) =~= before.push(plan@));
        i = i + 1;
    }
    Ok(out)
}

/// All that the codec of an enum is made of.
pub fn enum_codec(types: &TypeMap, enum_type: &EnumType) -> (r: Result<EnumCodecPlan, SchemaError>)
    ensures
        match r {
            Ok(p) => types@.enum_plan(enum_type@) == Ok::<EnumCodecPlanView, Fault>(p@),
            Err(e) => types@.enum_plan(enum_type@) == Err::<EnumCodecPlanView, Fault>(e@),
        },
{
    reveal(TypeMapView::enum_plan);
    let name = camel_name(enum_type.name.as_str());
    let encoding_type = match enum_type.encoding_type.resolved(&types.encoded_types) {
        Ok(k) => k,
        Err(e) => { return Err(e); },
    };
    let char_encoding = match encoding_type {
        NativeType::Char => true,
        _ => false,
    };
    let null_value = match encoding_type.null() {
        Ok(n) => n,
        Err(e) => { return Err(e); },
    };
    let values = match enum_values(&enum_type.values, char_encoding) {
        Ok(v) => v,
        Err(e) => { return Err(e); },
    };
    Ok(
        EnumCodecPlan {
            module_name: snake_name(name.as_str()),
            wrapped_name: joined("Rust", name.as_str()),
            name,
            lang_type: String::from_str(encoding_type.rust_primitive().name),
            char_encoding,
            null_value,
            values,
        },
    )
}

} // verus!
