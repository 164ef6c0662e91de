//! Which layouts are well formed, and which values are of the shape of a layout.

use crate::models::ByteOrder;
use crate::wire::error::SbeFault;
use crate::wire::message::apart;
use crate::wire::scalar::Primitive;
use crate::wire::tree::{BlockFieldView, EntryLayoutView, EntryView, GroupShapeView};
use crate::wire::var_data::VarDataLayoutView;
use vstd::prelude::*;
use vstd::string::*;

verus! {

/// A buffer of `n` zero bytes.
pub open spec fn zeros(n: nat) -> Seq<u8> {
    Seq::new(n, |i: int| 0u8)
}

impl BlockFieldView {
    /// The field is well formed and lies within a block of `block_length` bytes.
    pub open spec fn wf(self, block_length: nat) -> bool {
        &&& self.field.wf()
        &&& self.field.offset + self.field.primitive.width() <= block_length
    }

    /// Whether `v` is a value for the field: a number that the primitive can hold, or
    /// absence where the field is optional.  Strictly, the number of an optional field
    /// is not the null sentinel, which would be read as absence.
    pub open spec fn fits(self, v: Option<int>, strict: bool) -> bool {
        match v {
            Some(x) => self.field.primitive.holds(x) && (strict && self.optional
                ==> !self.field.is_null(x)),
            None => self.optional,
        }
    }

    /// What reading the field from a block yields.
    pub open spec fn read(self, block: Seq<u8>, order: ByteOrder) -> Result<Option<int>, SbeFault> {
        if self.optional {
            self.field.decoded_optional(block, order)
        } else {
            match self.field.decoded_required(block, order) {
                Ok(v) => Ok(Some(v)),
                Err(f) => Err(f),
            }
        }
    }
}

/// The fields are well formed, lie within a block of `block_length` bytes, and no two
/// of them share a byte.
pub open spec fn fields_wf(fields: Seq<BlockFieldView>, block_length: nat) -> bool {
    &&& forall|i: int| 0 <= i < fields.len() ==> (#[trigger] fields[i]).wf(block_length)
    &&& forall|i: int, j: int|
        0 <= i < j < fields.len() ==> apart((#[trigger] fields[i]).field, (#[trigger] fields[j]).field)
}

/// Every variable-length field has a prefix of one to eight bytes.
pub open spec fn var_data_wf(layouts: Seq<VarDataLayoutView>) -> bool {
    forall|i: int| 0 <= i < layouts.len() ==> (#[trigger] layouts[i]).wf()
}

/// The first `n` groups are well formed.
pub open spec fn groups_wf(gs: Seq<GroupShapeView>, n: nat) -> bool
    decreases gs, 0nat, n,
{
    if n == 0 || n > gs.len() {
        true
    } else {
        groups_wf(gs, (n - 1) as nat) && gs[n - 1].wf()
    }
}

impl GroupShapeView {
    /// The header is well formed and as large as the two numbers that it holds, and
    /// the entries are well formed for the block length that the header tells.
    pub open spec fn wf(self) -> bool
        decreases self, 0nat, 0nat,
    {
        &&& self.header.wf()
        &&& self.entry.wf(self.header.block_length as nat)
    }
}

impl EntryLayoutView {
    /// All parts are well formed for a fixed block of some length.  This is what
    /// reading asks for: the length of the block is then told by the bytes.
    pub open spec fn readable(self) -> bool {
        exists|block_length: nat| self.wf(block_length)
    }

    /// All parts are well formed for a fixed block of `block_length` bytes.
    pub open spec fn wf(self, block_length: nat) -> bool
        decreases self, 0nat, 0nat,
    {
        &&& fields_wf(self.fields, block_length)
        &&& groups_wf(self.groups, self.groups.len())
        &&& var_data_wf(self.var_data)
    }
}

/// Whether each of the values is a value for its field.
pub open spec fn values_fit(fields: Seq<BlockFieldView>, values: Seq<Option<int>>, strict: bool) -> bool {
    &&& fields.len() == values.len()
    &&& forall|i: int| 0 <= i < fields.len() ==> (#[trigger] fields[i]).fits(values[i], strict)
}

/// Whether each of the elements is a number that the primitive can hold.
pub open spec fn elements_fit(p: Primitive, elements: Seq<int>) -> bool {
    forall|i: int| 0 <= i < elements.len() ==> p.holds(#[trigger] elements[i])
}

/// Whether the elements of each variable-length field are numbers that its primitive
/// can hold.
pub open spec fn var_data_fit(layouts: Seq<VarDataLayoutView>, values: Seq<Seq<int>>) -> bool {
    &&& layouts.len() == values.len()
    &&& forall|i: int|
        0 <= i < layouts.len() ==> elements_fit((#[trigger] layouts[i]).element, values[i])
}

/// Whether `e` is a value of the shape `l`: it has a value for every field, a list of
/// entries for every group and a list of elements for every variable-length field, and
/// every number is one that its primitive can hold.
pub open spec fn entry_fits(l: EntryLayoutView, e: EntryView, strict: bool) -> bool
    decreases l, 0nat, 0nat,
{
    &&& values_fit(l.fields, e.values, strict)
    &&& l.groups.len() == e.groups.len()
    &&& groups_fit(l.groups, e.groups, strict, l.groups.len())
    &&& var_data_fit(l.var_data, e.var_data)
}

/// Whether the entries of each of the first `n` groups are of the shape of the group.
pub open spec fn groups_fit(
    gs: Seq<GroupShapeView>,
    lists: Seq<Seq<EntryView>>,
    strict: bool,
    n: nat,
) -> bool
    decreases gs, 0nat, n,
{
    if n == 0 || n > gs.len() || n > lists.len() {
        true
    } else {
        groups_fit(gs, lists, strict, (n - 1) as nat) && lists[n - 1].len() <= usize::MAX
            && entries_fit(gs[n - 1].entry, lists[n - 1], strict, lists[n - 1].len())
    }
}

/// Whether each of the first `n` entries is of the shape `l`.
pub open spec fn entries_fit(l: EntryLayoutView, es: Seq<EntryView>, strict: bool, n: nat) -> bool
    decreases l, 1nat, n,
{
    if n == 0 || n > es.len() {
        true
    } else {
        entries_fit(l, es, strict, (n - 1) as nat) && entry_fits(l, es[n - 1], strict)
    }
}

/// Each of the first groups of well-formed groups is well formed.
pub proof fn lemma_groups_wf_at(gs: Seq<GroupShapeView>, n: nat, i: int)
    requires
        n <= gs.len(),
        groups_wf(gs, n),
        0 <= i < n,
    ensures
        gs[i].wf(),
        groups_wf(gs, i as nat),
    decreases n,
{
    if i < n - 1 {
        lemma_groups_wf_at(gs, (n - 1) as nat, i);
    } else if n > 1 {
        lemma_groups_wf_at(gs, (n - 1) as nat, 0);
        lemma_groups_wf_prefix(gs, (n - 1) as nat);
    }
}

/// Fewer groups of well-formed groups are well formed.
pub proof fn lemma_groups_wf_prefix(gs: Seq<GroupShapeView>, n: nat)
    requires
        n <= gs.len(),
        groups_wf(gs, n),
    ensures
        forall|k: nat| k <= n ==> groups_wf(gs, k),
    decreases n,
{
    if n > 0 {
        lemma_groups_wf_prefix(gs, (n - 1) as nat);
    }
}

/// The entries of each of the first groups are of the shape of their group.
pub proof fn lemma_groups_fit_at(
    gs: Seq<GroupShapeView>,
    lists: Seq<Seq<EntryView>>,
    strict: bool,
    n: nat,
    i: int,
)
    requires
        n <= gs.len(),
        n <= lists.len(),
        groups_fit(gs, lists, strict, n),
        0 <= i < n,
    ensures
        lists[i].len() <= usize::MAX,
        entries_fit(gs[i].entry, lists[i], strict, lists[i].len()),
    decreases n,
{
    if i < n - 1 {
        lemma_groups_fit_at(gs, lists, strict, (n - 1) as nat, i);
    }
}

/// Each of the first entries is of the shape of its group.
pub proof fn lemma_entries_fit_at(l: EntryLayoutView, es: Seq<EntryView>, strict: bool, n: nat, i: int)
    requires
        n <= es.len(),
        entries_fit(l, es, strict, n),
        0 <= i < n,
    ensures
        entry_fits(l, es[i], strict),
    decreases n,
{
    if i < n - 1 {
        lemma_entries_fit_at(l, es, strict, (n - 1) as nat, i);
    }
}

} // verus!
