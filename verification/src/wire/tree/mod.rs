//! Whole messages.  A message value is a tree: the values of the fixed block, then for
//! every group its entries, each a tree of its own, then the elements of every
//! variable-length field.  The modules below say which bytes stand for such a tree and
//! which tree bytes stand for, and prove that the one undoes the other.

pub mod bytes;
pub mod check;
pub mod decode;
pub mod encode;
pub mod laws;
pub mod runs;
pub mod shape;

use crate::wire::block::value_views;
use crate::wire::group::{GroupLayout, GroupLayoutView};
use crate::wire::message::{HeaderLayout, HeaderLayoutView};
use crate::wire::scalar::{bound_view, ScalarField, ScalarFieldView};
use crate::wire::var_data::{VarDataLayout, VarDataLayoutView};
use vstd::prelude::*;
use vstd::string::*;

verus! {

/// A field of a fixed block: a single value.  Its offset counts from the start of the
/// block.  An array or a character sequence is a run of such fields, one for each
/// element; an enum or a bit-set is the number that stands for it.
#[derive(Debug, PartialEq, Eq)]
pub struct BlockField {
    pub field: ScalarField,
    /// Whether the field may be absent.
    pub optional: bool,
}

/// The mathematical content of a [`BlockField`].
pub struct BlockFieldView {
    pub field: ScalarFieldView,
    pub optional: bool,
}

impl View for BlockField {
    type V = BlockFieldView;

    open spec fn view(&self) -> BlockFieldView {
        BlockFieldView { field: self.field@, optional: self.optional }
    }
}

/// What an entry of a group, or the body of a message, is made of: the fields of its
/// fixed block, then its groups, then its variable-length fields.
#[derive(Debug, PartialEq, Eq)]
pub struct EntryLayout {
    pub fields: Vec<BlockField>,
    pub groups: Vec<GroupShape>,
    pub var_data: Vec<VarDataLayout>,
}

/// A group: its header, and what every entry is made of.  The header tells the length
/// of the fixed block of an entry.
#[derive(Debug, PartialEq, Eq)]
pub struct GroupShape {
    pub header: GroupLayout,
    pub entry: EntryLayout,
}

/// The mathematical content of an [`EntryLayout`].
pub struct EntryLayoutView {
    pub fields: Seq<BlockFieldView>,
    pub groups: Seq<GroupShapeView>,
    pub var_data: Seq<VarDataLayoutView>,
}

/// The mathematical content of a [`GroupShape`].
pub struct GroupShapeView {
    pub header: GroupLayoutView,
    pub entry: EntryLayoutView,
}

/// The contents of fields, in order.
pub open spec fn block_field_views(fields: Seq<BlockField>) -> Seq<BlockFieldView> {
    fields.map_values(|f: BlockField| f@)
}

/// The contents of the layouts of variable-length fields, in order.
pub open spec fn var_layout_views(layouts: Seq<VarDataLayout>) -> Seq<VarDataLayoutView> {
    layouts.map_values(|v: VarDataLayout| v@)
}

/// The content of the layout of an entry.
pub open spec fn entry_layout_view(l: EntryLayout) -> EntryLayoutView
    decreases l,
{
    EntryLayoutView {
        fields: block_field_views(l.fields@),
        groups: group_shape_views(l.groups@),
        var_data: var_layout_views(l.var_data@),
    }
}

/// The content of a group.
pub open spec fn group_shape_view(g: GroupShape) -> GroupShapeView
    decreases g,
{
    GroupShapeView { header: g.header@, entry: entry_layout_view(g.entry) }
}

/// The contents of groups, in order.
pub open spec fn group_shape_views(gs: Seq<GroupShape>) -> Seq<GroupShapeView>
    decreases gs,
{
    if gs.len() == 0 {
        Seq::empty()
    } else {
        group_shape_views(gs.drop_last()).push(group_shape_view(gs.last()))
    }
}

impl View for EntryLayout {
    type V = EntryLayoutView;

    open spec fn view(&self) -> EntryLayoutView {
        entry_layout_view(*self)
    }
}

impl View for GroupShape {
    type V = GroupShapeView;

    open spec fn view(&self) -> GroupShapeView {
        group_shape_view(*self)
    }
}

/// `group_shape_views` goes item by item.
pub proof fn lemma_group_shape_views(gs: Seq<GroupShape>)
    ensures
        group_shape_views(gs).len() == gs.len(),
        forall|i: int| 0 <= i < gs.len() ==> (#[trigger] group_shape_views(gs)[i]) == gs[i]@,
    decreases gs.len(),
{
    if gs.len() > 0 {
        lemma_group_shape_views(gs.drop_last());
    }
}

/// A message value, or the value of one entry of a group.
#[derive(Debug, PartialEq, Eq)]
pub struct Entry {
    /// The values of the fields of the fixed block; none for an absent one.
    pub values: Vec<Option<i128>>,
    /// The entries of every group.
    pub groups: Vec<Vec<Entry>>,
    /// The elements of every variable-length field.
    pub var_data: Vec<Vec<i128>>,
}

/// The mathematical content of an [`Entry`].
pub struct EntryView {
    pub values: Seq<Option<int>>,
    pub groups: Seq<Seq<EntryView>>,
    pub var_data: Seq<Seq<int>>,
}

/// Values that may be absent, as mathematical integers.
pub open spec fn optional_views(values: Seq<Option<i128>>) -> Seq<Option<int>> {
    values.map_values(|v: Option<i128>| bound_view(v))
}

/// Lists of elements, as mathematical integers.
pub open spec fn element_lists_view(lists: Seq<Vec<i128>>) -> Seq<Seq<int>> {
    lists.map_values(|v: Vec<i128>| value_views(v@))
}

/// The content of an entry.
pub open spec fn entry_view(e: Entry) -> EntryView
    decreases e,
{
    EntryView {
        values: optional_views(e.values@),
        groups: entry_lists_view(e.groups@),
        var_data: element_lists_view(e.var_data@),
    }
}

/// The contents of entries, in order.
pub open spec fn entries_view(es: Seq<Entry>) -> Seq<EntryView>
    decreases es,
{
    if es.len() == 0 {
        Seq::empty()
    } else {
        entries_view(es.drop_last()).push(entry_view(es.last()))
    }
}

/// The contents of lists of entries, in order.
pub open spec fn entry_lists_view(ls: Seq<Vec<Entry>>) -> Seq<Seq<EntryView>>
    decreases ls,
{
    if ls.len() == 0 {
        Seq::empty()
    } else {
        entry_lists_view(ls.drop_last()).push(entries_view(ls.last()@))
    }
}

impl View for Entry {
    type V = EntryView;

    open spec fn view(&self) -> EntryView {
        entry_view(*self)
    }
}

/// `entries_view` goes item by item.
pub proof fn lemma_entries_view(es: Seq<Entry>)
    ensures
        entries_view(es).len() == es.len(),
        forall|i: int| 0 <= i < es.len() ==> (#[trigger] entries_view(es)[i]) == es[i]@,
    decreases es.len(),
{
    if es.len() > 0 {
        lemma_entries_view(es.drop_last());
    }
}

/// `entry_lists_view` goes item by item.
pub proof fn lemma_entry_lists_view(ls: Seq<Vec<Entry>>)
    ensures
        entry_lists_view(ls).len() == ls.len(),
        forall|i: int|
            0 <= i < ls.len() ==> (#[trigger] entry_lists_view(ls)[i]) == entries_view(ls[i]@),
    decreases ls.len(),
{
    if ls.len() > 0 {
        lemma_entry_lists_view(ls.drop_last());
    }
}

/// One more entry is viewed after those before it.
pub proof fn lemma_entries_view_push(es: Seq<Entry>, e: Entry)
    ensures
        entries_view(es.push(e)) == entries_view(es).push(e@),
{
    assert(es.push(e).drop_last() == es);
}

/// One more list is viewed after those before it.
pub proof fn lemma_entry_lists_view_push(ls: Seq<Vec<Entry>>, l: Vec<Entry>)
    ensures
        entry_lists_view(ls.push(l)) == entry_lists_view(ls).push(entries_view(l@)),
{
    assert(ls.push(l).drop_last() == ls);
}

/// A message: its header, the numbers that its header carries, and its body.
#[derive(Debug, PartialEq, Eq)]
pub struct MessageLayout {
    pub header: HeaderLayout,
    /// The size of the header composite.
    pub header_size: usize,
    pub template_id: u16,
    pub schema_id: u16,
    pub version: u16,
    /// The size of the fixed block of the body.
    pub block_length: usize,
    pub body: EntryLayout,
}

/// The mathematical content of a [`MessageLayout`].
pub struct MessageLayoutView {
    pub header: HeaderLayoutView,
    pub header_size: usize,
    pub template_id: u16,
    pub schema_id: u16,
    pub version: u16,
    pub block_length: usize,
    pub body: EntryLayoutView,
}

impl View for MessageLayout {
    type V = MessageLayoutView;

    open spec fn view(&self) -> MessageLayoutView {
        MessageLayoutView {
            header: self.header@,
            header_size: self.header_size,
            template_id: self.template_id,
            schema_id: self.schema_id,
            version: self.version,
            block_length: self.block_length,
            body: self.body@,
        }
    }
}

/// The parts of the content of a layout are the contents of its parts.
pub proof fn lemma_layout_parts(l: EntryLayout)
    ensures
        l@.fields == block_field_views(l.fields@),
        l@.groups == group_shape_views(l.groups@),
        l@.var_data == var_layout_views(l.var_data@),
        l@.groups.len() == l.groups@.len(),
{
    lemma_group_shape_views(l.groups@);
}

/// The parts of the content of an entry are the contents of its parts.
pub proof fn lemma_value_parts(e: Entry)
    ensures
        e@.values == optional_views(e.values@),
        e@.groups == entry_lists_view(e.groups@),
        e@.var_data == element_lists_view(e.var_data@),
        e@.groups.len() == e.groups@.len(),
{
    lemma_entry_lists_view(e.groups@);
}

} // verus!
