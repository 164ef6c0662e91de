//! Whether a layout is well formed and whether a value is of its shape, decided.

use crate::wire::block::value_views;
use crate::wire::buffer::written;
use crate::wire::message::apart;
use crate::wire::scalar::{bound_view, Primitive};
use crate::wire::tree::shape::{
    elements_fit, entries_fit, entry_fits, fields_wf, groups_fit, groups_wf, lemma_entries_fit_at,
    lemma_groups_fit_at, lemma_groups_wf_at, values_fit, var_data_fit, var_data_wf,
};
use crate::wire::tree::{
    block_field_views, element_lists_view, entries_view, entry_lists_view, group_shape_views,
    lemma_entries_view, lemma_entry_lists_view, lemma_group_shape_views, lemma_layout_parts,
    lemma_value_parts, optional_views, var_layout_views, BlockField, Entry, EntryLayout, GroupShape,
    MessageLayout,
};
use crate::wire::var_data::VarDataLayout;
use vstd::prelude::*;
use vstd::string::*;

verus! {

impl BlockField {
    /// Whether the field is well formed and lies within a block of `block_length` bytes.
    pub fn valid(&self, block_length: usize) -> (r: bool)
        ensures
            r == self@.wf(block_length as nat),
    {
        let width = self.field.primitive.size();
        self.field.valid() && self.field.offset <= block_length && width <= block_length
            - self.field.offset
    }

    /// Whether `v` is a value for the field.  Strictly, the number of an optional field
    /// is not the null sentinel.
    pub fn accepts(&self, v: Option<i128>, strict: bool) -> (r: bool)
        ensures
            r == self@.fits(bound_view(v), strict),
    {
        match v {
            Some(x) => {
                if !self.field.primitive.contains(x) {
                    return false;
                }
                if strict && self.optional {
                    let absent = if self.field.null_is_nan {
                        self.field.primitive.nan(x)
                    } else {
                        x == self.field.null_value
                    };
                    !absent
                } else {
                    true
                }
            },
            None => self.optional,
        }
    }
}

fn fields_valid(fields: &Vec<BlockField>, block_length: usize) -> (r: bool)
    ensures
        r == fields_wf(block_field_views(fields@), block_length as nat),
{
    let ghost fs = block_field_views(fields@);
    let mut i: usize = 0;
    while i < fields.len()
        invariant
            i <= fields.len(),
            fs == block_field_views(fields@),
            forall|k: int| 0 <= k < i ==> (#[trigger] fs[k]).wf(block_length as nat),
        decreases fields.len() - i,
    {
        assert(fs[i as int] == fields@[i as int]@);
        if !fields[i].valid(block_length) {
            assert(!fs[i as int].wf(block_length as nat));
            return false;
        }
        i = i + 1;
    }
    let mut i: usize = 0;
    while i < fields.len()
        invariant
            i <= fields.len(),
            fs == block_field_views(fields@),
            forall|k: int| 0 <= k < fields@.len() ==> (#[trigger] fs[k]).wf(block_length as nat),
            forall|a: int, b: int|
                0 <= a < i && a < b < fields@.len() ==> apart(
                    (#[trigger] fs[a]).field,
                    (#[trigger] fs[b]).field,
                ),
        decreases fields.len() - i,
    {
        let mut j: usize = i + 1;
        while j < fields.len()
            invariant
                i < j <= fields.len(),
                fs == block_field_views(fields@),
                forall|k: int|
                    0 <= k < fields@.len() ==> (#[trigger] fs[k]).wf(block_length as nat),
                forall|b: int|
                    i < b < j ==> apart(fs[i as int].field, (#[trigger] fs[b]).field),
            decreases fields.len() - j,
        {
            assert(fs[i as int] == fields@[i as int]@);
            assert(fs[j as int] == fields@[j as int]@);
            assert(fs[i as int].wf(block_length as nat));
            assert(fs[j as int].wf(block_length as nat));
            let f = &fields[i].field;
            let g = &fields[j].field;
            let clear = g.offset + g.primitive.size() <= f.offset || f.offset + f.primitive.size()
                <= g.offset;
            if !clear {
                assert(!apart(fs[i as int].field, fs[j as int].field));
                return false;
            }
            j = j + 1;
        }
        i = i + 1;
    }
    true
}

fn var_data_valid(layouts: &Vec<VarDataLayout>) -> (r: bool)
    ensures
        r == var_data_wf(var_layout_views(layouts@)),
{
    let ghost ls = var_layout_views(layouts@);
    let mut i: usize = 0;
    while i < layouts.len()
        invariant
            i <= layouts.len(),
            ls == var_layout_views(layouts@),
            forall|k: int| 0 <= k < i ==> (#[trigger] ls[k]).wf(),
        decreases layouts.len() - i,
    {
        assert(ls[i as int] == layouts@[i as int]@);
        if !layouts[i].valid() {
            assert(!ls[i as int].wf());
            return false;
        }
        i = i + 1;
    }
    true
}

fn groups_valid(gs: &Vec<GroupShape>) -> (r: bool)
    ensures
        r == groups_wf(group_shape_views(gs@), gs@.len()),
    decreases gs,
{
    let ghost gv = group_shape_views(gs@);
    proof {
        lemma_group_shape_views(gs@);
    }
    let mut i: usize = 0;
    while i < gs.len()
        invariant
            i <= gs.len(),
            gv == group_shape_views(gs@),
            gv.len() == gs@.len(),
            forall|j: int| 0 <= j < gs@.len() ==> (#[trigger] gv[j]) == gs@[j]@,
            groups_wf(gv, i as nat),
        decreases gs.len() - i,
    {
        assert(decreases_to!(gs => gs[i as int]));
        assert(gv[i as int] == gs@[i as int]@);
        if !gs[i].valid() {
            proof {
                if groups_wf(gv, gs@.len() as nat) {
                    lemma_groups_wf_at(gv, gs@.len() as nat, i as int);
                }
            }
            return false;
        }
        i = i + 1;
    }
    true
}

impl GroupShape {
    /// Whether the group is well formed.
    pub fn valid(&self) -> (r: bool)
        ensures
            r == self@.wf(),
        decreases self,
    {
        self.header.valid() && self.entry.valid(self.header.block_length)
    }
}

impl EntryLayout {
    /// Whether all parts are well formed for a fixed block of `block_length` bytes.
    pub fn valid(&self, block_length: usize) -> (r: bool)
        ensures
            r == self@.wf(block_length as nat),
        decreases self,
    {
        proof {
            lemma_layout_parts(*self);
        }
        fields_valid(&self.fields, block_length) && groups_valid(&self.groups) && var_data_valid(
            &self.var_data,
        )
    }
}

impl MessageLayout {
    /// Whether the header and the body are well formed.
    pub fn valid(&self) -> (r: bool)
        ensures
            r == self@.wf(),
    {
        self.header.valid() && self.body.valid(self.block_length)
    }
}

fn values_accepted(fields: &Vec<BlockField>, values: &Vec<Option<i128>>, strict: bool) -> (r: bool)
    ensures
        r == values_fit(block_field_views(fields@), optional_views(values@), strict),
{
    if fields.len() != values.len() {
        return false;
    }
    let ghost fs = block_field_views(fields@);
    let ghost vs = optional_views(values@);
    let mut i: usize = 0;
    while i < fields.len()
        invariant
            i <= fields.len(),
            fields@.len() == values@.len(),
            fs == block_field_views(fields@),
            vs == optional_views(values@),
            forall|k: int| 0 <= k < i ==> (#[trigger] fs[k]).fits(vs[k], strict),
        decreases fields.len() - i,
    {
        assert(fs[i as int] == fields@[i as int]@);
        assert(vs[i as int] == bound_view(values@[i as int]));
        if !fields[i].accepts(values[i], strict) {
            assert(!fs[i as int].fits(vs[i as int], strict));
            return false;
        }
        i = i + 1;
    }
    true
}

fn elements_accepted(p: Primitive, elements: &Vec<i128>) -> (r: bool)
    ensures
        r == elements_fit(p, value_views(elements@)),
{
    let ghost es = value_views(elements@);
    let mut i: usize = 0;
    while i < elements.len()
        invariant
            i <= elements.len(),
            es == value_views(elements@),
            forall|k: int| 0 <= k < i ==> p.holds(#[trigger] es[k]),
        decreases elements.len() - i,
    {
        assert(es[i as int] == elements@[i as int] as int);
        if !p.contains(elements[i]) {
            assert(!p.holds(es[i as int]));
            return false;
        }
        i = i + 1;
    }
    true
}

fn var_data_accepted(layouts: &Vec<VarDataLayout>, values: &Vec<Vec<i128>>) -> (r: bool)
    ensures
        r == var_data_fit(var_layout_views(layouts@), element_lists_view(values@)),
{
    if layouts.len() != values.len() {
        return false;
    }
    let ghost ls = var_layout_views(layouts@);
    let ghost vs = element_lists_view(values@);
    let mut i: usize = 0;
    while i < layouts.len()
        invariant
            i <= layouts.len(),
            layouts@.len() == values@.len(),
            ls == var_layout_views(layouts@),
            vs == element_lists_view(values@),
            forall|k: int| 0 <= k < i ==> elements_fit((#[trigger] ls[k]).element, vs[k]),
        decreases layouts.len() - i,
    {
        assert(ls[i as int] == layouts@[i as int]@);
        assert(vs[i as int] == value_views(values@[i as int]@));
        if !elements_accepted(layouts[i].element, &values[i]) {
            assert(!elements_fit(ls[i as int].element, vs[i as int]));
            return false;
        }
        i = i + 1;
    }
    true
}

fn group_accepted(g: &GroupShape, es: &Vec<Entry>, strict: bool) -> (r: bool)
    ensures
        r == entries_fit(g@.entry, entries_view(es@), strict, es@.len()),
    decreases g,
{
    let ghost ev = entries_view(es@);
    let ghost l = g@.entry;
    proof {
        lemma_entries_view(es@);
    }
    let mut i: usize = 0;
    while i < es.len()
        invariant
            i <= es.len(),
            ev == entries_view(es@),
            ev.len() == es@.len(),
            forall|j: int| 0 <= j < es@.len() ==> (#[trigger] ev[j]) == es@[j]@,
            l == g@.entry,
            entries_fit(l, ev, strict, i as nat),
        decreases es.len() - i,
    {
        assert(ev[i as int] == es@[i as int]@);
        if !es[i].fits(&g.entry, strict) {
            proof {
                if entries_fit(l, ev, strict, es@.len() as nat) {
                    lemma_entries_fit_at(l, ev, strict, es@.len() as nat, i as int);
                }
            }
            return false;
        }
        i = i + 1;
    }
    true
}

fn groups_accepted(gs: &Vec<GroupShape>, lists: &Vec<Vec<Entry>>, strict: bool) -> (r: bool)
    requires
        gs@.len() == lists@.len(),
    ensures
        r == groups_fit(group_shape_views(gs@), entry_lists_view(lists@), strict, gs@.len()),
    decreases gs,
{
    let ghost gv = group_shape_views(gs@);
    let ghost lv = entry_lists_view(lists@);
    proof {
        lemma_group_shape_views(gs@);
        lemma_entry_lists_view(lists@);
    }
    let mut i: usize = 0;
    while i < gs.len()
        invariant
            i <= gs.len(),
            gs@.len() == lists@.len(),
            gv == group_shape_views(gs@),
            lv == entry_lists_view(lists@),
            gv.len() == gs@.len(),
            lv.len() == lists@.len(),
            forall|j: int| 0 <= j < gs@.len() ==> (#[trigger] gv[j]) == gs@[j]@,
            forall|j: int| 0 <= j < lists@.len() ==> (#[trigger] lv[j]) == entries_view(lists@[j]@),
            groups_fit(gv, lv, strict, i as nat),
        decreases gs.len() - i,
    {
        assert(decreases_to!(gs => gs[i as int]));
        proof {
            assert(gv[i as int] == gs@[i as int]@);
            assert(lv[i as int] == entries_view(lists@[i as int]@));
            lemma_entries_view(lists@[i as int]@);
        }
        if !group_accepted(&gs[i], &lists[i], strict) {
            proof {
                if groups_fit(gv, lv, strict, gs@.len() as nat) {
                    lemma_groups_fit_at(gv, lv, strict, gs@.len() as nat, i as int);
                }
            }
            return false;
        }
        let count = lists[i].len();
        proof {
            assert(lv[i as int].len() == count);
            assert(entries_fit(gv[i as int].entry, lv[i as int], strict, lv[i as int].len()));
        }
        i = i + 1;
    }
    true
}

impl Entry {
    /// Whether the entry is a value of the shape `l`.  Strictly, no optional field
    /// holds its null sentinel, so that the entry is read back as it is written.
    pub fn fits(&self, l: &EntryLayout, strict: bool) -> (r: bool)
        ensures
            r == entry_fits(l@, self@, strict),
        decreases l,
    {
        proof {
            lemma_layout_parts(*l);
            lemma_value_parts(*self);
        }
        if l.groups.len() != self.groups.len() {
            return false;
        }
        values_accepted(&l.fields, &self.values, strict) && groups_accepted(
            &l.groups,
            &self.groups,
            strict,
        ) && var_data_accepted(&l.var_data, &self.var_data)
    }
}

} // verus!
