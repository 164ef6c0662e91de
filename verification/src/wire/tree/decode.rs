//! Reading values.

use crate::models::ByteOrder;
use crate::wire::block::value_views;
use crate::wire::buffer::get_unsigned_at;
use crate::wire::error::{SbeError, SbeFault};
use crate::wire::scalar::{bound_view, bytes_value, get_value_at};
use crate::wire::tree::bytes::{
    elements_read, entries_read, entry_read, fields_read, group_read, groups_read,
    lemma_entries_read_fault, lemma_fields_read_fault, lemma_groups_read_fault,
    lemma_var_data_read_fault, var_data_read, var_read,
};
use crate::wire::tree::shape::{groups_wf, lemma_groups_wf_at, var_data_wf};
use crate::wire::tree::{
    block_field_views, element_lists_view, entries_view, entry_lists_view, group_shape_views,
    lemma_entries_view_push, lemma_entry_lists_view_push, lemma_group_shape_views,
    lemma_layout_parts, lemma_value_parts, optional_views, var_layout_views, BlockField, Entry,
    EntryLayout, EntryView, GroupShape, MessageLayout,
};
use crate::wire::var_data::VarDataLayout;
use vstd::prelude::*;
use vstd::string::*;

verus! {

impl BlockField {
    /// Reads the field from a block.
    pub fn decode(&self, block: &[u8], order: ByteOrder) -> (r: Result<Option<i128>, SbeError>)
        ensures
            match r {
                Ok(v) => self@.read(block@, order) == Ok::<Option<int>, SbeFault>(bound_view(v)),
                Err(e) => self@.read(block@, order) == Err::<Option<int>, SbeFault>(e@),
            },
    {
        if self.optional {
            self.field.decode_optional(block, order)
        } else {
            match self.field.decode_required(block, order) {
                Ok(v) => Ok(Some(v)),
                Err(e) => Err(e),
            }
        }
    }
}

fn decode_fields(fields: &Vec<BlockField>, block: &[u8], order: ByteOrder) -> (r: Result<
    Vec<Option<i128>>,
    SbeError,
>)
    ensures
        match r {
            Ok(values) => fields_read(block_field_views(fields@), block@, order, fields@.len())
                == Ok::<Seq<Option<int>>, SbeFault>(optional_views(values@)),
            Err(e) => fields_read(block_field_views(fields@), block@, order, fields@.len())
                == Err::<Seq<Option<int>>, SbeFault>(e@),
        },
{
    let ghost fs = block_field_views(fields@);
    let mut values: Vec<Option<i128>> = Vec::new();
    let mut i: usize = 0;
    assert(optional_views(values@) =~= Seq::<Option<int>>::empty());
    while i < fields.len()
        invariant
            i <= fields.len(),
            fs == block_field_views(fields@),
            fields_read(fs, block@, order, i as nat) == Ok::<Seq<Option<int>>, SbeFault>(
                optional_views(values@),
            ),
        decreases fields.len() - i,
    {
        assert(fs[i as int] == fields@[i as int]@);
        let ghost before = values@;
        match fields[i].decode(block, order) {
            Ok(v) => {
                values.push(v);
                assert(optional_views(values@) =~= optional_views(before).push(bound_view(v)));
            },
            Err(e) => {
                proof {
                    lemma_fields_read_fault(fs, block@, order, i as nat + 1, fields@.len());
                }
                return Err(e);
            },
        }
        i = i + 1;
    }
    Ok(values)
}

fn decode_var(l: &VarDataLayout, data: &[u8], order: ByteOrder) -> (r: Result<
    (Vec<i128>, usize),
    SbeError,
>)
    requires
        l@.wf(),
    ensures
        match r {
            Ok((elements, size)) => var_read(l@, data@, order) == Ok::<(Seq<int>, nat), SbeFault>(
                (value_views(elements@), size as nat),
            ) && size <= data@.len(),
            Err(e) => var_read(l@, data@, order) == Err::<(Seq<int>, nat), SbeFault>(e@),
        },
{
    if l.prefix_size > data.len() {
        return Err(SbeError::CodecOutOfBounds(l.prefix_size, data.len()));
    }
    let n: u64 = match get_unsigned_at(data, order, 0, l.prefix_size) {
        Ok(n) => n,
        Err(e) => { return Err(e); },
    };
    let w: usize = l.element.size();
    assert((n as u128) * (w as u128) <= 0x8_0000_0000_0000_0000) by (nonlinear_arith)
        requires
            n <= u64::MAX,
            1 <= w <= 8,
    ;
    let size: u128 = l.prefix_size as u128 + (n as u128) * (w as u128);
    if size > data.len() as u128 {
        let end: usize = if size > usize::MAX as u128 {
            usize::MAX
        } else {
            size as usize
        };
        return Err(SbeError::CodecOutOfBounds(end, data.len()));
    }
    let size: usize = size as usize;
    assert(n * w <= usize::MAX && n <= n * w) by (nonlinear_arith)
        requires
            l.prefix_size + n * w == size,
            size <= usize::MAX,
            w >= 1,
            l.prefix_size >= 0,
            n >= 0,
    ;
    let count: usize = n as usize;
    let body = vstd::slice::slice_subrange(data, l.prefix_size, size);
    let mut elements: Vec<i128> = Vec::new();
    let mut i: usize = 0;
    while i < count
        invariant
            i <= count,
            w == l.element.width(),
            1 <= w <= 8,
            body@.len() == count * w,
            count * w <= usize::MAX,
            elements@.len() == i,
            forall|j: int|
                0 <= j < i ==> (#[trigger] elements@[j]) as int == bytes_value(
                    l.element,
                    body@.subrange(j * w, j * w + w),
                    order,
                ),
        decreases count - i,
    {
        assert(i * w + w <= count * w && 0 <= i * w) by (nonlinear_arith)
            requires
                0 <= i < count,
                w >= 1,
        ;
        let at: usize = i * w;
        let v = match get_value_at(body, order, at, l.element) {
            Ok(v) => v,
            Err(e) => { return Err(e); },
        };
        elements.push(v);
        i = i + 1;
    }
    assert(value_views(elements@) =~= elements_read(l.element, body@, order, n as nat));
    Ok((elements, size))
}

fn decode_var_data(layouts: &Vec<VarDataLayout>, data: &[u8], order: ByteOrder) -> (r: Result<
    (Vec<Vec<i128>>, usize),
    SbeError,
>)
    requires
        var_data_wf(var_layout_views(layouts@)),
    ensures
        match r {
            Ok((lists, used)) => var_data_read(
                var_layout_views(layouts@),
                data@,
                order,
                layouts@.len(),
            ) == Ok::<(Seq<Seq<int>>, nat), SbeFault>((element_lists_view(lists@), used as nat))
                && used <= data@.len(),
            Err(e) => var_data_read(var_layout_views(layouts@), data@, order, layouts@.len())
                == Err::<(Seq<Seq<int>>, nat), SbeFault>(e@),
        },
{
    let ghost ls = var_layout_views(layouts@);
    let mut lists: Vec<Vec<i128>> = Vec::new();
    let mut used: usize = 0;
    let mut i: usize = 0;
    assert(element_lists_view(lists@) =~= Seq::<Seq<int>>::empty());
    while i < layouts.len()
        invariant
            i <= layouts.len(),
            ls == var_layout_views(layouts@),
            var_data_wf(ls),
            used <= data@.len(),
            var_data_read(ls, data@, order, i as nat) == Ok::<(Seq<Seq<int>>, nat), SbeFault>(
                (element_lists_view(lists@), used as nat),
            ),
        decreases layouts.len() - i,
    {
        assert(ls[i as int] == layouts@[i as int]@);
        assert(ls[i as int].wf());
        let rest = vstd::slice::slice_subrange(data, used, data.len());
        let ghost before = lists@;
        match decode_var(&layouts[i], rest, order) {
            Ok((elements, size)) => {
                lists.push(elements);
                used = used + size;
                assert(element_lists_view(lists@) =~= element_lists_view(before).push(
                    value_views(elements@),
                ));
            },
            Err(e) => {
                proof {
                    lemma_var_data_read_fault(ls, data@, order, i as nat + 1, layouts@.len());
                }
                return Err(e);
            },
        }
        i = i + 1;
    }
    Ok((lists, used))
}

/// Reads an entry with a fixed block of `block_length` bytes from the start of `data`:
/// its value, and the number of bytes that it takes.
pub fn decode_entry(l: &EntryLayout, block_length: usize, data: &[u8], order: ByteOrder) -> (r:
    Result<(Entry, usize), SbeError>)
    requires
        l@.readable(),
    ensures
        match r {
            Ok((e, used)) => entry_read(l@, block_length as nat, data@, order) == Ok::<
                (EntryView, nat),
                SbeFault,
            >((e@, used as nat)) && used <= data@.len(),
            Err(err) => entry_read(l@, block_length as nat, data@, order) == Err::<
                (EntryView, nat),
                SbeFault,
            >(err@),
        },
    decreases l,
{
    proof {
        lemma_layout_parts(*l);
        let declared = choose|b: nat| l@.wf(b);
        assert(l@.wf(declared));
    }
    if block_length > data.len() {
        return Err(SbeError::CodecOutOfBounds(block_length, data.len()));
    }
    let block = vstd::slice::slice_subrange(data, 0, block_length);
    let values = match decode_fields(&l.fields, block, order) {
        Ok(values) => values,
        Err(err) => { return Err(err); },
    };
    let rest = vstd::slice::slice_subrange(data, block_length, data.len());
    let (groups, used) = match decode_groups(&l.groups, rest, order) {
        Ok(found) => found,
        Err(err) => { return Err(err); },
    };
    let tail = vstd::slice::slice_subrange(data, block_length + used, data.len());
    let (var_data, size) = match decode_var_data(&l.var_data, tail, order) {
        Ok(found) => found,
        Err(err) => { return Err(err); },
    };
    let e = Entry { values, groups, var_data };
    proof {
        lemma_value_parts(e);
    }
    Ok((e, block_length + used + size))
}

fn decode_groups(gs: &Vec<GroupShape>, data: &[u8], order: ByteOrder) -> (r: Result<
    (Vec<Vec<Entry>>, usize),
    SbeError,
>)
    requires
        groups_wf(group_shape_views(gs@), gs@.len()),
    ensures
        match r {
            Ok((lists, used)) => groups_read(group_shape_views(gs@), data@, order, gs@.len())
                == Ok::<(Seq<Seq<EntryView>>, nat), SbeFault>(
                (entry_lists_view(lists@), used as nat),
            ) && used <= data@.len(),
            Err(e) => groups_read(group_shape_views(gs@), data@, order, gs@.len()) == Err::<
                (Seq<Seq<EntryView>>, nat),
                SbeFault,
            >(e@),
        },
    decreases gs,
{
    let ghost gv = group_shape_views(gs@);
    proof {
        lemma_group_shape_views(gs@);
    }
    let mut lists: Vec<Vec<Entry>> = Vec::new();
    let mut used: usize = 0;
    let mut i: usize = 0;
    assert(entry_lists_view(lists@) =~= Seq::<Seq<EntryView>>::empty());
    while i < gs.len()
        invariant
            i <= gs.len(),
            gv == group_shape_views(gs@),
            gv.len() == gs@.len(),
            forall|j: int| 0 <= j < gs@.len() ==> (#[trigger] gv[j]) == gs@[j]@,
            groups_wf(gv, gs@.len() as nat),
            used <= data@.len(),
            groups_read(gv, data@, order, i as nat) == Ok::<(Seq<Seq<EntryView>>, nat), SbeFault>(
                (entry_lists_view(lists@), used as nat),
            ),
        decreases gs.len() - i,
    {
        proof {
            lemma_groups_wf_at(gv, gs@.len() as nat, i as int);
            assert(gv[i as int] == gs@[i as int]@);
        }
        assert(decreases_to!(gs => gs[i as int]));
        let rest = vstd::slice::slice_subrange(data, used, data.len());
        let ghost before = lists@;
        match decode_group(&gs[i], rest, order) {
            Ok((entries, size)) => {
                proof {
                    lemma_entry_lists_view_push(before, entries);
                }
                lists.push(entries);
                used = used + size;
            },
            Err(e) => {
                proof {
                    lemma_groups_read_fault(gv, data@, order, i as nat + 1, gs@.len() as nat);
                }
                return Err(e);
            },
        }
        i = i + 1;
    }
    Ok((lists, used))
}

/// Reads a group from the start of `data`: its entries in their order, and the number
/// of bytes that it takes.
pub fn decode_group(g: &GroupShape, data: &[u8], order: ByteOrder) -> (r: Result<
    (Vec<Entry>, usize),
    SbeError,
>)
    requires
        g@.wf(),
    ensures
        match r {
            Ok((entries, used)) => group_read(g@, data@, order) == Ok::<
                (Seq<EntryView>, nat),
                SbeFault,
            >((entries_view(entries@), used as nat)) && used <= data@.len(),
            Err(e) => group_read(g@, data@, order) == Err::<(Seq<EntryView>, nat), SbeFault>(e@),
        },
    decreases g,
{
    let ghost l = g@.entry;
    if g.header.dimension_size > data.len() {
        return Err(SbeError::CodecOutOfBounds(g.header.dimension_size, data.len()));
    }
    let header = vstd::slice::slice_subrange(data, 0, g.header.dimension_size);
    let told = match crate::wire::group::GroupDecoder::new(header, order, &g.header, 0) {
        Ok(told) => told,
        Err(e) => { return Err(e); },
    };
    let block_length = told.block_length;
    let count = told.num_in_group;
    let rest = vstd::slice::slice_subrange(data, g.header.dimension_size, data.len());
    let mut entries: Vec<Entry> = Vec::new();
    let mut used: usize = 0;
    let mut i: usize = 0;
    assert(entries_view(entries@) =~= Seq::<EntryView>::empty());
    assert(l.wf(g@.header.block_length as nat));
    while i < count
        invariant
            i <= count,
            l == g@.entry,
            l.readable(),
            used <= rest@.len(),
            g.header.dimension_size <= data@.len(),
            header@ == data@.subrange(0, g.header.dimension_size as int),
            rest@ == data@.subrange(g.header.dimension_size as int, data@.len() as int),
            g@.header.header_read(header@, order, 0) == Ok::<(usize, usize), SbeFault>(
                (block_length, count),
            ),
            entries_read(l, block_length as nat, rest@, order, i as nat) == Ok::<
                (Seq<EntryView>, nat),
                SbeFault,
            >((entries_view(entries@), used as nat)),
        decreases count - i,
    {
        let from = vstd::slice::slice_subrange(rest, used, rest.len());
        let ghost before = entries@;
        match decode_entry(&g.entry, block_length, from, order) {
            Ok((entry, size)) => {
                proof {
                    lemma_entries_view_push(before, entry);
                }
                entries.push(entry);
                used = used + size;
            },
            Err(e) => {
                proof {
                    lemma_entries_read_fault(
                        l,
                        block_length as nat,
                        rest@,
                        order,
                        i as nat + 1,
                        count as nat,
                    );
                }
                return Err(e);
            },
        }
        i = i + 1;
    }
    Ok((entries, g.header.dimension_size + used))
}

/// Reads a message from the start of `data`: its value, and the number of bytes that
/// it takes.
pub fn decode_message(m: &MessageLayout, data: &[u8], order: ByteOrder) -> (r: Result<
    (Entry, usize),
    SbeError,
>)
    requires
        m@.wf(),
    ensures
        match r {
            Ok((e, used)) => m@.read(data@, order) == Ok::<(EntryView, nat), SbeFault>(
                (e@, used as nat),
            ) && used <= data@.len(),
            Err(err) => m@.read(data@, order) == Err::<(EntryView, nat), SbeFault>(err@),
        },
{
    if m.header_size > data.len() {
        return Err(SbeError::CodecOutOfBounds(m.header_size, data.len()));
    }
    let header = vstd::slice::slice_subrange(data, 0, m.header_size);
    match m.header.check(header, order, m.template_id) {
        Ok(()) => {},
        Err(err) => { return Err(err); },
    }
    let rest = vstd::slice::slice_subrange(data, m.header_size, data.len());
    assert(m@.body.wf(m.block_length as nat));
    match decode_entry(&m.body, m.block_length, rest, order) {
        Ok((e, used)) => Ok((e, m.header_size + used)),
        Err(err) => Err(err),
    }
}

} // verus!
