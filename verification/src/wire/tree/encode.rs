//! Writing values.

use crate::models::ByteOrder;
use crate::text::signed_decimal;
use crate::wire::block::value_views;
use crate::wire::buffer::{lemma_pow256_values, put_unsigned_at, unsigned_bytes};
use crate::wire::error::{SbeError, SbeFault};
use crate::wire::group::max_count_of;
use crate::wire::scalar::{bound_view, value_bytes, Primitive};
use crate::wire::tree::bytes::{
    elements_bytes, elements_fault, entries_encoded, entry_encoded, fields_stored, group_encoded,
    group_header, groups_encoded, lemma_elements_fault, lemma_entries_encoded_fault,
    lemma_fields_stored_fault, lemma_groups_encoded_fault, lemma_var_data_encoded_fault,
    var_data_encoded, var_encoded,
};
use crate::wire::tree::shape::{
    elements_fit, entries_fit, entry_fits, fields_wf, groups_fit, groups_wf, lemma_entries_fit_at,
    lemma_groups_fit_at, lemma_groups_wf_at, values_fit, var_data_fit, var_data_wf, zeros,
};
use crate::wire::tree::{
    block_field_views, element_lists_view, entries_view, entry_lists_view, group_shape_views,
    lemma_entries_view, lemma_entry_lists_view, lemma_group_shape_views, lemma_layout_parts,
    lemma_value_parts, optional_views, var_layout_views, BlockField, Entry, EntryLayout, GroupShape,
    MessageLayout,
};
use crate::wire::var_data::VarDataLayout;
use vstd::prelude::*;
use vstd::string::*;

verus! {

fn zero_block(n: usize) -> (r: Vec<u8>)
    ensures
        r@ == zeros(n as nat),
{
    let mut out: Vec<u8> = Vec::new();
    let mut i: usize = 0;
    while i < n
        invariant
            i <= n,
            out@ == zeros(i as nat),
        decreases n - i,
    {
        out.push(0u8);
        i = i + 1;
        assert(out@ =~= zeros(i as nat));
    }
    out
}

fn append_bytes(out: &mut Vec<u8>, bytes: &Vec<u8>)
    ensures
        final(out)@ == old(out)@ + bytes@,
{
    let mut i: usize = 0;
    assert(out@ =~= old(out)@ + bytes@.subrange(0, 0));
    while i < bytes.len()
        invariant
            i <= bytes.len(),
            out@ == old(out)@ + bytes@.subrange(0, i as int),
        decreases bytes.len() - i,
    {
        out.push(bytes[i]);
        i = i + 1;
        assert(out@ =~= old(out)@ + bytes@.subrange(0, i as int));
    }
    assert(bytes@.subrange(0, bytes@.len() as int) =~= bytes@);
}

fn append_value(out: &mut Vec<u8>, order: ByteOrder, p: Primitive, v: i128)
    requires
        p.holds(v as int),
    ensures
        final(out)@ == old(out)@ + value_bytes(p, v as int, order),
{
    proof {
        lemma_pow256_values();
    }
    let raw: u64 = if v < 0 {
        (v + p.modulus()) as u64
    } else {
        v as u64
    };
    let bytes = unsigned_bytes(raw, p.size(), order);
    append_bytes(out, &bytes);
}

fn encode_fields(
    fields: &Vec<BlockField>,
    block_length: usize,
    values: &Vec<Option<i128>>,
    order: ByteOrder,
) -> (r: Result<Vec<u8>, SbeError>)
    requires
        fields_wf(block_field_views(fields@), block_length as nat),
        values_fit(block_field_views(fields@), optional_views(values@), false),
    ensures
        match r {
            Ok(block) => fields_stored(
                block_field_views(fields@),
                zeros(block_length as nat),
                order,
                optional_views(values@),
                fields@.len(),
            ) == Ok::<Seq<u8>, SbeFault>(block@),
            Err(e) => fields_stored(
                block_field_views(fields@),
                zeros(block_length as nat),
                order,
                optional_views(values@),
                fields@.len(),
            ) == Err::<Seq<u8>, SbeFault>(e@),
        },
{
    let ghost fs = block_field_views(fields@);
    let ghost vs = optional_views(values@);
    let mut block = zero_block(block_length);
    let mut i: usize = 0;
    while i < fields.len()
        invariant
            i <= fields.len(),
            fields@.len() == values@.len(),
            fs == block_field_views(fields@),
            vs == optional_views(values@),
            fields_wf(fs, block_length as nat),
            values_fit(fs, vs, false),
            fields_stored(fs, zeros(block_length as nat), order, vs, i as nat) == Ok::<
                Seq<u8>,
                SbeFault,
            >(block@),
        decreases fields.len() - i,
    {
        proof {
            assert(fs[i as int] == fields@[i as int]@);
            assert(vs[i as int] == bound_view(values@[i as int]));
            assert(fs[i as int].wf(block_length as nat));
            assert(fs[i as int].fits(vs[i as int], false));
        }
        match fields[i].field.encode_optional(&mut block, order, values[i]) {
            Ok(()) => {},
            Err(e) => {
                proof {
                    lemma_fields_stored_fault(
                        fs,
                        zeros(block_length as nat),
                        order,
                        vs,
                        i as nat + 1,
                        fields@.len(),
                    );
                }
                return Err(e);
            },
        }
        i = i + 1;
    }
    Ok(block)
}

fn encode_var(l: &VarDataLayout, elements: &Vec<i128>, order: ByteOrder, out: &mut Vec<u8>) -> (r:
    Result<(), SbeError>)
    requires
        l@.wf(),
        elements_fit(l@.element, value_views(elements@)),
    ensures
        match r {
            Ok(()) => var_encoded(l@, value_views(elements@), order) is Ok && final(out)@ == old(
                out,
            )@ + var_encoded(l@, value_views(elements@), order)->Ok_0,
            Err(e) => var_encoded(l@, value_views(elements@), order) == Err::<Seq<u8>, SbeFault>(
                e@,
            ),
        },
{
    let ghost es = value_views(elements@);
    let prefix = unsigned_bytes(elements.len() as u64, l.prefix_size, order);
    append_bytes(out, &prefix);
    let max = max_count_of(l.prefix_size);
    let mut i: usize = 0;
    assert(out@ =~= old(out)@ + prefix@ + elements_bytes(l@.element, es, order, 0));
    while i < elements.len()
        invariant
            i <= elements.len(),
            es == value_views(elements@),
            l@.wf(),
            elements_fit(l@.element, es),
            max == l@.max_length(),
            elements_fault(l@, es, i as nat) is None,
            out@ == old(out)@ + prefix@ + elements_bytes(l@.element, es, order, i as nat),
        decreases elements.len() - i,
    {
        let v = elements[i];
        assert(es[i as int] == v as int);
        if l.ascii_only && v >= 128 {
            proof {
                lemma_elements_fault(l@, es, i as nat + 1, es.len());
            }
            return Err(SbeError::InvalidStringValue(signed_decimal(v)));
        }
        if i as u64 >= max {
            proof {
                lemma_elements_fault(l@, es, i as nat + 1, es.len());
            }
            return Err(SbeError::VarDataOutOfBounds(l.name.clone()));
        }
        append_value(out, order, l.element, v);
        i = i + 1;
        assert(out@ =~= old(out)@ + prefix@ + elements_bytes(l@.element, es, order, i as nat));
    }
    assert(out@ =~= old(out)@ + (prefix@ + elements_bytes(l@.element, es, order, es.len())));
    Ok(())
}

fn encode_var_data(
    layouts: &Vec<VarDataLayout>,
    values: &Vec<Vec<i128>>,
    order: ByteOrder,
    out: &mut Vec<u8>,
) -> (r: Result<(), SbeError>)
    requires
        var_data_wf(var_layout_views(layouts@)),
        var_data_fit(var_layout_views(layouts@), element_lists_view(values@)),
    ensures
        match r {
            Ok(()) => var_data_encoded(
                var_layout_views(layouts@),
                element_lists_view(values@),
                order,
                layouts@.len(),
            ) is Ok && final(out)@ == old(out)@ + var_data_encoded(
                var_layout_views(layouts@),
                element_lists_view(values@),
                order,
                layouts@.len(),
            )->Ok_0,
            Err(e) => var_data_encoded(
                var_layout_views(layouts@),
                element_lists_view(values@),
                order,
                layouts@.len(),
            ) == Err::<Seq<u8>, SbeFault>(e@),
        },
{
    let ghost ls = var_layout_views(layouts@);
    let ghost vs = element_lists_view(values@);
    let mut i: usize = 0;
    assert(out@ =~= old(out)@ + Seq::<u8>::empty());
    while i < layouts.len()
        invariant
            i <= layouts.len(),
            layouts@.len() == values@.len(),
            ls == var_layout_views(layouts@),
            vs == element_lists_view(values@),
            var_data_wf(ls),
            var_data_fit(ls, vs),
            var_data_encoded(ls, vs, order, i as nat) is Ok,
            out@ == old(out)@ + var_data_encoded(ls, vs, order, i as nat)->Ok_0,
        decreases layouts.len() - i,
    {
        proof {
            assert(ls[i as int] == layouts@[i as int]@);
            assert(vs[i as int] == value_views(values@[i as int]@));
            assert(ls[i as int].wf());
            assert(elements_fit(ls[i as int].element, vs[i as int]));
        }
        let ghost before = var_data_encoded(ls, vs, order, i as nat)->Ok_0;
        match encode_var(&layouts[i], &values[i], order, out) {
            Ok(()) => {},
            Err(e) => {
                proof {
                    lemma_var_data_encoded_fault(ls, vs, order, i as nat + 1, layouts@.len());
                }
                return Err(e);
            },
        }
        i = i + 1;
        assert(out@ =~= old(out)@ + (before + var_encoded(ls[i - 1], vs[i - 1], order)->Ok_0));
    }
    Ok(())
}

/// Writes an entry with a fixed block of `block_length` bytes after what `out` holds.
/// After a fault, what was added to `out` is of no use.
pub fn encode_entry(
    l: &EntryLayout,
    block_length: usize,
    e: &Entry,
    order: ByteOrder,
    out: &mut Vec<u8>,
) -> (r: Result<(), SbeError>)
    requires
        l@.wf(block_length as nat),
        entry_fits(l@, e@, false),
    ensures
        match r {
            Ok(()) => entry_encoded(l@, block_length as nat, e@, order) is Ok && final(out)@
                == old(out)@ + entry_encoded(l@, block_length as nat, e@, order)->Ok_0,
            Err(err) => entry_encoded(l@, block_length as nat, e@, order) == Err::<
                Seq<u8>,
                SbeFault,
            >(err@),
        },
    decreases l,
{
    proof {
        lemma_layout_parts(*l);
        lemma_value_parts(*e);
    }
    let block = match encode_fields(&l.fields, block_length, &e.values, order) {
        Ok(block) => block,
        Err(err) => { return Err(err); },
    };
    append_bytes(out, &block);
    match encode_groups(&l.groups, &e.groups, order, out) {
        Ok(()) => {},
        Err(err) => { return Err(err); },
    }
    match encode_var_data(&l.var_data, &e.var_data, order, out) {
        Ok(()) => {},
        Err(err) => { return Err(err); },
    }
    proof {
        let groups = groups_encoded(l@.groups, e@.groups, order, l@.groups.len())->Ok_0;
        let tail = var_data_encoded(l@.var_data, e@.var_data, order, l@.var_data.len())->Ok_0;
        assert(out@ =~= old(out)@ + ((block@ + groups) + tail));
    }
    Ok(())
}

fn encode_groups(
    gs: &Vec<GroupShape>,
    lists: &Vec<Vec<Entry>>,
    order: ByteOrder,
    out: &mut Vec<u8>,
) -> (r: Result<(), SbeError>)
    requires
        gs@.len() == lists@.len(),
        groups_wf(group_shape_views(gs@), gs@.len()),
        groups_fit(group_shape_views(gs@), entry_lists_view(lists@), false, gs@.len()),
    ensures
        match r {
            Ok(()) => groups_encoded(
                group_shape_views(gs@),
                entry_lists_view(lists@),
                order,
                gs@.len(),
            ) is Ok && final(out)@ == old(out)@ + groups_encoded(
                group_shape_views(gs@),
                entry_lists_view(lists@),
                order,
                gs@.len(),
            )->Ok_0,
            Err(e) => groups_encoded(
                group_shape_views(gs@),
                entry_lists_view(lists@),
                order,
                gs@.len(),
            ) == Err::<Seq<u8>, SbeFault>(e@),
        },
    decreases gs,
{
    let ghost gv = group_shape_views(gs@);
    let ghost lv = entry_lists_view(lists@);
    proof {
        lemma_group_shape_views(gs@);
        lemma_entry_lists_view(lists@);
    }
    let mut i: usize = 0;
    assert(out@ =~= old(out)@ + Seq::<u8>::empty());
    while i < gs.len()
        invariant
            i <= gs.len(),
            gs@.len() == lists@.len(),
            gv == group_shape_views(gs@),
            lv == entry_lists_view(lists@),
            gv.len() == gs@.len(),
            lv.len() == lists@.len(),
            forall|j: int| 0 <= j < gs@.len() ==> (#[trigger] gv[j]) == gs@[j]@,
            forall|j: int| 0 <= j < lists@.len() ==> (#[trigger] lv[j]) == entries_view(lists@[j]@),
            groups_wf(gv, gs@.len() as nat),
            groups_fit(gv, lv, false, gs@.len() as nat),
            groups_encoded(gv, lv, order, i as nat) is Ok,
            out@ == old(out)@ + groups_encoded(gv, lv, order, i as nat)->Ok_0,
        decreases gs.len() - i,
    {
        proof {
            lemma_groups_wf_at(gv, gs@.len() as nat, i as int);
            lemma_groups_fit_at(gv, lv, false, gs@.len() as nat, i as int);
            assert(gv[i as int] == gs@[i as int]@);
            assert(lv[i as int] == entries_view(lists@[i as int]@));
            lemma_entries_view(lists@[i as int]@);
        }
        assert(decreases_to!(gs => gs[i as int]));
        let ghost before = groups_encoded(gv, lv, order, i as nat)->Ok_0;
        match encode_group(&gs[i], &lists[i], order, out) {
            Ok(()) => {},
            Err(e) => {
                proof {
                    lemma_groups_encoded_fault(gv, lv, order, i as nat + 1, gs@.len() as nat);
                }
                return Err(e);
            },
        }
        i = i + 1;
        assert(out@ =~= old(out)@ + (before + group_encoded(gv[i - 1], lv[i - 1], order)->Ok_0));
    }
    Ok(())
}

/// Writes a group after what `out` holds: its header, then its entries.  After a
/// fault, what was added to `out` is of no use.
pub fn encode_group(g: &GroupShape, es: &Vec<Entry>, order: ByteOrder, out: &mut Vec<u8>) -> (r:
    Result<(), SbeError>)
    requires
        g@.wf(),
        entries_fit(g@.entry, entries_view(es@), false, es@.len()),
    ensures
        match r {
            Ok(()) => group_encoded(g@, entries_view(es@), order) is Ok && final(out)@ == old(
                out,
            )@ + group_encoded(g@, entries_view(es@), order)->Ok_0,
            Err(e) => group_encoded(g@, entries_view(es@), order) == Err::<Seq<u8>, SbeFault>(
                e@,
            ),
        },
    decreases g,
{
    let ghost ev = entries_view(es@);
    let ghost h = g@.header;
    let ghost l = g@.entry;
    proof {
        lemma_entries_view(es@);
    }
    let mut header = zero_block(g.header.dimension_size);
    match put_unsigned_at(
        &mut header,
        order,
        0,
        g.header.block_length_size,
        g.header.block_length as u64,
    ) {
        Ok(()) => {},
        Err(e) => { return Err(e); },
    }
    match put_unsigned_at(
        &mut header,
        order,
        g.header.block_length_size,
        g.header.num_in_group_size,
        es.len() as u64,
    ) {
        Ok(()) => {},
        Err(e) => { return Err(e); },
    }
    assert(header@ == group_header(h, order, es@.len()));
    append_bytes(out, &header);
    let max = max_count_of(g.header.num_in_group_size);
    let mut i: usize = 0;
    assert(out@ =~= old(out)@ + header@ + Seq::<u8>::empty());
    while i < es.len()
        invariant
            i <= es.len(),
            ev == entries_view(es@),
            ev.len() == es@.len(),
            forall|j: int| 0 <= j < es@.len() ==> (#[trigger] ev[j]) == es@[j]@,
            h == g@.header,
            l == g@.entry,
            g@.wf(),
            max == h.max_entries(),
            entries_fit(l, ev, false, es@.len() as nat),
            entries_encoded(l, h, ev, order, i as nat) is Ok,
            out@ == old(out)@ + header@ + entries_encoded(l, h, ev, order, i as nat)->Ok_0,
        decreases es.len() - i,
    {
        proof {
            lemma_entries_fit_at(l, ev, false, es@.len() as nat, i as int);
            assert(ev[i as int] == es@[i as int]@);
        }
        let ghost before = entries_encoded(l, h, ev, order, i as nat)->Ok_0;
        match encode_entry(&g.entry, g.header.block_length, &es[i], order, out) {
            Ok(()) => {},
            Err(e) => {
                proof {
                    lemma_entries_encoded_fault(l, h, ev, order, i as nat + 1, es@.len() as nat);
                }
                return Err(e);
            },
        }
        if i as u64 >= max {
            proof {
                lemma_entries_encoded_fault(l, h, ev, order, i as nat + 1, es@.len() as nat);
            }
            return Err(SbeError::GroupOutOfBounds(String::from_str("num_in_group")));
        }
        i = i + 1;
        assert(out@ =~= old(out)@ + header@ + (before + entry_encoded(
            l,
            h.block_length as nat,
            ev[i - 1],
            order,
        )->Ok_0));
    }
    assert(out@ =~= old(out)@ + (header@ + entries_encoded(l, h, ev, order, es@.len() as nat)->Ok_0));
    Ok(())
}

/// The bytes of a message: its header, then its body.
pub fn encode_message(m: &MessageLayout, e: &Entry, order: ByteOrder) -> (r: Result<
    Vec<u8>,
    SbeError,
>)
    requires
        m@.wf(),
        entry_fits(m@.body, e@, false),
    ensures
        match r {
            Ok(bytes) => m@.encoded(e@, order) == Ok::<Seq<u8>, SbeFault>(bytes@),
            Err(err) => m@.encoded(e@, order) == Err::<Seq<u8>, SbeFault>(err@),
        },
{
    let mut out = zero_block(m.header_size);
    match m.header.encode(&mut out, order, m.block_length, m.template_id, m.schema_id, m.version) {
        Ok(()) => {},
        Err(err) => { return Err(err); },
    }
    match encode_entry(&m.body, m.block_length, e, order, &mut out) {
        Ok(()) => {},
        Err(err) => { return Err(err); },
    }
    Ok(out)
}

} // verus!
