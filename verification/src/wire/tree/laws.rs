//! What holds of the bytes of every value: what was written is read back, one field
//! changes its own bytes only, and another template is refused.

use crate::models::ByteOrder;
use crate::wire::buffer::{
    encode_unsigned, lemma_encoded_len, lemma_pow256_values, lemma_unsigned_round_trip,
    lemma_written_then_read, written,
};
use crate::wire::error::SbeFault;
use crate::wire::group::GroupLayoutView;
use crate::wire::message::{apart, lemma_template_checked, HeaderLayoutView};
use crate::wire::scalar::{
    lemma_decoded_by_own_bytes, lemma_optional_round_trip, lemma_scalar_round_trip,
    lemma_value_round_trip, value_bytes, Primitive,
};
use crate::wire::tree::bytes::{
    elements_bytes, elements_fault, elements_read, entries_encoded, entries_read, entry_encoded,
    entry_read, fields_read, fields_stored, group_encoded, group_header, group_read, groups_encoded,
    groups_read, var_data_encoded, var_data_read, var_encoded, var_read,
};
use crate::wire::tree::shape::{
    elements_fit, entries_fit, entry_fits, fields_wf, groups_fit, groups_wf, values_fit,
    var_data_fit, var_data_wf, zeros,
};
use crate::wire::tree::{
    BlockFieldView, EntryLayoutView, EntryView, GroupShapeView, MessageLayoutView,
};
use crate::wire::var_data::VarDataLayoutView;
use vstd::prelude::*;
use vstd::string::*;

verus! {

/// The parts of a concatenation of two, and of what follows them.
pub proof fn lemma_two_parts(a: Seq<u8>, b: Seq<u8>, rest: Seq<u8>)
    ensures
        ({
            let data = (a + b) + rest;
            &&& data.len() == a.len() + b.len() + rest.len()
            &&& (a + b).len() == a.len() + b.len()
            &&& data == a + (b + rest)
            &&& data.subrange(0, a.len() as int) == a
            &&& data.subrange(a.len() as int, data.len() as int) == b + rest
        }),
{
    let data = (a + b) + rest;
    assert(data =~= a + (b + rest));
    assert(data.subrange(0, a.len() as int) =~= a);
    assert(data.subrange(a.len() as int, data.len() as int) =~= b + rest);
}

/// The parts of a concatenation of three, and of what follows them.
pub proof fn lemma_three_parts(a: Seq<u8>, b: Seq<u8>, c: Seq<u8>, rest: Seq<u8>)
    ensures
        ({
            let data = ((a + b) + c) + rest;
            &&& data.len() == a.len() + b.len() + c.len() + rest.len()
            &&& ((a + b) + c).len() == a.len() + b.len() + c.len()
            &&& data.subrange(0, a.len() as int) == a
            &&& data.subrange(a.len() as int, data.len() as int) == b + (c + rest)
            &&& data.subrange((a.len() + b.len()) as int, data.len() as int) == c + rest
        }),
{
    let data = ((a + b) + c) + rest;
    assert(data.subrange(0, a.len() as int) =~= a);
    assert(data.subrange(a.len() as int, data.len() as int) =~= b + (c + rest));
    assert(data.subrange((a.len() + b.len()) as int, data.len() as int) =~= c + rest);
}

/// Writing into the fields of a block keeps the length of the block.
pub proof fn lemma_fields_stored_len(
    fields: Seq<BlockFieldView>,
    block: Seq<u8>,
    order: ByteOrder,
    values: Seq<Option<int>>,
    n: nat,
)
    requires
        fields_stored(fields, block, order, values, n) is Ok,
    ensures
        fields_stored(fields, block, order, values, n)->Ok_0.len() == block.len(),
    decreases n,
{
    if !(n == 0 || n > fields.len() || n > values.len()) {
        lemma_fields_stored_len(fields, block, order, values, (n - 1) as nat);
        let before = fields_stored(fields, block, order, values, (n - 1) as nat)->Ok_0;
        let f = fields[n - 1].field;
        let x = match values[n - 1] {
            Some(x) => x,
            None => f.null_value,
        };
        lemma_encoded_len(f.primitive.raw(x), f.primitive.width(), order);
        lemma_written_then_read(before, f.offset as int, value_bytes(f.primitive, x, order));
    }
}

/// Round trip of one field of a block: when values have been written into fields that
/// share no byte, each of the first `n` fields reads the value that was written into
/// it.
pub proof fn lemma_field_round_trip(
    fields: Seq<BlockFieldView>,
    block: Seq<u8>,
    order: ByteOrder,
    values: Seq<Option<int>>,
    n: nat,
    i: int,
)
    requires
        fields_wf(fields, block.len()),
        values_fit(fields, values, true),
        n <= fields.len(),
        0 <= i < n,
        fields_stored(fields, block, order, values, n) is Ok,
    ensures
        fields[i].read(fields_stored(fields, block, order, values, n)->Ok_0, order) == Ok::<
            Option<int>,
            SbeFault,
        >(values[i]),
    decreases n,
{
    let before = fields_stored(fields, block, order, values, (n - 1) as nat)->Ok_0;
    let after = fields_stored(fields, block, order, values, n)->Ok_0;
    let last = fields[n - 1];
    let f = last.field;
    let v = values[n - 1];
    let x = match v {
        Some(x) => x,
        None => f.null_value,
    };
    assert(last.wf(block.len()));
    assert(last.fits(v, true));
    lemma_fields_stored_len(fields, block, order, values, (n - 1) as nat);
    lemma_encoded_len(f.primitive.raw(x), f.primitive.width(), order);
    lemma_written_then_read(before, f.offset as int, value_bytes(f.primitive, x, order));
    if i == n - 1 {
        if last.optional {
            lemma_optional_round_trip(f, before, order, v);
        } else {
            lemma_scalar_round_trip(f, before, order, x);
        }
    } else {
        lemma_field_round_trip(fields, block, order, values, (n - 1) as nat, i);
        assert(apart(fields[i].field, f));
        assert(fields[i].wf(block.len()));
        lemma_decoded_by_own_bytes(fields[i].field, after, before, order);
    }
}

/// Round trip of a block: the fields read, one after the other, the values that were
/// written.
pub proof fn lemma_block_values_round_trip(
    fields: Seq<BlockFieldView>,
    block: Seq<u8>,
    order: ByteOrder,
    values: Seq<Option<int>>,
    n: nat,
)
    requires
        fields_wf(fields, block.len()),
        values_fit(fields, values, true),
        n <= fields.len(),
        fields_stored(fields, block, order, values, fields.len()) is Ok,
    ensures
        fields_read(
            fields,
            fields_stored(fields, block, order, values, fields.len())->Ok_0,
            order,
            n,
        ) == Ok::<Seq<Option<int>>, SbeFault>(values.subrange(0, n as int)),
    decreases n,
{
    let stored = fields_stored(fields, block, order, values, fields.len())->Ok_0;
    if n == 0 {
        assert(values.subrange(0, 0) =~= Seq::<Option<int>>::empty());
    } else {
        lemma_block_values_round_trip(fields, block, order, values, (n - 1) as nat);
        lemma_field_round_trip(fields, block, order, values, fields.len(), n - 1);
        assert(values.subrange(0, n - 1).push(values[n - 1]) =~= values.subrange(0, n as int));
    }
}

/// The bytes of `n` elements are `n` times as many as the bytes of one, and each
/// element stands at its place among them.
pub proof fn lemma_elements_bytes(p: Primitive, elements: Seq<int>, order: ByteOrder, n: nat, i: int)
    requires
        n <= elements.len(),
        0 <= i < n,
    ensures
        elements_bytes(p, elements, order, n).len() == n * p.width(),
        0 <= i * p.width(),
        i * p.width() + p.width() <= n * p.width(),
        elements_bytes(p, elements, order, n).subrange(i * p.width(), i * p.width() + p.width())
            == value_bytes(p, elements[i], order),
    decreases n,
{
    let w = p.width();
    let before = elements_bytes(p, elements, order, (n - 1) as nat);
    let last = value_bytes(p, elements[n - 1], order);
    lemma_encoded_len(p.raw(elements[n - 1]), w, order);
    lemma_elements_bytes_len(p, elements, order, (n - 1) as nat);
    assert((n - 1) * w + w == n * w) by (nonlinear_arith);
    assert(0 <= i * w && i * w + w <= n * w) by (nonlinear_arith)
        requires
            0 <= i < n,
            w >= 0,
    ;
    if i == n - 1 {
        assert((before + last).subrange(i * w, i * w + w) =~= last);
    } else {
        lemma_elements_bytes(p, elements, order, (n - 1) as nat, i);
        assert(i * w + w <= (n - 1) * w) by (nonlinear_arith)
            requires
                0 <= i < n - 1,
                w >= 0,
        ;
        assert((before + last).subrange(i * w, i * w + w) =~= before.subrange(i * w, i * w + w));
    }
}

/// The bytes of `n` elements are `n` times as many as the bytes of one.
pub proof fn lemma_elements_bytes_len(p: Primitive, elements: Seq<int>, order: ByteOrder, n: nat)
    requires
        n <= elements.len(),
    ensures
        elements_bytes(p, elements, order, n).len() == n * p.width(),
    decreases n,
{
    let w = p.width();
    if n > 0 {
        lemma_elements_bytes_len(p, elements, order, (n - 1) as nat);
        lemma_encoded_len(p.raw(elements[n - 1]), w, order);
        assert((n - 1) * w + w == n * w) by (nonlinear_arith);
    } else {
        assert(0 * w == 0) by (nonlinear_arith);
    }
}

/// Elements that can all be written are no more than the length prefix can tell.
pub proof fn lemma_elements_counted(l: VarDataLayoutView, elements: Seq<int>, n: nat)
    requires
        n <= elements.len(),
        elements_fault(l, elements, n) is None,
    ensures
        n <= l.max_length(),
{
}

/// Round trip of a variable-length field: the bytes of its elements, whatever follows
/// them, are read as those elements, and as many bytes are taken as were written.
pub proof fn lemma_var_round_trip(
    l: VarDataLayoutView,
    elements: Seq<int>,
    order: ByteOrder,
    rest: Seq<u8>,
)
    requires
        l.wf(),
        elements_fit(l.element, elements),
        var_encoded(l, elements, order) is Ok,
    ensures
        var_read(l, var_encoded(l, elements, order)->Ok_0 + rest, order) == Ok::<
            (Seq<int>, nat),
            SbeFault,
        >((elements, var_encoded(l, elements, order)->Ok_0.len())),
{
    let n = elements.len();
    let w = l.element.width();
    let prefix = encode_unsigned(n, l.prefix_size as nat, order);
    let body = elements_bytes(l.element, elements, order, n);
    let data = (prefix + body) + rest;
    lemma_elements_counted(l, elements, n);
    lemma_pow256_values();
    lemma_encoded_len(n, l.prefix_size as nat, order);
    lemma_unsigned_round_trip(n, l.prefix_size as nat, order);
    lemma_elements_bytes_len(l.element, elements, order, n);
    assert(data.subrange(0, l.prefix_size as int) =~= prefix);
    let size = l.prefix_size + n * w;
    assert(data.subrange(l.prefix_size as int, size) =~= body);
    let read = elements_read(l.element, body, order, n);
    assert forall|i: int| 0 <= i < n implies read[i] == elements[i] by {
        lemma_elements_bytes(l.element, elements, order, n, i);
        lemma_value_round_trip(l.element, elements[i], order);
    }
    assert(read =~= elements);
}

/// Round trip of the variable-length fields of an entry.
pub proof fn lemma_var_data_read_back(
    layouts: Seq<VarDataLayoutView>,
    values: Seq<Seq<int>>,
    order: ByteOrder,
    n: nat,
    rest: Seq<u8>,
)
    requires
        var_data_wf(layouts),
        var_data_fit(layouts, values),
        n <= layouts.len(),
        var_data_encoded(layouts, values, order, n) is Ok,
    ensures
        var_data_read(layouts, var_data_encoded(layouts, values, order, n)->Ok_0 + rest, order, n)
            == Ok::<(Seq<Seq<int>>, nat), SbeFault>(
            (values.subrange(0, n as int), var_data_encoded(layouts, values, order, n)->Ok_0.len()),
        ),
    decreases n,
{
    if n == 0 {
        assert(values.subrange(0, 0) =~= Seq::<Seq<int>>::empty());
    } else {
        let before = var_data_encoded(layouts, values, order, (n - 1) as nat)->Ok_0;
        let last = var_encoded(layouts[n - 1], values[n - 1], order)->Ok_0;
        let data = (before + last) + rest;
        lemma_two_parts(before, last, rest);
        lemma_var_data_read_back(layouts, values, order, (n - 1) as nat, last + rest);
        assert(layouts[n - 1].wf());
        lemma_var_round_trip(layouts[n - 1], values[n - 1], order, rest);
        assert(values.subrange(0, n - 1).push(values[n - 1]) =~= values.subrange(0, n as int));
    }
}

/// Round trip of an entry: its bytes, whatever follows them, are read as the entry that
/// was written, and as many bytes are taken as were written.  The entry may hold groups
/// within groups to any depth.
#[verifier::rlimit(60)]
pub proof fn lemma_entry_round_trip(
    l: EntryLayoutView,
    block_length: nat,
    e: EntryView,
    order: ByteOrder,
    rest: Seq<u8>,
)
    requires
        l.wf(block_length),
        entry_fits(l, e, true),
        entry_encoded(l, block_length, e, order) is Ok,
    ensures
        entry_read(l, block_length, entry_encoded(l, block_length, e, order)->Ok_0 + rest, order)
            == Ok::<(EntryView, nat), SbeFault>(
            (e, entry_encoded(l, block_length, e, order)->Ok_0.len()),
        ),
    decreases l, 0nat, 0nat,
{
    let block = fields_stored(l.fields, zeros(block_length), order, e.values, l.fields.len())->Ok_0;
    let groups = groups_encoded(l.groups, e.groups, order, l.groups.len())->Ok_0;
    let tail = var_data_encoded(l.var_data, e.var_data, order, l.var_data.len())->Ok_0;
    let data = ((block + groups) + tail) + rest;
    lemma_fields_stored_len(l.fields, zeros(block_length), order, e.values, l.fields.len());
    lemma_three_parts(block, groups, tail, rest);
    lemma_block_values_round_trip(l.fields, zeros(block_length), order, e.values, l.fields.len());
    assert(e.values.subrange(0, l.fields.len() as int) =~= e.values);
    lemma_groups_round_trip(l.groups, e.groups, order, l.groups.len(), tail + rest);
    assert(e.groups.subrange(0, l.groups.len() as int) =~= e.groups);
    lemma_var_data_read_back(l.var_data, e.var_data, order, l.var_data.len(), rest);
    assert(e.var_data.subrange(0, l.var_data.len() as int) =~= e.var_data);
    assert(fields_read(l.fields, data.subrange(0, block_length as int), order, l.fields.len())
        == Ok::<Seq<Option<int>>, SbeFault>(e.values));
    assert(groups_read(
        l.groups,
        data.subrange(block_length as int, data.len() as int),
        order,
        l.groups.len(),
    ) == Ok::<(Seq<Seq<EntryView>>, nat), SbeFault>((e.groups, groups.len())));
    assert(var_data_read(
        l.var_data,
        data.subrange((block_length + groups.len()) as int, data.len() as int),
        order,
        l.var_data.len(),
    ) == Ok::<(Seq<Seq<int>>, nat), SbeFault>((e.var_data, tail.len())));
}

/// Entries that can all be written are no more than the header can tell.
pub proof fn lemma_entries_counted(
    l: EntryLayoutView,
    h: GroupLayoutView,
    es: Seq<EntryView>,
    order: ByteOrder,
    n: nat,
)
    requires
        n <= es.len(),
        entries_encoded(l, h, es, order, n) is Ok,
    ensures
        n <= h.max_entries(),
{
}

/// The header of a group is as large as the layout says, and tells the block length
/// and the number of entries that were written into it.
pub proof fn lemma_group_header_read(h: GroupLayoutView, order: ByteOrder, count: nat)
    requires
        h.wf(),
        count <= h.max_entries(),
        count <= usize::MAX,
    ensures
        group_header(h, order, count).len() == h.dimension_size,
        h.header_read(group_header(h, order, count), order, 0) == Ok::<(usize, usize), SbeFault>(
            (h.block_length, count as usize),
        ),
{
    crate::wire::group::lemma_group_header_round_trip(
        h,
        zeros(h.dimension_size as nat),
        order,
        0,
        count,
    );
}

/// Round trip of the groups of an entry.
#[verifier::rlimit(60)]
pub proof fn lemma_groups_round_trip(
    gs: Seq<GroupShapeView>,
    lists: Seq<Seq<EntryView>>,
    order: ByteOrder,
    n: nat,
    rest: Seq<u8>,
)
    requires
        groups_wf(gs, n),
        n <= gs.len(),
        n <= lists.len(),
        groups_fit(gs, lists, true, n),
        groups_encoded(gs, lists, order, n) is Ok,
    ensures
        groups_read(gs, groups_encoded(gs, lists, order, n)->Ok_0 + rest, order, n) == Ok::<
            (Seq<Seq<EntryView>>, nat),
            SbeFault,
        >((lists.subrange(0, n as int), groups_encoded(gs, lists, order, n)->Ok_0.len())),
    decreases gs, 0nat, n,
{
    if n == 0 {
        assert(lists.subrange(0, 0) =~= Seq::<Seq<EntryView>>::empty());
    } else {
        let before = groups_encoded(gs, lists, order, (n - 1) as nat)->Ok_0;
        let last = group_encoded(gs[n - 1], lists[n - 1], order)->Ok_0;
        let data = (before + last) + rest;
        lemma_two_parts(before, last, rest);
        lemma_groups_round_trip(gs, lists, order, (n - 1) as nat, last + rest);
        lemma_group_tree_round_trip(gs[n - 1], lists[n - 1], order, rest);
        assert(lists.subrange(0, n - 1).push(lists[n - 1]) =~= lists.subrange(0, n as int));
    }
}

/// Group iteration: the bytes of a group of `k` entries, whatever follows them, are
/// read as exactly those `k` entries in their order, and as many bytes are taken as
/// were written.
#[verifier::rlimit(60)]
pub proof fn lemma_group_tree_round_trip(
    g: GroupShapeView,
    es: Seq<EntryView>,
    order: ByteOrder,
    rest: Seq<u8>,
)
    requires
        g.wf(),
        es.len() <= usize::MAX,
        entries_fit(g.entry, es, true, es.len()),
        group_encoded(g, es, order) is Ok,
    ensures
        group_read(g, group_encoded(g, es, order)->Ok_0 + rest, order) == Ok::<
            (Seq<EntryView>, nat),
            SbeFault,
        >((es, group_encoded(g, es, order)->Ok_0.len())),
    decreases g, 0nat, 0nat,
{
    let h = g.header;
    let header = group_header(h, order, es.len());
    let body = entries_encoded(g.entry, h, es, order, es.len())->Ok_0;
    let data = (header + body) + rest;
    lemma_entries_counted(g.entry, h, es, order, es.len());
    lemma_group_header_read(h, order, es.len());
    lemma_two_parts(header, body, rest);
    lemma_entries_round_trip(g.entry, h, es, order, es.len(), rest);
    assert(es.subrange(0, es.len() as int) =~= es);
    assert(h.header_read(data.subrange(0, h.dimension_size as int), order, 0) == Ok::<
        (usize, usize),
        SbeFault,
    >((h.block_length, es.len() as usize)));
    assert(entries_read(
        g.entry,
        h.block_length as nat,
        data.subrange(h.dimension_size as int, data.len() as int),
        order,
        es.len(),
    ) == Ok::<(Seq<EntryView>, nat), SbeFault>((es, body.len())));
}

/// Round trip of the entries of a group.
#[verifier::rlimit(60)]
pub proof fn lemma_entries_round_trip(
    l: EntryLayoutView,
    h: GroupLayoutView,
    es: Seq<EntryView>,
    order: ByteOrder,
    n: nat,
    rest: Seq<u8>,
)
    requires
        l.wf(h.block_length as nat),
        n <= es.len(),
        entries_fit(l, es, true, n),
        entries_encoded(l, h, es, order, n) is Ok,
    ensures
        entries_read(
            l,
            h.block_length as nat,
            entries_encoded(l, h, es, order, n)->Ok_0 + rest,
            order,
            n,
        ) == Ok::<(Seq<EntryView>, nat), SbeFault>(
            (es.subrange(0, n as int), entries_encoded(l, h, es, order, n)->Ok_0.len()),
        ),
    decreases l, 1nat, n,
{
    if n == 0 {
        assert(es.subrange(0, 0) =~= Seq::<EntryView>::empty());
    } else {
        let before = entries_encoded(l, h, es, order, (n - 1) as nat)->Ok_0;
        let last = entry_encoded(l, h.block_length as nat, es[n - 1], order)->Ok_0;
        let data = (before + last) + rest;
        lemma_two_parts(before, last, rest);
        lemma_entries_round_trip(l, h, es, order, (n - 1) as nat, last + rest);
        lemma_entry_round_trip(l, h.block_length as nat, es[n - 1], order, rest);
        assert(es.subrange(0, n - 1).push(es[n - 1]) =~= es.subrange(0, n as int));
    }
}

/// Writing a header keeps the length of the buffer.
pub proof fn lemma_header_stored_len(
    h: HeaderLayoutView,
    data: Seq<u8>,
    order: ByteOrder,
    block_length: int,
    template_id: int,
    schema_id: int,
    version: int,
)
    requires
        h.stored(data, order, block_length, template_id, schema_id, version) is Ok,
    ensures
        h.stored(data, order, block_length, template_id, schema_id, version)->Ok_0.len()
            == data.len(),
{
    let a = crate::wire::message::header_field_stored(h.block_length, data, order, block_length)->Ok_0;
    let b = crate::wire::message::header_field_stored(h.template_id, a, order, template_id)->Ok_0;
    let c = crate::wire::message::header_field_stored(h.schema_id, b, order, schema_id)->Ok_0;
    lemma_scalar_round_trip(h.block_length, data, order, block_length);
    lemma_scalar_round_trip(h.template_id, a, order, template_id);
    lemma_scalar_round_trip(h.schema_id, b, order, schema_id);
    lemma_scalar_round_trip(h.version, c, order, version);
}

/// Round trip of a message: for every value of the shape of the message that can be
/// written, reading the bytes that were written, whatever follows them, yields that
/// value and the number of the bytes.  The value may hold absent optional fields,
/// groups within groups to any depth, and variable-length fields of any primitive.
#[verifier::rlimit(60)]
pub proof fn lemma_message_value_round_trip(
    m: MessageLayoutView,
    e: EntryView,
    order: ByteOrder,
    rest: Seq<u8>,
)
    requires
        m.wf(),
        entry_fits(m.body, e, true),
        m.encoded(e, order) is Ok,
    ensures
        m.read(m.encoded(e, order)->Ok_0 + rest, order) == Ok::<(EntryView, nat), SbeFault>(
            (e, m.encoded(e, order)->Ok_0.len()),
        ),
{
    let header = m.header_encoded(order)->Ok_0;
    let body = entry_encoded(m.body, m.block_length as nat, e, order)->Ok_0;
    let data = (header + body) + rest;
    lemma_header_stored_len(
        m.header,
        zeros(m.header_size as nat),
        order,
        m.block_length as int,
        m.template_id as int,
        m.schema_id as int,
        m.version as int,
    );
    lemma_template_checked(
        m.header,
        zeros(m.header_size as nat),
        order,
        m.block_length as int,
        m.template_id,
        m.schema_id as int,
        m.version as int,
        m.template_id,
    );
    lemma_two_parts(header, body, rest);
    lemma_entry_round_trip(m.body, m.block_length as nat, e, order, rest);
}

/// Template mismatch: the bytes of a message of one template are refused by the reader
/// of a message of another template that has the same header, with `WrongMessageType`
/// of the id that was written and the id that was expected.
pub proof fn lemma_other_template_refused(
    written_as: MessageLayoutView,
    read_as: MessageLayoutView,
    e: EntryView,
    order: ByteOrder,
    rest: Seq<u8>,
)
    requires
        written_as.header.wf(),
        written_as.header == read_as.header,
        written_as.header_size == read_as.header_size,
        written_as.template_id != read_as.template_id,
        written_as.encoded(e, order) is Ok,
    ensures
        read_as.read(written_as.encoded(e, order)->Ok_0 + rest, order) == Err::<
            (EntryView, nat),
            SbeFault,
        >(SbeFault::WrongMessageType(written_as.template_id, read_as.template_id)),
{
    let m = written_as;
    let header = m.header_encoded(order)->Ok_0;
    let body = entry_encoded(m.body, m.block_length as nat, e, order)->Ok_0;
    let data = (header + body) + rest;
    lemma_header_stored_len(
        m.header,
        zeros(m.header_size as nat),
        order,
        m.block_length as int,
        m.template_id as int,
        m.schema_id as int,
        m.version as int,
    );
    lemma_template_checked(
        m.header,
        zeros(m.header_size as nat),
        order,
        m.block_length as int,
        m.template_id,
        m.schema_id as int,
        m.version as int,
        read_as.template_id,
    );
    lemma_two_parts(header, body, rest);
}

/// Offset locality of a block: two lists of values that differ in the value of one
/// field only give blocks that differ in the bytes of that field only.
pub proof fn lemma_block_field_locality(
    fields: Seq<BlockFieldView>,
    block: Seq<u8>,
    order: ByteOrder,
    first: Seq<Option<int>>,
    second: Seq<Option<int>>,
    i: int,
    n: nat,
)
    requires
        fields_wf(fields, block.len()),
        values_fit(fields, first, false),
        values_fit(fields, second, false),
        0 <= i < fields.len(),
        n <= fields.len(),
        forall|j: int| 0 <= j < fields.len() && j != i ==> first[j] == second[j],
        fields_stored(fields, block, order, first, n) is Ok,
        fields_stored(fields, block, order, second, n) is Ok,
    ensures
        ({
            let a = fields_stored(fields, block, order, first, n)->Ok_0;
            let b = fields_stored(fields, block, order, second, n)->Ok_0;
            let f = fields[i].field;
            &&& a.len() == block.len()
            &&& b.len() == block.len()
            &&& forall|k: int|
                0 <= k < block.len() && !(f.offset <= k < f.offset + f.primitive.width()) ==> a[k]
                    == b[k]
        }),
    decreases n,
{
    lemma_fields_stored_len(fields, block, order, first, n);
    lemma_fields_stored_len(fields, block, order, second, n);
    if n > 0 {
        lemma_block_field_locality(fields, block, order, first, second, i, (n - 1) as nat);
        lemma_fields_stored_len(fields, block, order, first, (n - 1) as nat);
        lemma_fields_stored_len(fields, block, order, second, (n - 1) as nat);
        let before_a = fields_stored(fields, block, order, first, (n - 1) as nat)->Ok_0;
        let before_b = fields_stored(fields, block, order, second, (n - 1) as nat)->Ok_0;
        let a = fields_stored(fields, block, order, first, n)->Ok_0;
        let b = fields_stored(fields, block, order, second, n)->Ok_0;
        let g = fields[n - 1].field;
        let f = fields[i].field;
        let x = match first[n - 1] {
            Some(x) => x,
            None => g.null_value,
        };
        let y = match second[n - 1] {
            Some(y) => y,
            None => g.null_value,
        };
        let w = g.primitive.width();
        assert(fields[n - 1].wf(block.len()));
        lemma_encoded_len(g.primitive.raw(x), w, order);
        lemma_encoded_len(g.primitive.raw(y), w, order);
        lemma_written_then_read(before_a, g.offset as int, value_bytes(g.primitive, x, order));
        lemma_written_then_read(before_b, g.offset as int, value_bytes(g.primitive, y, order));
        assert forall|k: int|
            0 <= k < block.len() && !(f.offset <= k < f.offset + f.primitive.width()) implies a[k]
                == b[k] by {
            if g.offset <= k < g.offset + w {
                assert(n - 1 != i);
                assert(x == y);
                assert(a[k] == a.subrange(g.offset as int, g.offset + w)[k - g.offset]);
                assert(b[k] == b.subrange(g.offset as int, g.offset + w)[k - g.offset]);
            }
        }
    }
}

/// Offset locality of a message: two values that differ in one field of the fixed block
/// only are written as bytes of the same number that differ in the bytes of that field
/// only, which stand at the offset of the field behind the header.
pub proof fn lemma_message_field_locality(
    m: MessageLayoutView,
    first: EntryView,
    second: EntryView,
    order: ByteOrder,
    i: int,
)
    requires
        m.wf(),
        entry_fits(m.body, first, false),
        entry_fits(m.body, second, false),
        0 <= i < m.body.fields.len(),
        first.groups == second.groups,
        first.var_data == second.var_data,
        forall|j: int| 0 <= j < m.body.fields.len() && j != i ==> first.values[j] == second.values[j],
        m.encoded(first, order) is Ok,
        m.encoded(second, order) is Ok,
    ensures
        ({
            let a = m.encoded(first, order)->Ok_0;
            let b = m.encoded(second, order)->Ok_0;
            let f = m.body.fields[i].field;
            let at = m.header_size + f.offset;
            &&& a.len() == b.len()
            &&& forall|k: int|
                0 <= k < a.len() && !(at <= k < at + f.primitive.width()) ==> a[k] == b[k]
        }),
{
    let l = m.body;
    let zero = zeros(m.block_length as nat);
    let header = m.header_encoded(order)->Ok_0;
    let block_a = fields_stored(l.fields, zero, order, first.values, l.fields.len())->Ok_0;
    let block_b = fields_stored(l.fields, zero, order, second.values, l.fields.len())->Ok_0;
    let groups = groups_encoded(l.groups, first.groups, order, l.groups.len())->Ok_0;
    let tail = var_data_encoded(l.var_data, first.var_data, order, l.var_data.len())->Ok_0;
    lemma_block_field_locality(l.fields, zero, order, first.values, second.values, i, l.fields.len());
    let a = header + ((block_a + groups) + tail);
    let b = header + ((block_b + groups) + tail);
    assert(m.encoded(first, order)->Ok_0 == a);
    assert(m.encoded(second, order)->Ok_0 == b);
    let f = l.fields[i].field;
    let at = m.header_size + f.offset;
    lemma_header_stored_len(
        m.header,
        zeros(m.header_size as nat),
        order,
        m.block_length as int,
        m.template_id as int,
        m.schema_id as int,
        m.version as int,
    );
    assert forall|k: int| 0 <= k < a.len() && !(at <= k < at + f.primitive.width()) implies a[k]
        == b[k] by {
        if k >= header.len() && k < header.len() + zero.len() {
            assert(a[k] == block_a[k - header.len()]);
            assert(b[k] == block_b[k - header.len()]);
        }
    }
}

} // verus!
