//! The bytes that stand for a value, and the value that bytes stand for.

use crate::models::ByteOrder;
use crate::text::signed_decimal_text;
use crate::wire::buffer::{clamped, decode_unsigned, encode_unsigned, written};
use crate::wire::error::SbeFault;
use crate::wire::group::GroupLayoutView;
use crate::wire::scalar::{bytes_value, value_bytes, Primitive};
use crate::wire::tree::shape::zeros;
use crate::wire::tree::{
    BlockFieldView, EntryLayoutView, EntryView, GroupShapeView, MessageLayoutView,
};
use crate::wire::var_data::VarDataLayoutView;
use vstd::prelude::*;
use vstd::string::*;

verus! {

/// The block after the first `n` values have been written into their fields, one after
/// the other; absence is written as the null sentinel.  The first value that is
/// refused decides the fault.
pub open spec fn fields_stored(
    fields: Seq<BlockFieldView>,
    block: Seq<u8>,
    order: ByteOrder,
    values: Seq<Option<int>>,
    n: nat,
) -> Result<Seq<u8>, SbeFault>
    decreases n,
{
    if n == 0 || n > fields.len() || n > values.len() {
        Ok(block)
    } else {
        match fields_stored(fields, block, order, values, (n - 1) as nat) {
            Err(f) => Err(f),
            Ok(before) => fields[n - 1].field.encoded_optional(before, order, values[n - 1]),
        }
    }
}

/// The bytes of the first `n` elements, one after the other.
pub open spec fn elements_bytes(p: Primitive, elements: Seq<int>, order: ByteOrder, n: nat) -> Seq<u8>
    decreases n,
{
    if n == 0 || n > elements.len() {
        Seq::empty()
    } else {
        elements_bytes(p, elements, order, (n - 1) as nat) + value_bytes(p, elements[n - 1], order)
    }
}

/// Why the first `n` elements cannot all be written, if they cannot: an element that
/// is no ASCII character where only such are let in, or an element at an index that
/// the length prefix cannot tell.  The first element that is refused decides.
pub open spec fn elements_fault(l: VarDataLayoutView, elements: Seq<int>, n: nat) -> Option<SbeFault>
    decreases n,
{
    if n == 0 || n > elements.len() {
        None
    } else {
        match elements_fault(l, elements, (n - 1) as nat) {
            Some(f) => Some(f),
            None => if l.ascii_only && elements[n - 1] >= 128 {
                Some(SbeFault::InvalidStringValue(signed_decimal_text(elements[n - 1])))
            } else if n - 1 >= l.max_length() {
                Some(SbeFault::VarDataOutOfBounds(l.name))
            } else {
                None
            },
        }
    }
}

/// The bytes of a variable-length field: the number of its elements in the prefix, then
/// the elements.
pub open spec fn var_encoded(l: VarDataLayoutView, elements: Seq<int>, order: ByteOrder) -> Result<
    Seq<u8>,
    SbeFault,
> {
    match elements_fault(l, elements, elements.len()) {
        Some(f) => Err(f),
        None => Ok(
            encode_unsigned(elements.len(), l.prefix_size as nat, order) + elements_bytes(
                l.element,
                elements,
                order,
                elements.len(),
            ),
        ),
    }
}

/// The bytes of the first `n` variable-length fields, one after the other.
pub open spec fn var_data_encoded(
    layouts: Seq<VarDataLayoutView>,
    values: Seq<Seq<int>>,
    order: ByteOrder,
    n: nat,
) -> Result<Seq<u8>, SbeFault>
    decreases n,
{
    if n == 0 || n > layouts.len() || n > values.len() {
        Ok(Seq::empty())
    } else {
        match var_data_encoded(layouts, values, order, (n - 1) as nat) {
            Err(f) => Err(f),
            Ok(before) => match var_encoded(layouts[n - 1], values[n - 1], order) {
                Err(f) => Err(f),
                Ok(bytes) => Ok(before + bytes),
            },
        }
    }
}

/// The bytes of an entry with a fixed block of `block_length` bytes: the block, in
/// which every byte that no field covers is zero, then the groups, then the
/// variable-length fields.  The first part that is refused decides the fault.
pub open spec fn entry_encoded(
    l: EntryLayoutView,
    block_length: nat,
    e: EntryView,
    order: ByteOrder,
) -> Result<Seq<u8>, SbeFault>
    decreases l, 0nat, 0nat,
{
    match fields_stored(l.fields, zeros(block_length), order, e.values, l.fields.len()) {
        Err(f) => Err(f),
        Ok(block) => match groups_encoded(l.groups, e.groups, order, l.groups.len()) {
            Err(f) => Err(f),
            Ok(groups) => match var_data_encoded(l.var_data, e.var_data, order, l.var_data.len()) {
                Err(f) => Err(f),
                Ok(tail) => Ok(block + groups + tail),
            },
        },
    }
}

/// The bytes of the first `n` groups, one after the other.
pub open spec fn groups_encoded(
    gs: Seq<GroupShapeView>,
    lists: Seq<Seq<EntryView>>,
    order: ByteOrder,
    n: nat,
) -> Result<Seq<u8>, SbeFault>
    decreases gs, 0nat, n,
{
    if n == 0 || n > gs.len() || n > lists.len() {
        Ok(Seq::empty())
    } else {
        match groups_encoded(gs, lists, order, (n - 1) as nat) {
            Err(f) => Err(f),
            Ok(before) => match group_encoded(gs[n - 1], lists[n - 1], order) {
                Err(f) => Err(f),
                Ok(bytes) => Ok(before + bytes),
            },
        }
    }
}

/// The header of a group of `count` entries: the block length, then the number of
/// entries, then zeros up to the size of the header.
pub open spec fn group_header(h: GroupLayoutView, order: ByteOrder, count: nat) -> Seq<u8> {
    h.header_stored(zeros(h.dimension_size as nat), order, 0, count)
}

/// The bytes of a group: its header, then its entries.
pub open spec fn group_encoded(g: GroupShapeView, es: Seq<EntryView>, order: ByteOrder) -> Result<
    Seq<u8>,
    SbeFault,
>
    decreases g, 0nat, 0nat,
{
    match entries_encoded(g.entry, g.header, es, order, es.len()) {
        Err(f) => Err(f),
        Ok(bytes) => Ok(group_header(g.header, order, es.len()) + bytes),
    }
}

/// The bytes of the first `n` entries of a group, one after the other.  An entry is
/// written before it is counted: one entry more than the header can tell is refused
/// when it is complete.
pub open spec fn entries_encoded(
    l: EntryLayoutView,
    h: GroupLayoutView,
    es: Seq<EntryView>,
    order: ByteOrder,
    n: nat,
) -> Result<Seq<u8>, SbeFault>
    decreases l, 1nat, n,
{
    if n == 0 || n > es.len() {
        Ok(Seq::empty())
    } else {
        match entries_encoded(l, h, es, order, (n - 1) as nat) {
            Err(f) => Err(f),
            Ok(before) => match entry_encoded(l, h.block_length as nat, es[n - 1], order) {
                Err(f) => Err(f),
                Ok(bytes) => if n - 1 >= h.max_entries() {
                    Err(SbeFault::GroupOutOfBounds("num_in_group"@))
                } else {
                    Ok(before + bytes)
                },
            },
        }
    }
}

/// What reading the first `n` fields from a block yields.  The first field that cannot
/// be read decides the fault.
pub open spec fn fields_read(fields: Seq<BlockFieldView>, block: Seq<u8>, order: ByteOrder, n: nat) -> Result<
    Seq<Option<int>>,
    SbeFault,
>
    decreases n,
{
    if n == 0 || n > fields.len() {
        Ok(Seq::empty())
    } else {
        match fields_read(fields, block, order, (n - 1) as nat) {
            Err(f) => Err(f),
            Ok(before) => match fields[n - 1].read(block, order) {
                Err(f) => Err(f),
                Ok(v) => Ok(before.push(v)),
            },
        }
    }
}

/// The `n` elements that `bytes` hold side by side.
pub open spec fn elements_read(p: Primitive, bytes: Seq<u8>, order: ByteOrder, n: nat) -> Seq<int> {
    Seq::new(
        n,
        |i: int| bytes_value(p, bytes.subrange(i * p.width(), i * p.width() + p.width()), order),
    )
}

/// What reading a variable-length field from the start of `data` yields: its elements,
/// and the number of bytes that it takes.
pub open spec fn var_read(l: VarDataLayoutView, data: Seq<u8>, order: ByteOrder) -> Result<
    (Seq<int>, nat),
    SbeFault,
> {
    if l.prefix_size > data.len() {
        Err(SbeFault::CodecOutOfBounds(l.prefix_size, data.len() as usize))
    } else {
        let n = decode_unsigned(data.subrange(0, l.prefix_size as int), order);
        let size = l.prefix_size + n * l.element.width();
        if size > data.len() {
            Err(SbeFault::CodecOutOfBounds(clamped(size), data.len() as usize))
        } else {
            Ok((elements_read(l.element, data.subrange(l.prefix_size as int, size), order, n), size as nat))
        }
    }
}

/// What reading the first `n` variable-length fields from the start of `data` yields.
pub open spec fn var_data_read(
    layouts: Seq<VarDataLayoutView>,
    data: Seq<u8>,
    order: ByteOrder,
    n: nat,
) -> Result<(Seq<Seq<int>>, nat), SbeFault>
    decreases n,
{
    if n == 0 || n > layouts.len() {
        Ok((Seq::empty(), 0))
    } else {
        match var_data_read(layouts, data, order, (n - 1) as nat) {
            Err(f) => Err(f),
            Ok((before, used)) => match var_read(
                layouts[n - 1],
                data.subrange(used as int, data.len() as int),
                order,
            ) {
                Err(f) => Err(f),
                Ok((elements, size)) => Ok((before.push(elements), used + size)),
            },
        }
    }
}

/// What reading an entry with a fixed block of `block_length` bytes from the start of
/// `data` yields: its value, and the number of bytes that it takes.
pub open spec fn entry_read(
    l: EntryLayoutView,
    block_length: nat,
    data: Seq<u8>,
    order: ByteOrder,
) -> Result<(EntryView, nat), SbeFault>
    decreases l, 0nat, 0nat,
{
    if block_length > data.len() {
        Err(SbeFault::CodecOutOfBounds(clamped(block_length as int), data.len() as usize))
    } else {
        match fields_read(l.fields, data.subrange(0, block_length as int), order, l.fields.len()) {
            Err(f) => Err(f),
            Ok(values) => match groups_read(
                l.groups,
                data.subrange(block_length as int, data.len() as int),
                order,
                l.groups.len(),
            ) {
                Err(f) => Err(f),
                Ok((groups, used)) => match var_data_read(
                    l.var_data,
                    data.subrange((block_length + used) as int, data.len() as int),
                    order,
                    l.var_data.len(),
                ) {
                    Err(f) => Err(f),
                    Ok((var_data, size)) => Ok(
                        (EntryView { values, groups, var_data }, block_length + used + size),
                    ),
                },
            },
        }
    }
}

/// What reading the first `n` groups from the start of `data` yields.
pub open spec fn groups_read(gs: Seq<GroupShapeView>, data: Seq<u8>, order: ByteOrder, n: nat) -> Result<
    (Seq<Seq<EntryView>>, nat),
    SbeFault,
>
    decreases gs, 0nat, n,
{
    if n == 0 || n > gs.len() {
        Ok((Seq::empty(), 0))
    } else {
        match groups_read(gs, data, order, (n - 1) as nat) {
            Err(f) => Err(f),
            Ok((before, used)) => match group_read(
                gs[n - 1],
                data.subrange(used as int, data.len() as int),
                order,
            ) {
                Err(f) => Err(f),
                Ok((entries, size)) => Ok((before.push(entries), used + size)),
            },
        }
    }
}

/// What reading a group from the start of `data` yields.  The header tells the length
/// of the fixed blocks and the number of entries.
pub open spec fn group_read(g: GroupShapeView, data: Seq<u8>, order: ByteOrder) -> Result<
    (Seq<EntryView>, nat),
    SbeFault,
>
    decreases g, 0nat, 0nat,
{
    if g.header.dimension_size > data.len() {
        Err(SbeFault::CodecOutOfBounds(g.header.dimension_size, data.len() as usize))
    } else {
        match g.header.header_read(data.subrange(0, g.header.dimension_size as int), order, 0) {
            Err(f) => Err(f),
            Ok((block_length, count)) => match entries_read(
                g.entry,
                block_length as nat,
                data.subrange(g.header.dimension_size as int, data.len() as int),
                order,
                count as nat,
            ) {
                Err(f) => Err(f),
                Ok((entries, used)) => Ok((entries, (g.header.dimension_size + used) as nat)),
            },
        }
    }
}

/// What reading `n` entries, one after the other, from the start of `data` yields.
pub open spec fn entries_read(
    l: EntryLayoutView,
    block_length: nat,
    data: Seq<u8>,
    order: ByteOrder,
    n: nat,
) -> Result<(Seq<EntryView>, nat), SbeFault>
    decreases l, 1nat, n,
{
    if n == 0 {
        Ok((Seq::empty(), 0))
    } else {
        match entries_read(l, block_length, data, order, (n - 1) as nat) {
            Err(f) => Err(f),
            Ok((before, used)) => match entry_read(
                l,
                block_length,
                data.subrange(used as int, data.len() as int),
                order,
            ) {
                Err(f) => Err(f),
                Ok((entry, size)) => Ok((before.push(entry), used + size)),
            },
        }
    }
}

impl MessageLayoutView {
    /// The header and the body are well formed.
    pub open spec fn wf(self) -> bool {
        &&& self.header.wf()
        &&& self.body.wf(self.block_length as nat)
    }

    /// The header of the message as bytes.
    pub open spec fn header_encoded(self, order: ByteOrder) -> Result<Seq<u8>, SbeFault> {
        self.header.stored(
            zeros(self.header_size as nat),
            order,
            self.block_length as int,
            self.template_id as int,
            self.schema_id as int,
            self.version as int,
        )
    }

    /// The bytes of a message: its header, then its body.
    pub open spec fn encoded(self, e: EntryView, order: ByteOrder) -> Result<Seq<u8>, SbeFault> {
        match self.header_encoded(order) {
            Err(f) => Err(f),
            Ok(header) => match entry_encoded(self.body, self.block_length as nat, e, order) {
                Err(f) => Err(f),
                Ok(body) => Ok(header + body),
            },
        }
    }

    /// What reading a message from the start of `data` yields: its value, and the
    /// number of bytes that it takes.  A header that tells another template is refused
    /// before the body is looked at.
    pub open spec fn read(self, data: Seq<u8>, order: ByteOrder) -> Result<(EntryView, nat), SbeFault> {
        if self.header_size > data.len() {
            Err(SbeFault::CodecOutOfBounds(self.header_size, data.len() as usize))
        } else {
            match self.header.checked(
                data.subrange(0, self.header_size as int),
                order,
                self.template_id,
            ) {
                Err(f) => Err(f),
                Ok(()) => match entry_read(
                    self.body,
                    self.block_length as nat,
                    data.subrange(self.header_size as int, data.len() as int),
                    order,
                ) {
                    Err(f) => Err(f),
                    Ok((e, used)) => Ok((e, (self.header_size + used) as nat)),
                },
            }
        }
    }
}

/// A fault among the first fields is the fault of all.
pub proof fn lemma_fields_stored_fault(
    fields: Seq<BlockFieldView>,
    block: Seq<u8>,
    order: ByteOrder,
    values: Seq<Option<int>>,
    k: nat,
    n: nat,
)
    requires
        k <= n <= fields.len(),
        n <= values.len(),
        fields_stored(fields, block, order, values, k) is Err,
    ensures
        fields_stored(fields, block, order, values, n) == fields_stored(fields, block, order, values, k),
    decreases n - k,
{
    if k < n {
        lemma_fields_stored_fault(fields, block, order, values, k, (n - 1) as nat);
    }
}

/// A fault among the first elements is the fault of all.
pub proof fn lemma_elements_fault(l: VarDataLayoutView, elements: Seq<int>, k: nat, n: nat)
    requires
        k <= n <= elements.len(),
        elements_fault(l, elements, k) is Some,
    ensures
        elements_fault(l, elements, n) == elements_fault(l, elements, k),
    decreases n - k,
{
    if k < n {
        lemma_elements_fault(l, elements, k, (n - 1) as nat);
    }
}

/// A fault among the first variable-length fields is the fault of all.
pub proof fn lemma_var_data_encoded_fault(
    layouts: Seq<VarDataLayoutView>,
    values: Seq<Seq<int>>,
    order: ByteOrder,
    k: nat,
    n: nat,
)
    requires
        k <= n <= layouts.len(),
        n <= values.len(),
        var_data_encoded(layouts, values, order, k) is Err,
    ensures
        var_data_encoded(layouts, values, order, n) == var_data_encoded(layouts, values, order, k),
    decreases n - k,
{
    if k < n {
        lemma_var_data_encoded_fault(layouts, values, order, k, (n - 1) as nat);
    }
}

/// A fault among the first groups is the fault of all.
pub proof fn lemma_groups_encoded_fault(
    gs: Seq<GroupShapeView>,
    lists: Seq<Seq<EntryView>>,
    order: ByteOrder,
    k: nat,
    n: nat,
)
    requires
        k <= n <= gs.len(),
        n <= lists.len(),
        groups_encoded(gs, lists, order, k) is Err,
    ensures
        groups_encoded(gs, lists, order, n) == groups_encoded(gs, lists, order, k),
    decreases n - k,
{
    if k < n {
        lemma_groups_encoded_fault(gs, lists, order, k, (n - 1) as nat);
    }
}

/// A fault among the first entries is the fault of all.
pub proof fn lemma_entries_encoded_fault(
    l: EntryLayoutView,
    h: GroupLayoutView,
    es: Seq<EntryView>,
    order: ByteOrder,
    k: nat,
    n: nat,
)
    requires
        k <= n <= es.len(),
        entries_encoded(l, h, es, order, k) is Err,
    ensures
        entries_encoded(l, h, es, order, n) == entries_encoded(l, h, es, order, k),
    decreases n - k,
{
    if k < n {
        lemma_entries_encoded_fault(l, h, es, order, k, (n - 1) as nat);
    }
}

/// A fault among the first fields that are read is the fault of all.
pub proof fn lemma_fields_read_fault(
    fields: Seq<BlockFieldView>,
    block: Seq<u8>,
    order: ByteOrder,
    k: nat,
    n: nat,
)
    requires
        k <= n <= fields.len(),
        fields_read(fields, block, order, k) is Err,
    ensures
        fields_read(fields, block, order, n) == fields_read(fields, block, order, k),
    decreases n - k,
{
    if k < n {
        lemma_fields_read_fault(fields, block, order, k, (n - 1) as nat);
    }
}

/// A fault among the first variable-length fields that are read is the fault of all.
pub proof fn lemma_var_data_read_fault(
    layouts: Seq<VarDataLayoutView>,
    data: Seq<u8>,
    order: ByteOrder,
    k: nat,
    n: nat,
)
    requires
        k <= n <= layouts.len(),
        var_data_read(layouts, data, order, k) is Err,
    ensures
        var_data_read(layouts, data, order, n) == var_data_read(layouts, data, order, k),
    decreases n - k,
{
    if k < n {
        lemma_var_data_read_fault(layouts, data, order, k, (n - 1) as nat);
    }
}

/// A fault among the first groups that are read is the fault of all.
pub proof fn lemma_groups_read_fault(
    gs: Seq<GroupShapeView>,
    data: Seq<u8>,
    order: ByteOrder,
    k: nat,
    n: nat,
)
    requires
        k <= n <= gs.len(),
        groups_read(gs, data, order, k) is Err,
    ensures
        groups_read(gs, data, order, n) == groups_read(gs, data, order, k),
    decreases n - k,
{
    if k < n {
        lemma_groups_read_fault(gs, data, order, k, (n - 1) as nat);
    }
}

/// A fault among the first entries that are read is the fault of all.
pub proof fn lemma_entries_read_fault(
    l: EntryLayoutView,
    block_length: nat,
    data: Seq<u8>,
    order: ByteOrder,
    k: nat,
    n: nat,
)
    requires
        k <= n,
        entries_read(l, block_length, data, order, k) is Err,
    ensures
        entries_read(l, block_length, data, order, n) == entries_read(l, block_length, data, order, k),
    decreases n - k,
{
    if k < n {
        lemma_entries_read_fault(l, block_length, data, order, k, (n - 1) as nat);
    }
}

} // verus!
