//! Repeating groups on the wire: a dimension header with the block length and the number
//! of entries, then the entries.  An entry is its fixed block, followed by its nested
//! groups and variable-length fields, whose sizes are only known once they were walked.

use crate::models::ByteOrder;
use crate::wire::buffer::{
    access_end, decode_unsigned, encode_unsigned, get_unsigned_at, in_bounds, lemma_encoded_len,
    lemma_unsigned_round_trip, lemma_written_elsewhere, lemma_written_then_read, pow256,
    put_unsigned_at, written,
};
use crate::wire::error::{SbeError, SbeFault};
use crate::wire::scalar::ScalarFieldView;
use crate::wire::var_data::lemma_pow256_prefix;
use vstd::prelude::*;
use vstd::string::*;

verus! {

/// A nested group or variable-length field of an entry.
#[derive(Debug, Clone, PartialEq, Eq)]
pub struct NestedName {
    pub name: String,
    pub is_group: bool,
}

/// The mathematical content of a [`NestedName`].
pub struct NestedNameView {
    pub name: Seq<char>,
    pub is_group: bool,
}

impl View for NestedName {
    type V = NestedNameView;

    open spec fn view(&self) -> NestedNameView {
        NestedNameView { name: self.name@, is_group: self.is_group }
    }
}

/// How a group is laid out.
#[derive(Debug, Clone, PartialEq, Eq)]
pub struct GroupLayout {
    pub name: String,
    /// The size of the dimension header.
    pub dimension_size: usize,
    /// The width of the block length, which stands first in the header.
    pub block_length_size: usize,
    /// The width of the number of entries, which follows the block length.
    pub num_in_group_size: usize,
    /// The size of the fixed block of an entry.
    pub block_length: usize,
    /// The nested groups, then the variable-length fields, in declared order.
    pub nested: Vec<NestedName>,
}

/// The mathematical content of a [`GroupLayout`].
pub struct GroupLayoutView {
    pub name: Seq<char>,
    pub dimension_size: usize,
    pub block_length_size: usize,
    pub num_in_group_size: usize,
    pub block_length: usize,
    pub nested: Seq<NestedNameView>,
}

impl View for GroupLayout {
    type V = GroupLayoutView;

    open spec fn view(&self) -> GroupLayoutView {
        GroupLayoutView {
            name: self.name@,
            dimension_size: self.dimension_size,
            block_length_size: self.block_length_size,
            num_in_group_size: self.num_in_group_size,
            block_length: self.block_length,
            nested: self.nested@.map_values(|n: NestedName| n@),
        }
    }
}

impl GroupLayoutView {
    /// Both numbers of the header are one to eight bytes wide and fit in the header, and
    /// the block length fits in its primitive.
    pub open spec fn wf(self) -> bool {
        &&& 1 <= self.block_length_size <= 8
        &&& 1 <= self.num_in_group_size <= 8
        &&& self.block_length_size + self.num_in_group_size <= self.dimension_size
        &&& self.block_length < pow256(self.block_length_size as nat)
    }

    /// The greatest number of entries that the header can tell.
    pub open spec fn max_entries(self) -> nat {
        (pow256(self.num_in_group_size as nat) - 1) as nat
    }

    /// The buffer after the header of a group of `count` entries at `start` has been
    /// written.
    pub open spec fn header_stored(self, data: Seq<u8>, order: ByteOrder, start: usize, count: nat) -> Seq<
        u8,
    > {
        written(
            written(
                data,
                start as int,
                encode_unsigned(self.block_length as nat, self.block_length_size as nat, order),
            ),
            start + self.block_length_size,
            encode_unsigned(count, self.num_in_group_size as nat, order),
        )
    }

    /// The block length that the header at `start` tells.
    pub open spec fn block_length_in(self, data: Seq<u8>, order: ByteOrder, start: usize) -> nat {
        decode_unsigned(data.subrange(start as int, start + self.block_length_size), order)
    }

    /// The number of entries that the header at `start` tells.
    pub open spec fn entries_in(self, data: Seq<u8>, order: ByteOrder, start: usize) -> nat {
        decode_unsigned(
            data.subrange(
                start + self.block_length_size,
                start + self.block_length_size + self.num_in_group_size,
            ),
            order,
        )
    }
}

impl GroupLayout {
    /// Whether the layout is well formed: both numbers of the header are one to eight
    /// bytes wide and fit in the header, and the block length fits in its primitive.
    pub fn valid(&self) -> (r: bool)
        ensures
            r == self@.wf(),
    {
        if !(1 <= self.block_length_size && self.block_length_size <= 8) {
            return false;
        }
        if !(1 <= self.num_in_group_size && self.num_in_group_size <= 8) {
            return false;
        }
        if self.block_length_size + self.num_in_group_size > self.dimension_size {
            return false;
        }
        self.block_length as u128 <= max_count_of(self.block_length_size) as u128
    }
}

impl GroupLayoutView {
    /// What a decoder reads from the header at `start`: the block length and the number
    /// of entries.  Bytes that are not there are a fault, and so is a number that a
    /// `usize` cannot hold.
    pub open spec fn header_read(self, data: Seq<u8>, order: ByteOrder, start: usize) -> Result<
        (usize, usize),
        SbeFault,
    > {
        if !in_bounds(start, self.block_length_size, data.len()) {
            Err(
                SbeFault::CodecOutOfBounds(
                    access_end(start, self.block_length_size),
                    data.len() as usize,
                ),
            )
        } else if !in_bounds(
            (start + self.block_length_size) as usize,
            self.num_in_group_size,
            data.len(),
        ) {
            Err(
                SbeFault::CodecOutOfBounds(
                    access_end((start + self.block_length_size) as usize, self.num_in_group_size),
                    data.len() as usize,
                ),
            )
        } else if self.block_length_in(data, order, start) > usize::MAX || self.entries_in(
            data,
            order,
            start,
        ) > usize::MAX {
            Err(SbeFault::CodecOutOfBounds(usize::MAX, data.len() as usize))
        } else {
            Ok(
                (
                    self.block_length_in(data, order, start) as usize,
                    self.entries_in(data, order, start) as usize,
                ),
            )
        }
    }
}

/// The index of the first slot at or after `i` that holds no size; the number of slots if
/// every one holds a size.
pub open spec fn first_missing(sizes: Seq<Option<usize>>, i: int) -> int
    decreases sizes.len() - i,
{
    if i < 0 || i >= sizes.len() {
        sizes.len() as int
    } else if sizes[i] is None {
        i
    } else {
        first_missing(sizes, i + 1)
    }
}

/// The sum of the sizes in the first `n` slots; a slot without a size counts as nothing.
pub open spec fn sum_of(sizes: Seq<Option<usize>>, n: int) -> nat
    decreases n,
{
    if n <= 0 || n > sizes.len() {
        0
    } else {
        sum_of(sizes, n - 1) + match sizes[n - 1] {
            Some(s) => s as nat,
            None => 0,
        }
    }
}

/// The slots after the first `n` of them have been emptied.
pub open spec fn emptied(sizes: Seq<Option<usize>>, n: int) -> Seq<Option<usize>> {
    Seq::new(
        sizes.len(),
        |i: int|
            if i < n {
                None
            } else {
                sizes[i]
            },
    )
}

/// The fault for a nested construct that was not walked.
pub open spec fn missing_fault(nested: NestedNameView) -> SbeFault {
    if nested.is_group {
        SbeFault::MissingGroupSize(nested.name)
    } else {
        SbeFault::MissingVarDataSize(nested.name)
    }
}

/// What completing an entry comes to: the bytes by which the group grows, which are the
/// block and what was walked in the entry.  A nested construct that was not walked, or a
/// size that a `usize` cannot hold, is a fault.
pub open spec fn entry_size(layout: GroupLayoutView, block_length: usize, size: usize, sizes: Seq<
    Option<usize>,
>) -> Result<usize, SbeFault> {
    if first_missing(sizes, 0) < sizes.len() {
        Err(missing_fault(layout.nested[first_missing(sizes, 0)]))
    } else if size + block_length + sum_of(sizes, sizes.len() as int) > usize::MAX {
        Err(SbeFault::GroupOutOfBounds(layout.name))
    } else {
        Ok((size + block_length + sum_of(sizes, sizes.len() as int)) as usize)
    }
}

/// What completing an entry does to an encoder: the size of the group afterwards.  The
/// entry is looked at first, then the number of entries, which must fit its primitive.
pub open spec fn encoder_advanced(
    layout: GroupLayoutView,
    num_in_group: u64,
    size: usize,
    sizes: Seq<Option<usize>>,
) -> Result<usize, SbeFault> {
    if first_missing(sizes, 0) < sizes.len() {
        Err(missing_fault(layout.nested[first_missing(sizes, 0)]))
    } else if sum_of(sizes, sizes.len() as int) > usize::MAX {
        Err(SbeFault::GroupOutOfBounds(layout.name))
    } else if num_in_group >= layout.max_entries() {
        Err(SbeFault::GroupOutOfBounds("num_in_group"@))
    } else {
        entry_size(layout, layout.block_length, size, sizes)
    }
}

/// What leaving an entry behind does to a decoder: the size walked afterwards.  Past the
/// last entry there is nothing to leave.
pub open spec fn decoder_advanced(
    layout: GroupLayoutView,
    block_length: usize,
    num_in_group: usize,
    index: usize,
    size: usize,
    sizes: Seq<Option<usize>>,
) -> Result<usize, SbeFault> {
    if index >= num_in_group {
        Err(SbeFault::GroupOutOfBounds(layout.name))
    } else {
        entry_size(layout, block_length, size, sizes)
    }
}

pub proof fn lemma_first_missing(sizes: Seq<Option<usize>>, i: int)
    requires
        0 <= i <= sizes.len(),
    ensures
        i <= first_missing(sizes, i) <= sizes.len(),
        first_missing(sizes, i) < sizes.len() ==> sizes[first_missing(sizes, i)] is None,
        forall|j: int| i <= j < first_missing(sizes, i) ==> sizes[j] is Some,
    decreases sizes.len() - i,
{
    if i < sizes.len() && sizes[i] is Some {
        lemma_first_missing(sizes, i + 1);
    }
}

/// Takes the sizes out of the slots, one after the other, and adds them up.  The first
/// empty slot stops the taking: the slots before it stay emptied.
pub fn take_sizes(sizes: &mut Vec<Option<usize>>, nested: &Vec<NestedName>, group: &str) -> (r:
    Result<usize, SbeError>)
    requires
        old(sizes)@.len() == nested@.len(),
    ensures
        final(sizes)@.len() == old(sizes)@.len(),
        final(sizes)@ == emptied(old(sizes)@, first_missing(old(sizes)@, 0)),
        match r {
            Ok(total) => first_missing(old(sizes)@, 0) == old(sizes)@.len() && total == sum_of(
                old(sizes)@,
                old(sizes)@.len() as int,
            ),
            Err(e) => if first_missing(old(sizes)@, 0) < old(sizes)@.len() {
                e@ == missing_fault(
                    nested@.map_values(|n: NestedName| n@)[first_missing(old(sizes)@, 0)],
                )
            } else {
                sum_of(old(sizes)@, old(sizes)@.len() as int) > usize::MAX && e@
                    == SbeFault::GroupOutOfBounds(group@)
            },
        },
{
    let ghost before = sizes@;
    let mut total: usize = 0;
    let mut overflow = false;
    let mut i: usize = 0;
    assert(sizes@ =~= emptied(before, 0));
    while i < sizes.len()
        invariant
            i <= sizes.len(),
            sizes@.len() == before.len(),
            before.len() == nested@.len(),
            sizes@ == emptied(before, i as int),
            before == old(sizes)@,
            first_missing(before, 0) == first_missing(before, i as int),
            !overflow ==> total == sum_of(before, i as int),
            overflow ==> sum_of(before, i as int) > usize::MAX,
        decreases sizes.len() - i,
    {
        match sizes[i] {
            Some(n) => {
                if !overflow {
                    match total.checked_add(n) {
                        Some(t) => {
                            total = t;
                        },
                        None => {
                            overflow = true;
                        },
                    }
                }
                sizes.set(i, None);
                assert(sizes@ =~= emptied(before, i as int + 1));
            },
            None => {
                assert(before[i as int] is None);
                assert(first_missing(before, i as int) == i);
                return Err(
                    if nested[i].is_group {
                        SbeError::MissingGroupSize(nested[i].name.clone())
                    } else {
                        SbeError::MissingVarDataSize(nested[i].name.clone())
                    },
                );
            },
        }
        i = i + 1;
    }
    if overflow {
        Err(SbeError::GroupOutOfBounds(String::from_str(group)))
    } else {
        Ok(total)
    }
}

pub(crate) fn max_count_of(width: usize) -> (r: u64)
    requires
        1 <= width <= 8,
    ensures
        r == pow256(width as nat) - 1,
{
    proof {
        crate::wire::buffer::lemma_pow256_values();
    }
    if width == 1 {
        0xFF
    } else if width == 2 {
        0xFFFF
    } else if width == 3 {
        0xFF_FFFF
    } else if width == 4 {
        0xFFFF_FFFF
    } else if width == 5 {
        0xFF_FFFF_FFFF
    } else if width == 6 {
        0xFFFF_FFFF_FFFF
    } else if width == 7 {
        0xFF_FFFF_FFFF_FFFF
    } else {
        0xFFFF_FFFF_FFFF_FFFF
    }
}

/// The encoder of a group: how many entries were completed, how many bytes the group
/// takes so far, and the sizes of what was walked in the current entry.
#[derive(Debug, Clone, PartialEq, Eq)]
pub struct GroupEncoder {
    pub start: usize,
    pub num_in_group: u64,
    pub size: usize,
    pub sizes: Vec<Option<usize>>,
}

impl GroupEncoder {
    /// An encoder for a group at `start` without an entry yet: so far the group is its
    /// header.
    pub fn new(layout: &GroupLayout, start: usize) -> (r: Self)
        ensures
            r.start == start,
            r.num_in_group == 0,
            r.size == layout.dimension_size,
            r.sizes@ == Seq::new(layout.nested@.len(), |i: int| None::<usize>),
    {
        let mut sizes: Vec<Option<usize>> = Vec::new();
        let mut i: usize = 0;
        while i < layout.nested.len()
            invariant
                i <= layout.nested.len(),
                sizes@ == Seq::new(i as nat, |j: int| None::<usize>),
            decreases layout.nested.len() - i,
        {
            sizes.push(None);
            i = i + 1;
            assert(sizes@ =~= Seq::new(i as nat, |j: int| None::<usize>));
        }
        GroupEncoder { start, num_in_group: 0, size: layout.dimension_size, sizes }
    }

    /// The bytes that the group takes so far.
    pub fn size(&self) -> (r: usize)
        ensures
            r == self.size,
    {
        self.size
    }

    /// Records the size of the `slot`-th nested construct of the current entry.
    pub fn record(&mut self, slot: usize, size: usize)
        requires
            slot < old(self).sizes@.len(),
        ensures
            final(self).start == old(self).start,
            final(self).num_in_group == old(self).num_in_group,
            final(self).size == old(self).size,
            final(self).sizes@ == old(self).sizes@.update(slot as int, Some(size)),
    {
        self.sizes.set(slot, Some(size));
    }

    /// Completes the current entry: the group grows by the block and by what was walked
    /// in the entry, and the number of entries by one.  The sizes that were recorded are
    /// used up, as far as they were looked at.
    pub fn advance(&mut self, layout: &GroupLayout) -> (r: Result<(), SbeError>)
        requires
            layout@.wf(),
            old(self).sizes@.len() == layout.nested@.len(),
        ensures
            final(self).start == old(self).start,
            final(self).sizes@ == emptied(old(self).sizes@, first_missing(old(self).sizes@, 0)),
            match r {
                Ok(()) => encoder_advanced(
                    layout@,
                    old(self).num_in_group,
                    old(self).size,
                    old(self).sizes@,
                ) == Ok::<usize, SbeFault>(final(self).size) && final(self).num_in_group == old(self).num_in_group + 1,
                Err(e) => encoder_advanced(
                    layout@,
                    old(self).num_in_group,
                    old(self).size,
                    old(self).sizes@,
                ) == Err::<usize, SbeFault>(e@) && final(self).num_in_group == old(self).num_in_group && final(self).size == old(self).size,
            },
    {
        proof {
            lemma_first_missing(self.sizes@, 0);
        }
        let nested_size = match take_sizes(&mut self.sizes, &layout.nested, layout.name.as_str()) {
            Ok(n) => n,
            Err(e) => { return Err(e); },
        };
        if self.num_in_group >= max_count_of(layout.num_in_group_size) {
            return Err(SbeError::GroupOutOfBounds(String::from_str("num_in_group")));
        }
        let advancement = match layout.block_length.checked_add(nested_size) {
            Some(n) => n,
            None => { return Err(SbeError::GroupOutOfBounds(layout.name.clone())); },
        };
        let size = match self.size.checked_add(advancement) {
            Some(n) => n,
            None => { return Err(SbeError::GroupOutOfBounds(layout.name.clone())); },
        };
        self.num_in_group = self.num_in_group + 1;
        self.size = size;
        Ok(())
    }

    /// Writes the block length and the number of entries into the header.
    pub fn finalize(&self, data: &mut Vec<u8>, order: ByteOrder, layout: &GroupLayout) -> (r:
        Result<(), SbeError>)
        requires
            layout@.wf(),
        ensures
            match r {
                Ok(()) => final(data)@ == layout@.header_stored(
                    old(data)@,
                    order,
                    self.start,
                    self.num_in_group as nat,
                ) && self.start + layout.block_length_size + layout.num_in_group_size <= old(data)@.len(),
                Err(e) => self.start + layout.block_length_size + layout.num_in_group_size
                    > old(data)@.len() && final(data)@ == old(data)@ && e@
                    == SbeFault::CodecOutOfBounds(
                    crate::wire::buffer::clamped(
                        self.start + layout.block_length_size + layout.num_in_group_size,
                    ),
                    old(data)@.len() as usize,
                ),
            },
    {
        let ghost before = data@;
        let end = match self.start.checked_add(layout.block_length_size) {
            Some(n) => match n.checked_add(layout.num_in_group_size) {
                Some(m) => m,
                None => { return Err(SbeError::CodecOutOfBounds(usize::MAX, data.len())); },
            },
            None => { return Err(SbeError::CodecOutOfBounds(usize::MAX, data.len())); },
        };
        if end > data.len() {
            return Err(SbeError::CodecOutOfBounds(end, data.len()));
        }
        match put_unsigned_at(
            data,
            order,
            self.start,
            layout.block_length_size,
            layout.block_length as u64,
        ) {
            Ok(()) => {},
            Err(e) => { return Err(e); },
        }
        proof {
            lemma_encoded_len(
                layout.block_length as nat,
                layout.block_length_size as nat,
                order,
            );
            lemma_written_then_read(
                before,
                self.start as int,
                encode_unsigned(layout.block_length as nat, layout.block_length_size as nat, order),
            );
        }
        put_unsigned_at(
            data,
            order,
            self.start + layout.block_length_size,
            layout.num_in_group_size,
            self.num_in_group,
        )
    }
}

/// The decoder of a group: the block length and the number of entries as the header
/// tells them, the entry it stands at, and how many bytes it has walked.
#[derive(Debug, Clone, PartialEq, Eq)]
pub struct GroupDecoder {
    pub start: usize,
    pub block_length: usize,
    pub num_in_group: usize,
    pub index: usize,
    pub size: usize,
    pub sizes: Vec<Option<usize>>,
}

impl GroupDecoder {
    /// A decoder for the group at `start`.  It reads the header and stands at the first
    /// entry.
    pub fn new(data: &[u8], order: ByteOrder, layout: &GroupLayout, start: usize) -> (r: Result<
        Self,
        SbeError,
    >)
        requires
            layout@.wf(),
        ensures
            match r {
                Ok(d) => {
                    &&& layout@.header_read(data@, order, start) == Ok::<(usize, usize), SbeFault>(
                        (d.block_length, d.num_in_group),
                    )
                    &&& d.start == start
                    &&& d.index == 0
                    &&& d.size == layout.dimension_size
                    &&& d.sizes@ == Seq::new(layout.nested@.len(), |i: int| None::<usize>)
                },
                Err(e) => layout@.header_read(data@, order, start) == Err::<
                    (usize, usize),
                    SbeFault,
                >(e@),
            },
    {
        let block_length = match get_unsigned_at(data, order, start, layout.block_length_size) {
            Ok(n) => n,
            Err(e) => { return Err(e); },
        };
        let length = data.len();
        assert(start + layout.block_length_size <= length);
        let second = start + layout.block_length_size;
        let counted = match get_unsigned_at(data, order, second, layout.num_in_group_size) {
            Ok(n) => n,
            Err(e) => { return Err(e); },
        };
        if block_length > usize::MAX as u64 || counted > usize::MAX as u64 {
            return Err(SbeError::CodecOutOfBounds(usize::MAX, data.len()));
        }
        let mut sizes: Vec<Option<usize>> = Vec::new();
        let mut i: usize = 0;
        while i < layout.nested.len()
            invariant
                i <= layout.nested.len(),
                sizes@ == Seq::new(i as nat, |j: int| None::<usize>),
            decreases layout.nested.len() - i,
        {
            sizes.push(None);
            i = i + 1;
            assert(sizes@ =~= Seq::new(i as nat, |j: int| None::<usize>));
        }
        Ok(
            GroupDecoder {
                start,
                block_length: block_length as usize,
                num_in_group: counted as usize,
                index: 0,
                size: layout.dimension_size,
                sizes,
            },
        )
    }

    /// The bytes that the group takes: known once the last entry was left behind.
    pub fn size(&self) -> (r: Option<usize>)
        ensures
            r == if self.index == self.num_in_group {
                Some(self.size)
            } else {
                None
            },
    {
        if self.index == self.num_in_group {
            Some(self.size)
        } else {
            None
        }
    }

    /// Records the size of the `slot`-th nested construct of the current entry.
    pub fn record(&mut self, slot: usize, size: usize)
        requires
            slot < old(self).sizes@.len(),
        ensures
            final(self).start == old(self).start,
            final(self).block_length == old(self).block_length,
            final(self).num_in_group == old(self).num_in_group,
            final(self).index == old(self).index,
            final(self).size == old(self).size,
            final(self).sizes@ == old(self).sizes@.update(slot as int, Some(size)),
    {
        self.sizes.set(slot, Some(size));
    }

    /// Leaves the current entry behind.  Past the last entry there is nothing to leave.
    pub fn advance(&mut self, layout: &GroupLayout) -> (r: Result<(), SbeError>)
        requires
            old(self).sizes@.len() == layout.nested@.len(),
        ensures
            final(self).start == old(self).start,
            final(self).block_length == old(self).block_length,
            final(self).num_in_group == old(self).num_in_group,
            final(self).sizes@ == if old(self).index >= old(self).num_in_group {
                old(self).sizes@
            } else {
                emptied(old(self).sizes@, first_missing(old(self).sizes@, 0))
            },
            match r {
                Ok(()) => decoder_advanced(
                    layout@,
                    old(self).block_length,
                    old(self).num_in_group,
                    old(self).index,
                    old(self).size,
                    old(self).sizes@,
                ) == Ok::<usize, SbeFault>(final(self).size) && final(self).index == old(self).index + 1,
                Err(e) => decoder_advanced(
                    layout@,
                    old(self).block_length,
                    old(self).num_in_group,
                    old(self).index,
                    old(self).size,
                    old(self).sizes@,
                ) == Err::<usize, SbeFault>(e@) && final(self).index == old(self).index && final(self).size == old(self).size,
            },
    {
        if self.index >= self.num_in_group {
            return Err(SbeError::GroupOutOfBounds(layout.name.clone()));
        }
        proof {
            lemma_first_missing(self.sizes@, 0);
        }
        let nested_size = match take_sizes(&mut self.sizes, &layout.nested, layout.name.as_str()) {
            Ok(n) => n,
            Err(e) => { return Err(e); },
        };
        let advancement = match self.block_length.checked_add(nested_size) {
            Some(n) => n,
            None => { return Err(SbeError::GroupOutOfBounds(layout.name.clone())); },
        };
        let size = match self.size.checked_add(advancement) {
            Some(n) => n,
            None => { return Err(SbeError::GroupOutOfBounds(layout.name.clone())); },
        };
        self.index = self.index + 1;
        self.size = size;
        Ok(())
    }
}

/// Group iteration: the header that an encoder writes after `count` entries tells a
/// decoder the same block length and exactly `count` entries, and nothing outside the
/// two numbers of the header has changed.
pub proof fn lemma_group_header_round_trip(
    layout: GroupLayoutView,
    data: Seq<u8>,
    order: ByteOrder,
    start: usize,
    count: nat,
)
    requires
        layout.wf(),
        count <= layout.max_entries(),
        start + layout.block_length_size + layout.num_in_group_size <= data.len(),
    ensures
        ({
            let after = layout.header_stored(data, order, start, count);
            &&& after.len() == data.len()
            &&& layout.block_length_in(after, order, start) == layout.block_length
            &&& layout.entries_in(after, order, start) == count
            &&& forall|i: int|
                0 <= i < data.len() && !(start <= i < start + layout.block_length_size
                    + layout.num_in_group_size) ==> after[i] == data[i]
        }),
{
    let block = encode_unsigned(layout.block_length as nat, layout.block_length_size as nat, order);
    let number = encode_unsigned(count, layout.num_in_group_size as nat, order);
    let first = written(data, start as int, block);
    lemma_encoded_len(layout.block_length as nat, layout.block_length_size as nat, order);
    lemma_encoded_len(count, layout.num_in_group_size as nat, order);
    lemma_pow256_prefix(layout.num_in_group_size as nat);
    lemma_written_then_read(data, start as int, block);
    lemma_written_then_read(first, start + layout.block_length_size, number);
    lemma_written_elsewhere(
        first,
        start + layout.block_length_size,
        number,
        start as int,
        layout.block_length_size as int,
    );
    lemma_unsigned_round_trip(layout.block_length as nat, layout.block_length_size as nat, order);
    lemma_unsigned_round_trip(count, layout.num_in_group_size as nat, order);
}

/// Group iteration in full: when the fields of all entries have been written, wherever
/// the encoder placed them, and the header has been written after them, a decoder reads
/// from the header the block length and the number of entries that the encoder wrote,
/// and every field of every entry decodes to the value that was written into it.  The
/// fields must not overlap each other nor the two numbers of the header.
pub proof fn lemma_group_round_trip(
    layout: GroupLayoutView,
    fields: Seq<ScalarFieldView>,
    data: Seq<u8>,
    order: ByteOrder,
    start: usize,
    values: Seq<int>,
    count: nat,
    i: int,
)
    requires
        layout.wf(),
        count <= layout.max_entries(),
        start + layout.block_length_size + layout.num_in_group_size <= data.len(),
        crate::wire::block::pairwise_apart(fields),
        crate::wire::block::values_fit(fields, values),
        0 <= i < fields.len(),
        forall|j: int|
            0 <= j < fields.len() ==> (#[trigger] fields[j]).offset + fields[j].primitive.width()
                <= start || start + layout.block_length_size + layout.num_in_group_size
                <= fields[j].offset,
        crate::wire::block::block_stored(fields, data, order, values, fields.len()) is Ok,
    ensures
        ({
            let entries = crate::wire::block::block_stored(
                fields,
                data,
                order,
                values,
                fields.len(),
            )->Ok_0;
            let group = layout.header_stored(entries, order, start, count);
            &&& layout.entries_in(group, order, start) == count
            &&& layout.block_length_in(group, order, start) == layout.block_length
            &&& fields[i].decoded_required(group, order) == Ok::<int, SbeFault>(values[i])
        }),
{
    let entries = crate::wire::block::block_stored(fields, data, order, values, fields.len())->Ok_0;
    crate::wire::block::lemma_block_stored_len(fields, data, order, values, fields.len());
    crate::wire::block::lemma_block_round_trip(fields, data, order, values, fields.len(), i);
    lemma_group_header_round_trip(layout, entries, order, start, count);
    let group = layout.header_stored(entries, order, start, count);
    crate::wire::scalar::lemma_decoded_by_own_bytes(fields[i], group, entries, order);
}

} // verus!
