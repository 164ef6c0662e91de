//! Variable-length fields on the wire: a length prefix, then as many elements as the
//! prefix says.

use crate::models::ByteOrder;
use crate::wire::buffer::{
    access_end, clamped, decode_unsigned, encode_unsigned, get_slice_at, get_unsigned_at, in_bounds,
    lemma_encoded_len, lemma_pow256_values, lemma_unsigned_round_trip, lemma_written_elsewhere,
    lemma_written_then_read, pow256, put_bytes_at, put_unsigned_at, written,
};
use crate::text::{signed_decimal, signed_decimal_text};
use crate::wire::error::{SbeError, SbeFault};
use crate::wire::scalar::{bytes_value, get_value_at, put_value_at, value_bytes, Primitive};
use crate::wire::text_field::text_from_utf8;
use vstd::prelude::*;
use vstd::string::*;

verus! {

/// How a variable-length field is laid out.
#[derive(Debug, Clone, PartialEq, Eq)]
pub struct VarDataLayout {
    pub name: String,
    /// The width of the length prefix in bytes.
    pub prefix_size: usize,
    /// The primitive of one element.
    pub element: Primitive,
    /// Whether every element must be an ASCII character.
    pub ascii_only: bool,
}

/// The mathematical content of a [`VarDataLayout`].
pub struct VarDataLayoutView {
    pub name: Seq<char>,
    pub prefix_size: usize,
    pub element: Primitive,
    pub ascii_only: bool,
}

impl View for VarDataLayout {
    type V = VarDataLayoutView;

    open spec fn view(&self) -> VarDataLayoutView {
        VarDataLayoutView {
            name: self.name@,
            prefix_size: self.prefix_size,
            element: self.element,
            ascii_only: self.ascii_only,
        }
    }
}

impl VarDataLayout {
    /// Whether the layout is well formed: the prefix is one to eight bytes wide.
    pub fn valid(&self) -> (r: bool)
        ensures
            r == self@.wf(),
    {
        1 <= self.prefix_size && self.prefix_size <= 8
    }

    /// Whether runs of bytes can be read and written at once: an element is one byte.
    pub fn byte_access(&self) -> (r: bool)
        ensures
            r == (self@.element.width() == 1),
    {
        self.element.size() == 1
    }
}

/// Whether every byte is an ASCII character.
pub open spec fn ascii_bytes(bytes: Seq<u8>) -> bool {
    forall|i: int| 0 <= i < bytes.len() ==> #[trigger] bytes[i] < 128
}

impl VarDataLayoutView {
    /// The prefix is one to eight bytes wide.
    pub open spec fn wf(self) -> bool {
        1 <= self.prefix_size <= 8
    }

    /// The greatest length that the prefix can tell.
    pub open spec fn max_length(self) -> nat {
        (pow256(self.prefix_size as nat) - 1) as nat
    }

    /// The length that the prefix at `start` tells; zero where the prefix cannot be read.
    pub open spec fn length_in(self, data: Seq<u8>, order: ByteOrder, start: usize) -> nat {
        if in_bounds(start, self.prefix_size, data.len()) {
            decode_unsigned(data.subrange(start as int, start + self.prefix_size), order)
        } else {
            0
        }
    }

    /// Where the `index`-th element of the field at `start` stands.
    pub open spec fn element_offset(self, start: usize, index: nat) -> int {
        start + self.prefix_size + index * self.element.width()
    }

    /// What writing a run of bytes from the `index`-th byte on does to the buffer and to
    /// the length of a field at `start`: the field grows to hold the run.  A run that
    /// ends beyond what the prefix can tell is refused, and so is one that ends beyond
    /// the buffer.
    pub open spec fn slice_stored(
        self,
        data: Seq<u8>,
        start: usize,
        length: u64,
        index: usize,
        value: Seq<u8>,
    ) -> Result<(Seq<u8>, u64), SbeFault> {
        if index + value.len() > self.max_length() {
            Err(SbeFault::VarDataOutOfBounds(self.name))
        } else if start + self.prefix_size + index + value.len() > data.len() {
            Err(
                SbeFault::CodecOutOfBounds(
                    clamped(start + self.prefix_size + index + value.len()),
                    data.len() as usize,
                ),
            )
        } else {
            Ok(
                (
                    written(data, start + self.prefix_size + index, value),
                    if index + value.len() >= length {
                        (index + value.len()) as u64
                    } else {
                        length
                    },
                ),
            )
        }
    }

    /// What writing the `index`-th element does to the buffer and to the length of a
    /// field at `start`.  An element that is no ASCII character is refused by a field of
    /// ASCII text; an index that the prefix cannot tell is refused by any.
    pub open spec fn element_stored(
        self,
        data: Seq<u8>,
        order: ByteOrder,
        start: usize,
        length: u64,
        index: u64,
        value: int,
    ) -> Result<(Seq<u8>, u64), SbeFault> {
        if self.ascii_only && value >= 128 {
            Err(SbeFault::InvalidStringValue(signed_decimal_text(value)))
        } else if index >= self.max_length() {
            Err(SbeFault::VarDataOutOfBounds(self.name))
        } else if self.element_offset(start, index as nat) + self.element.width() > data.len() {
            Err(
                SbeFault::CodecOutOfBounds(
                    clamped(self.element_offset(start, index as nat) + self.element.width()),
                    data.len() as usize,
                ),
            )
        } else {
            Ok(
                (
                    written(
                        data,
                        self.element_offset(start, index as nat),
                        value_bytes(self.element, value, order),
                    ),
                    if index >= length {
                        (index + 1) as u64
                    } else {
                        length
                    },
                ),
            )
        }
    }

    /// What reading the `index`-th element of the field at `start` yields.
    pub open spec fn element_read(self, data: Seq<u8>, order: ByteOrder, start: usize, index: u64) -> Result<
        int,
        SbeFault,
    > {
        if self.element_offset(start, index as nat) + self.element.width() > data.len() {
            Err(
                SbeFault::CodecOutOfBounds(
                    clamped(self.element_offset(start, index as nat) + self.element.width()),
                    data.len() as usize,
                ),
            )
        } else {
            Ok(
                bytes_value(
                    self.element,
                    data.subrange(
                        self.element_offset(start, index as nat),
                        self.element_offset(start, index as nat) + self.element.width(),
                    ),
                    order,
                ),
            )
        }
    }

    /// The buffer after a field that holds `bytes` has been written at `start`: the
    /// bytes after the prefix, and their number in the prefix.
    pub open spec fn stored(self, data: Seq<u8>, order: ByteOrder, start: usize, bytes: Seq<u8>) -> Seq<
        u8,
    > {
        written(
            written(data, start + self.prefix_size, bytes),
            start as int,
            encode_unsigned(bytes.len(), self.prefix_size as nat, order),
        )
    }
}

/// The encoder of one variable-length field: where the field starts, and how many bytes
/// it holds so far.
#[derive(Debug, Clone, PartialEq, Eq)]
pub struct VarDataEncoder {
    pub start: usize,
    pub length: u64,
}

impl VarDataEncoder {
    /// An encoder for a field at `start` that holds nothing yet.
    pub fn new(start: usize) -> (r: Self)
        ensures
            r.start == start,
            r.length == 0,
    {
        VarDataEncoder { start, length: 0 }
    }

    /// The size of the field so far: the prefix and the elements.
    pub open spec fn spec_size(&self, layout: VarDataLayoutView) -> nat {
        layout.prefix_size as nat + self.length as nat * layout.element.width()
    }

    /// The size of the field so far, if a `usize` can tell it.
    pub fn size(&self, layout: &VarDataLayout) -> (r: Option<usize>)
        ensures
            match r {
                Some(n) => n == self.spec_size(layout@),
                None => self.spec_size(layout@) > usize::MAX,
            },
    {
        field_size(layout.prefix_size, self.length, layout.element.size())
    }

    /// Writes one element.  The field grows to hold it.
    pub fn put_at(
        &mut self,
        data: &mut Vec<u8>,
        order: ByteOrder,
        layout: &VarDataLayout,
        index: u64,
        value: i128,
    ) -> (r: Result<(), SbeError>)
        requires
            layout@.wf(),
            layout.element.holds(value as int),
        ensures
            final(self).start == old(self).start,
            match r {
                Ok(()) => layout@.element_stored(
                    old(data)@,
                    order,
                    old(self).start,
                    old(self).length,
                    index,
                    value as int,
                ) == Ok::<(Seq<u8>, u64), SbeFault>((final(data)@, final(self).length)),
                Err(e) => layout@.element_stored(
                    old(data)@,
                    order,
                    old(self).start,
                    old(self).length,
                    index,
                    value as int,
                ) == Err::<(Seq<u8>, u64), SbeFault>(e@) && final(data)@ == old(data)@ && final(self).length == old(self).length,
            },
    {
        if layout.ascii_only && value >= 128 {
            return Err(SbeError::InvalidStringValue(signed_decimal(value)));
        }
        proof {
            lemma_pow256_prefix(layout.prefix_size as nat);
        }
        if index >= max_length_of(layout.prefix_size) {
            return Err(SbeError::VarDataOutOfBounds(layout.name.clone()));
        }
        let offset = match element_position(self.start, layout.prefix_size, index, layout.element.size()) {
            Some(n) => n,
            None => { return Err(SbeError::CodecOutOfBounds(usize::MAX, data.len())); },
        };
        match put_value_at(data, order, offset, layout.element, value) {
            Ok(()) => {},
            Err(e) => { return Err(e); },
        }
        if index >= self.length {
            self.length = index + 1;
        }
        Ok(())
    }

    /// Writes a run of bytes from the `index`-th byte of the field on.  The field grows
    /// to hold them.  A field of ASCII text refuses a run with any other byte, with the
    /// run as text if it is UTF-8.
    pub fn put_slice_at(
        &mut self,
        data: &mut Vec<u8>,
        layout: &VarDataLayout,
        index: usize,
        value: &[u8],
    ) -> (r: Result<(), SbeError>)
        requires
            layout@.wf(),
            layout@.element.width() == 1,
        ensures
            final(self).start == old(self).start,
            (layout.ascii_only && !ascii_bytes(value@)) ==> ({
                &&& r matches Err(SbeError::InvalidStringValue(t))
                &&& vstd::utf8::valid_utf8(value@) ==> t@ == vstd::utf8::decode_utf8(value@)
                &&& final(data)@ == old(data)@
                &&& final(self).length == old(self).length
            }),
            !(layout.ascii_only && !ascii_bytes(value@)) ==> match r {
                Ok(()) => layout@.slice_stored(
                    old(data)@,
                    old(self).start,
                    old(self).length,
                    index,
                    value@,
                ) == Ok::<(Seq<u8>, u64), SbeFault>((final(data)@, final(self).length)),
                Err(e) => layout@.slice_stored(
                    old(data)@,
                    old(self).start,
                    old(self).length,
                    index,
                    value@,
                ) == Err::<(Seq<u8>, u64), SbeFault>(e@) && final(data)@ == old(data)@ && final(self).length == old(self).length,
            },
    {
        if layout.ascii_only {
            let mut i: usize = 0;
            while i < value.len()
                invariant
                    i <= value.len(),
                    layout.ascii_only,
                    forall|j: int| 0 <= j < i ==> #[trigger] value@[j] < 128,
                decreases value.len() - i,
            {
                if value[i] >= 128 {
                    assert(!(value@[i as int] < 128));
                    return Err(
                        SbeError::InvalidStringValue(
                            match text_from_utf8(value) {
                                Ok(text) => text,
                                Err(message) => message,
                            },
                        ),
                    );
                }
                i = i + 1;
            }
        }
        proof {
            lemma_pow256_values();
            lemma_pow256_prefix(layout.prefix_size as nat);
        }
        let max = max_length_of(layout.prefix_size);
        if index as u128 + value.len() as u128 > max as u128 {
            return Err(SbeError::VarDataOutOfBounds(layout.name.clone()));
        }
        let data_end = match index.checked_add(value.len()) {
            Some(n) => n,
            None => { return Err(SbeError::CodecOutOfBounds(usize::MAX, data.len())); },
        };
        let offset = match self.start.checked_add(layout.prefix_size) {
            Some(n) => match n.checked_add(index) {
                Some(m) => m,
                None => { return Err(SbeError::CodecOutOfBounds(usize::MAX, data.len())); },
            },
            None => { return Err(SbeError::CodecOutOfBounds(usize::MAX, data.len())); },
        };
        match put_bytes_at(data, offset, value) {
            Ok(()) => {},
            Err(e) => { return Err(e); },
        }
        if data_end as u64 >= self.length {
            self.length = data_end as u64;
        }
        Ok(())
    }

    /// Writes the length prefix.  The field is then complete.
    pub fn finalize(&self, data: &mut Vec<u8>, order: ByteOrder, layout: &VarDataLayout) -> (r:
        Result<(), SbeError>)
        requires
            layout@.wf(),
        ensures
            match r {
                Ok(()) => in_bounds(self.start, layout.prefix_size, old(data)@.len()) && final(data)@ == written(
                    old(data)@,
                    self.start as int,
                    encode_unsigned(self.length as nat, layout.prefix_size as nat, order),
                ),
                Err(e) => !in_bounds(self.start, layout.prefix_size, old(data)@.len()) && final(data)@ == old(data)@ && e@ == SbeFault::CodecOutOfBounds(
                    access_end(self.start, layout.prefix_size),
                    old(data)@.len() as usize,
                ),
            },
    {
        put_unsigned_at(data, order, self.start, layout.prefix_size, self.length)
    }
}

/// 256 to the power of a prefix width is at least 256 and at most 2 to the power of 64.
pub proof fn lemma_pow256_prefix(k: nat)
    requires
        1 <= k <= 8,
    ensures
        0x100 <= pow256(k) <= 0x1_0000_0000_0000_0000,
{
    lemma_pow256_values();
    if k == 1 {
    } else if k == 2 {
    } else if k == 3 {
    } else if k == 4 {
    } else if k == 5 {
    } else if k == 6 {
    } else if k == 7 {
    } else {
    }
}

fn max_length_of(prefix_size: usize) -> (r: u64)
    requires
        1 <= prefix_size <= 8,
    ensures
        r == pow256(prefix_size as nat) - 1,
{
    proof {
        lemma_pow256_values();
    }
    if prefix_size == 1 {
        0xFF
    } else if prefix_size == 2 {
        0xFFFF
    } else if prefix_size == 3 {
        0xFF_FFFF
    } else if prefix_size == 4 {
        0xFFFF_FFFF
    } else if prefix_size == 5 {
        0xFF_FFFF_FFFF
    } else if prefix_size == 6 {
        0xFFFF_FFFF_FFFF
    } else if prefix_size == 7 {
        0xFF_FFFF_FFFF_FFFF
    } else {
        0xFFFF_FFFF_FFFF_FFFF
    }
}

fn field_size(prefix_size: usize, length: u64, element_size: usize) -> (r: Option<usize>)
    ensures
        match r {
            Some(n) => n == prefix_size + length * element_size,
            None => prefix_size + length * element_size > usize::MAX,
        },
{
    assert(length as u128 * element_size as u128 <= 0xFFFF_FFFF_FFFF_FFFF * 0xFFFF_FFFF_FFFF_FFFF)
        by (nonlinear_arith)
        requires
            length <= 0xFFFF_FFFF_FFFF_FFFF,
            element_size <= 0xFFFF_FFFF_FFFF_FFFF,
    ;
    let total: u128 = prefix_size as u128 + length as u128 * element_size as u128;
    if total > usize::MAX as u128 {
        None
    } else {
        Some(total as usize)
    }
}

fn element_position(start: usize, prefix_size: usize, index: u64, element_size: usize) -> (r:
    Option<usize>)
    ensures
        match r {
            Some(n) => n == start + prefix_size + index * element_size,
            None => start + prefix_size + index * element_size > usize::MAX,
        },
{
    assert(index as u128 * element_size as u128 <= 0xFFFF_FFFF_FFFF_FFFF * 0xFFFF_FFFF_FFFF_FFFF)
        by (nonlinear_arith)
        requires
            index <= 0xFFFF_FFFF_FFFF_FFFF,
            element_size <= 0xFFFF_FFFF_FFFF_FFFF,
    ;
    let total: u128 = start as u128 + prefix_size as u128 + index as u128 * element_size as u128;
    if total > usize::MAX as u128 {
        None
    } else {
        Some(total as usize)
    }
}

/// The decoder of one variable-length field.
#[derive(Debug, Clone, PartialEq, Eq)]
pub struct VarDataDecoder {
    pub start: usize,
}

impl VarDataDecoder {
    /// A decoder for the field at `start`.
    pub fn new(start: usize) -> (r: Self)
        ensures
            r.start == start,
    {
        VarDataDecoder { start }
    }

    /// The number of bytes that the field holds; zero where the prefix cannot be read.
    pub fn length(&self, data: &[u8], order: ByteOrder, layout: &VarDataLayout) -> (r: u64)
        requires
            layout@.wf(),
        ensures
            r == layout@.length_in(data@, order, self.start),
    {
        match get_unsigned_at(data, order, self.start, layout.prefix_size) {
            Ok(n) => n,
            Err(_) => 0,
        }
    }

    /// The size of the field: the prefix and the elements, if a `usize` can tell it.
    pub fn size(&self, data: &[u8], order: ByteOrder, layout: &VarDataLayout) -> (r: Option<usize>)
        requires
            layout@.wf(),
        ensures
            match r {
                Some(n) => n == layout.prefix_size + layout@.length_in(data@, order, self.start)
                    * layout@.element.width(),
                None => layout.prefix_size + layout@.length_in(data@, order, self.start)
                    * layout@.element.width() > usize::MAX,
            },
    {
        let length = self.length(data, order, layout);
        field_size(layout.prefix_size, length, layout.element.size())
    }

    /// Reads the `index`-th element.
    pub fn get_at(&self, data: &[u8], order: ByteOrder, layout: &VarDataLayout, index: u64) -> (r:
        Result<i128, SbeError>)
        ensures
            match r {
                Ok(v) => layout@.element_read(data@, order, self.start, index) == Ok::<
                    int,
                    SbeFault,
                >(v as int),
                Err(e) => layout@.element_read(data@, order, self.start, index) == Err::<
                    int,
                    SbeFault,
                >(e@),
            },
    {
        let offset = match element_position(
            self.start,
            layout.prefix_size,
            index,
            layout.element.size(),
        ) {
            Some(n) => n,
            None => { return Err(SbeError::CodecOutOfBounds(usize::MAX, data.len())); },
        };
        get_value_at(data, order, offset, layout.element)
    }

    /// A view of `length` bytes from the `index`-th byte of the field on.
    pub fn get_slice_at<'a>(
        &self,
        data: &'a [u8],
        layout: &VarDataLayout,
        index: usize,
        length: usize,
    ) -> (r: Result<&'a [u8], SbeError>)
        ensures
            match r {
                Ok(s) => self.start + layout.prefix_size + index + length <= data@.len() && s@
                    == data@.subrange(
                    self.start + layout.prefix_size + index,
                    self.start + layout.prefix_size + index + length,
                ),
                Err(e) => self.start + layout.prefix_size + index + length > data@.len() && e@
                    == SbeFault::CodecOutOfBounds(
                    clamped(self.start + layout.prefix_size + index + length),
                    data@.len() as usize,
                ),
            },
    {
        let offset = match self.start.checked_add(layout.prefix_size) {
            Some(n) => match n.checked_add(index) {
                Some(m) => m,
                None => { return Err(SbeError::CodecOutOfBounds(usize::MAX, data.len())); },
            },
            None => { return Err(SbeError::CodecOutOfBounds(usize::MAX, data.len())); },
        };
        get_slice_at(data, offset, length)
    }
}

/// Round trip of a variable-length field: after the bytes and their number have been
/// written, the prefix tells their number and the bytes are read back as they were.
pub proof fn lemma_var_data_round_trip(
    layout: VarDataLayoutView,
    data: Seq<u8>,
    order: ByteOrder,
    start: usize,
    bytes: Seq<u8>,
)
    requires
        layout.wf(),
        bytes.len() <= layout.max_length(),
        start + layout.prefix_size + bytes.len() <= data.len(),
    ensures
        ({
            let after = layout.stored(data, order, start, bytes);
            &&& after.len() == data.len()
            &&& layout.length_in(after, order, start) == bytes.len()
            &&& after.subrange(
                start + layout.prefix_size,
                start + layout.prefix_size + bytes.len(),
            ) == bytes
            &&& forall|i: int|
                0 <= i < data.len() && !(start <= i < start + layout.prefix_size + bytes.len())
                    ==> after[i] == data[i]
        }),
{
    let first = written(data, start + layout.prefix_size, bytes);
    let prefix = encode_unsigned(bytes.len(), layout.prefix_size as nat, order);
    lemma_encoded_len(bytes.len(), layout.prefix_size as nat, order);
    lemma_written_then_read(data, start + layout.prefix_size, bytes);
    lemma_written_then_read(first, start as int, prefix);
    lemma_written_elsewhere(
        first,
        start as int,
        prefix,
        start + layout.prefix_size,
        bytes.len() as int,
    );
    lemma_pow256_prefix(layout.prefix_size as nat);
    lemma_unsigned_round_trip(bytes.len(), layout.prefix_size as nat, order);
}

} // verus!
