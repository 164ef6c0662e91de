//! Enums and bit-sets on the wire: one primitive each.

use crate::models::ByteOrder;
use crate::text::{signed_decimal, signed_decimal_text};
use crate::wire::buffer::{access_end, in_bounds, lemma_written_then_read, written};
use crate::wire::error::{SbeError, SbeFault};
use crate::wire::scalar::{
    bytes_value, get_value_at, lemma_value_round_trip, put_value_at, value_bytes, Primitive,
};
use vstd::prelude::*;
use vstd::string::*;

verus! {

/// A value of an enum: one of the declared values, by its place in the declaration, or
/// the distinguished null.
#[derive(PartialEq, Eq, Structural, Debug, Copy, Clone)]
pub enum EnumValue {
    Declared(usize),
    NullVal,
}

/// An enum as the wire knows it: the numbers of its values, and its null sentinel.
#[derive(Debug, Clone, PartialEq, Eq)]
pub struct EnumCodec {
    pub name: String,
    pub primitive: Primitive,
    pub values: Vec<i128>,
    pub null_value: i128,
}

/// The mathematical content of an [`EnumCodec`].
pub struct EnumCodecView {
    pub name: Seq<char>,
    pub primitive: Primitive,
    pub values: Seq<int>,
    pub null_value: int,
}

impl View for EnumCodec {
    type V = EnumCodecView;

    open spec fn view(&self) -> EnumCodecView {
        EnumCodecView {
            name: self.name@,
            primitive: self.primitive,
            values: self.values@.map_values(|v: i128| v as int),
            null_value: self.null_value as int,
        }
    }
}

/// The place of the first of `values` at or after `i` that equals `v`; the number of
/// values if there is none.
pub open spec fn place_from(values: Seq<int>, v: int, i: int) -> int
    decreases values.len() - i,
{
    if i < 0 || i >= values.len() {
        values.len() as int
    } else if values[i] == v {
        i
    } else {
        place_from(values, v, i + 1)
    }
}

pub proof fn lemma_place_from(values: Seq<int>, v: int, i: int)
    requires
        0 <= i <= values.len(),
    ensures
        i <= place_from(values, v, i) <= values.len(),
        place_from(values, v, i) < values.len() ==> values[place_from(values, v, i)] == v,
        forall|j: int| i <= j < place_from(values, v, i) ==> values[j] != v,
    decreases values.len() - i,
{
    if i < values.len() && values[i] != v {
        lemma_place_from(values, v, i + 1);
    }
}

impl EnumCodecView {
    /// Every declared number and the null sentinel are values of the primitive.
    pub open spec fn wf(self) -> bool {
        &&& self.primitive.holds(self.null_value)
        &&& forall|i: int| 0 <= i < self.values.len() ==> self.primitive.holds(#[trigger] self.values[i])
    }

    /// The number that is written for a value.
    pub open spec fn number_of(self, value: EnumValue) -> int {
        match value {
            EnumValue::Declared(i) => self.values[i as int],
            EnumValue::NullVal => self.null_value,
        }
    }

    /// The value that a number stands for: a declared value, else the null if the
    /// number is the sentinel, else nothing.
    pub open spec fn value_of(self, number: int) -> Result<EnumValue, SbeFault> {
        let place = place_from(self.values, number, 0);
        if place < self.values.len() {
            Ok(EnumValue::Declared(place as usize))
        } else if number == self.null_value {
            Ok(EnumValue::NullVal)
        } else {
            Err(
                SbeFault::InvalidEnumValue {
                    named_type: self.name,
                    value: signed_decimal_text(number),
                },
            )
        }
    }

    /// What decoding the enum at `offset` yields.
    pub open spec fn decoded(self, data: Seq<u8>, order: ByteOrder, offset: usize) -> Result<
        EnumValue,
        SbeFault,
    > {
        if !in_bounds(offset, self.primitive.width() as usize, data.len()) {
            Err(
                SbeFault::CodecOutOfBounds(
                    access_end(offset, self.primitive.width() as usize),
                    data.len() as usize,
                ),
            )
        } else {
            self.value_of(
                bytes_value(
                    self.primitive,
                    data.subrange(offset as int, offset + self.primitive.width()),
                    order,
                ),
            )
        }
    }
}

impl EnumCodec {
    /// Whether the enum is well formed: every declared number and the sentinel are
    /// values of the primitive.
    pub fn valid(&self) -> (r: bool)
        ensures
            r == self@.wf(),
    {
        if !self.primitive.contains(self.null_value) {
            return false;
        }
        let ghost values = self@.values;
        let mut i: usize = 0;
        while i < self.values.len()
            invariant
                i <= self.values.len(),
                values == self@.values,
                values.len() == self.values.len(),
                forall|j: int| 0 <= j < i ==> self.primitive.holds(#[trigger] values[j]),
            decreases self.values.len() - i,
        {
            assert(values[i as int] == self.values@[i as int] as int);
            if !self.primitive.contains(self.values[i]) {
                return false;
            }
            i = i + 1;
        }
        true
    }

    /// The value that a number stands for.
    pub fn try_from(&self, number: i128) -> (r: Result<EnumValue, SbeError>)
        ensures
            match r {
                Ok(v) => self@.value_of(number as int) == Ok::<EnumValue, SbeFault>(v),
                Err(e) => self@.value_of(number as int) == Err::<EnumValue, SbeFault>(e@),
            },
    {
        let ghost values = self@.values;
        let mut i: usize = 0;
        while i < self.values.len()
            invariant
                i <= self.values.len(),
                values == self@.values,
                values.len() == self.values.len(),
                place_from(values, number as int, 0) == place_from(values, number as int, i as int),
            decreases self.values.len() - i,
        {
            assert(values[i as int] == self.values@[i as int] as int);
            if self.values[i] == number {
                return Ok(EnumValue::Declared(i));
            }
            i = i + 1;
        }
        if number == self.null_value {
            Ok(EnumValue::NullVal)
        } else {
            Err(
                SbeError::InvalidEnumValue {
                    named_type: self.name.clone(),
                    value: signed_decimal(number),
                },
            )
        }
    }

    /// Reads a value of the enum at `offset`.
    pub fn decode(&self, data: &[u8], order: ByteOrder, offset: usize) -> (r: Result<
        EnumValue,
        SbeError,
    >)
        ensures
            match r {
                Ok(v) => self@.decoded(data@, order, offset) == Ok::<EnumValue, SbeFault>(v),
                Err(e) => self@.decoded(data@, order, offset) == Err::<EnumValue, SbeFault>(e@),
            },
    {
        let number = match get_value_at(data, order, offset, self.primitive) {
            Ok(n) => n,
            Err(e) => { return Err(e); },
        };
        self.try_from(number)
    }

    /// Writes a value of the enum at `offset`.
    pub fn encode(&self, data: &mut Vec<u8>, order: ByteOrder, offset: usize, value: EnumValue) -> (r:
        Result<(), SbeError>)
        requires
            self@.wf(),
            value matches EnumValue::Declared(i) ==> i < self.values@.len(),
        ensures
            match r {
                Ok(()) => in_bounds(offset, self.primitive.width() as usize, old(data)@.len())
                    && final(data)@ == written(
                    old(data)@,
                    offset as int,
                    value_bytes(self.primitive, self@.number_of(value), order),
                ),
                Err(e) => !in_bounds(offset, self.primitive.width() as usize, old(data)@.len())
                    && final(data)@ == old(data)@ && e@ == SbeFault::CodecOutOfBounds(
                    access_end(offset, self.primitive.width() as usize),
                    old(data)@.len() as usize,
                ),
            },
    {
        let number = match value {
            EnumValue::Declared(i) => {
                assert(self@.values[i as int] == self.values@[i as int] as int);
                self.values[i]
            },
            EnumValue::NullVal => self.null_value,
        };
        put_value_at(data, order, offset, self.primitive, number)
    }
}

/// The null of an enum: encoding it puts the bytes of the sentinel at the offset, and
/// decoding those bytes yields the null again, unless the sentinel is itself declared
/// as a value.
pub proof fn lemma_enum_null(e: EnumCodecView, data: Seq<u8>, order: ByteOrder, offset: usize)
    requires
        e.wf(),
        in_bounds(offset, e.primitive.width() as usize, data.len()),
        forall|i: int| 0 <= i < e.values.len() ==> e.values[i] != e.null_value,
    ensures
        e.decoded(
            written(data, offset as int, value_bytes(e.primitive, e.null_value, order)),
            order,
            offset,
        ) == Ok::<EnumValue, SbeFault>(EnumValue::NullVal),
{
    lemma_value_round_trip(e.primitive, e.null_value, order);
    lemma_written_then_read(data, offset as int, value_bytes(e.primitive, e.null_value, order));
    lemma_place_from(e.values, e.null_value, 0);
}

/// A number that is neither declared nor the sentinel is no value of the enum.
pub proof fn lemma_enum_unknown(e: EnumCodecView, number: int)
    requires
        number != e.null_value,
        forall|i: int| 0 <= i < e.values.len() ==> e.values[i] != number,
    ensures
        e.value_of(number) matches Err(SbeFault::InvalidEnumValue { named_type, .. })
            && named_type == e.name,
{
    lemma_place_from(e.values, number, 0);
}

/// A declared value that was encoded is decoded as the first value of the same number.
pub proof fn lemma_enum_round_trip(
    e: EnumCodecView,
    data: Seq<u8>,
    order: ByteOrder,
    offset: usize,
    i: usize,
)
    requires
        e.wf(),
        i < e.values.len(),
        in_bounds(offset, e.primitive.width() as usize, data.len()),
        forall|j: int| 0 <= j < i ==> e.values[j] != e.values[i as int],
    ensures
        e.decoded(
            written(data, offset as int, value_bytes(e.primitive, e.values[i as int], order)),
            order,
            offset,
        ) == Ok::<EnumValue, SbeFault>(EnumValue::Declared(i)),
{
    let number = e.values[i as int];
    lemma_value_round_trip(e.primitive, number, order);
    lemma_written_then_read(data, offset as int, value_bytes(e.primitive, number, order));
    lemma_place_from(e.values, number, 0);
    let place = place_from(e.values, number, 0);
    if place > i {
        assert(e.values[i as int] != number);
    }
}

/// Whether the flag at bit `k` is set in `bits`.
pub open spec fn flag_set(bits: u64, k: u64) -> bool {
    0 != bits & (1u64 << k)
}

/// `bits` with the flag at bit `k` set or cleared.
pub open spec fn with_flag(bits: u64, k: u64, on: bool) -> u64 {
    if on {
        bits | (1u64 << k)
    } else {
        bits & !(1u64 << k)
    }
}

/// Whether the flag at bit `k` is set.
pub fn get_flag(bits: u64, k: u64) -> (r: bool)
    requires
        k < 64,
    ensures
        r == flag_set(bits, k),
{
    0 != bits & (1u64 << k)
}

/// Sets or clears the flag at bit `k`.
pub fn set_flag(bits: u64, k: u64, on: bool) -> (r: u64)
    requires
        k < 64,
    ensures
        r == with_flag(bits, k, on),
{
    if on {
        bits | (1u64 << k)
    } else {
        bits & !(1u64 << k)
    }
}

/// A flag that was set or cleared reads as it was left, and no other flag has changed.
pub proof fn lemma_flags(bits: u64, k: u64, j: u64, on: bool)
    requires
        k < 64,
        j < 64,
    ensures
        flag_set(with_flag(bits, k, on), k) == on,
        j != k ==> flag_set(with_flag(bits, k, on), j) == flag_set(bits, j),
        !flag_set(0, j),
{
    assert(0u64 != (bits | (1u64 << k)) & (1u64 << k)) by (bit_vector)
        requires
            k < 64,
    ;
    assert(0u64 == (bits & !(1u64 << k)) & (1u64 << k)) by (bit_vector)
        requires
            k < 64,
    ;
    assert(j != k ==> ((bits | (1u64 << k)) & (1u64 << j)) == (bits & (1u64 << j))) by (bit_vector)
        requires
            k < 64,
            j < 64,
    ;
    assert(j != k ==> ((bits & !(1u64 << k)) & (1u64 << j)) == (bits & (1u64 << j))) by (bit_vector)
        requires
            k < 64,
            j < 64,
    ;
    assert(0u64 == 0u64 & (1u64 << j)) by (bit_vector);
}

} // verus!
