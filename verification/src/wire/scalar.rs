//! Single primitives on the wire: how a value becomes bytes at the offset of its field, how
//! absence is told by a null sentinel, and how declared bounds are enforced.

use crate::models::types::primitive_type::{NativeType, NativeTypeView};
use crate::models::ByteOrder;
use crate::text::{signed_decimal, signed_decimal_text};
use crate::wire::buffer::{
    access_end, decode_unsigned, encode_unsigned, get_unsigned_at, in_bounds, lemma_encoded_len,
    lemma_pow256_values, lemma_unsigned_round_trip, lemma_value_bound, lemma_written_elsewhere,
    lemma_written_then_read, pow256, put_unsigned_at, written,
};
use crate::wire::error::{SbeError, SbeFault};
use vstd::prelude::*;
use vstd::string::*;

verus! {

/// A primitive kind of the wire format.  A floating-point value travels as its IEEE-754
/// bit pattern.
#[derive(PartialEq, Eq, Structural, Debug, Copy, Clone)]
pub enum Primitive {
    Char,
    UInt8,
    UInt16,
    UInt32,
    UInt64,
    Int8,
    Int16,
    Int32,
    Int64,
    Float,
    Double,
}

impl Primitive {
    /// The width in bytes.
    pub open spec fn width(self) -> nat {
        match self {
            Primitive::Char | Primitive::UInt8 | Primitive::Int8 => 1,
            Primitive::UInt16 | Primitive::Int16 => 2,
            Primitive::UInt32 | Primitive::Int32 | Primitive::Float => 4,
            Primitive::UInt64 | Primitive::Int64 | Primitive::Double => 8,
        }
    }

    /// Whether the values are signed integers.
    pub open spec fn signed(self) -> bool {
        self is Int8 || self is Int16 || self is Int32 || self is Int64
    }

    /// Whether the values are floating-point bit patterns.
    pub open spec fn is_float(self) -> bool {
        self is Float || self is Double
    }

    /// The least value.
    pub open spec fn least(self) -> int {
        if self.signed() {
            -(pow256(self.width()) / 2)
        } else {
            0
        }
    }

    /// The greatest value.
    pub open spec fn greatest(self) -> int {
        if self.signed() {
            pow256(self.width()) / 2 - 1
        } else {
            pow256(self.width()) - 1
        }
    }

    /// Whether `v` is a value of this kind.
    pub open spec fn holds(self, v: int) -> bool {
        self.least() <= v <= self.greatest()
    }

    /// The sentinel that stands for absence unless the schema declares another: the
    /// greatest value of an unsigned kind, the least of a signed kind, zero for a
    /// character, a quiet NaN for a floating-point kind.
    pub open spec fn default_null(self) -> int {
        match self {
            Primitive::Char => 0,
            Primitive::Float => 0x7FC0_0000,
            Primitive::Double => 0x7FF8_0000_0000_0000,
            _ => if self.signed() {
                self.least()
            } else {
                self.greatest()
            },
        }
    }

    /// Whether the bit pattern `v` of this floating-point kind is a NaN: all exponent bits
    /// are set, and the mantissa is not zero.
    pub open spec fn is_nan(self, v: int) -> bool {
        match self {
            Primitive::Float => 0 <= v && v % 0x8000_0000 > 0x7F80_0000,
            Primitive::Double => 0 <= v && v % 0x8000_0000_0000_0000 > 0x7FF0_0000_0000_0000,
            _ => false,
        }
    }

    /// The unsigned number that is written for `v`: a negative value is written in two's
    /// complement.
    pub open spec fn raw(self, v: int) -> nat {
        if v < 0 {
            (v + pow256(self.width())) as nat
        } else {
            v as nat
        }
    }

    /// The value that the unsigned number `raw` is read as.
    pub open spec fn value(self, raw: nat) -> int {
        if self.signed() && raw >= pow256(self.width()) / 2 {
            raw - pow256(self.width())
        } else {
            raw as int
        }
    }

    /// The primitive kind of the schema, if it is not a reference.
    pub open spec fn of_native(kind: NativeTypeView) -> Option<Primitive> {
        match kind {
            NativeTypeView::Char => Some(Primitive::Char),
            NativeTypeView::UInt8 => Some(Primitive::UInt8),
            NativeTypeView::UInt16 => Some(Primitive::UInt16),
            NativeTypeView::UInt32 => Some(Primitive::UInt32),
            NativeTypeView::UInt64 => Some(Primitive::UInt64),
            NativeTypeView::Int8 => Some(Primitive::Int8),
            NativeTypeView::Int16 => Some(Primitive::Int16),
            NativeTypeView::Int32 => Some(Primitive::Int32),
            NativeTypeView::Int64 => Some(Primitive::Int64),
            NativeTypeView::Float => Some(Primitive::Float),
            NativeTypeView::Double => Some(Primitive::Double),
            NativeTypeView::Reference(_) => None,
        }
    }

    /// The primitive kind of the schema.
    pub fn from_native(kind: &NativeType) -> (r: Option<Primitive>)
        ensures
            r == Primitive::of_native(kind@),
            r matches Some(p) ==> p.width() == kind@.width(),
    {
        match kind {
            NativeType::Char => Some(Primitive::Char),
            NativeType::UInt8 => Some(Primitive::UInt8),
            NativeType::UInt16 => Some(Primitive::UInt16),
            NativeType::UInt32 => Some(Primitive::UInt32),
            NativeType::UInt64 => Some(Primitive::UInt64),
            NativeType::Int8 => Some(Primitive::Int8),
            NativeType::Int16 => Some(Primitive::Int16),
            NativeType::Int32 => Some(Primitive::Int32),
            NativeType::Int64 => Some(Primitive::Int64),
            NativeType::Float => Some(Primitive::Float),
            NativeType::Double => Some(Primitive::Double),
            NativeType::Reference(_) => None,
        }
    }

    /// The width in bytes.
    pub fn size(self) -> (n: usize)
        ensures
            n == self.width(),
            1 <= n <= 8,
    {
        match self {
            Primitive::Char | Primitive::UInt8 | Primitive::Int8 => 1,
            Primitive::UInt16 | Primitive::Int16 => 2,
            Primitive::UInt32 | Primitive::Int32 | Primitive::Float => 4,
            Primitive::UInt64 | Primitive::Int64 | Primitive::Double => 8,
        }
    }

    /// Whether the values are signed integers.
    pub fn is_signed(self) -> (r: bool)
        ensures
            r == self.signed(),
    {
        match self {
            Primitive::Int8 | Primitive::Int16 | Primitive::Int32 | Primitive::Int64 => true,
            _ => false,
        }
    }

    /// The number of values: 256 to the power of the width.
    pub fn modulus(self) -> (m: i128)
        ensures
            m == pow256(self.width()),
    {
        proof {
            lemma_pow256_values();
        }
        match self {
            Primitive::Char | Primitive::UInt8 | Primitive::Int8 => 0x100,
            Primitive::UInt16 | Primitive::Int16 => 0x1_0000,
            Primitive::UInt32 | Primitive::Int32 | Primitive::Float => 0x1_0000_0000,
            Primitive::UInt64 | Primitive::Int64 | Primitive::Double => 0x1_0000_0000_0000_0000,
        }
    }

    /// Whether `v` is a value of this kind.
    pub fn contains(self, v: i128) -> (r: bool)
        ensures
            r == self.holds(v as int),
    {
        let m = self.modulus();
        if self.is_signed() {
            -(m / 2) <= v && v <= m / 2 - 1
        } else {
            0 <= v && v <= m - 1
        }
    }

    /// The default null sentinel of this kind.
    pub fn null(self) -> (r: i128)
        ensures
            r == self.default_null(),
            self.holds(r as int),
    {
        proof {
            lemma_pow256_values();
        }
        match self {
            Primitive::Char => 0,
            Primitive::UInt8 => 0xFF,
            Primitive::UInt16 => 0xFFFF,
            Primitive::UInt32 => 0xFFFF_FFFF,
            Primitive::UInt64 => 0xFFFF_FFFF_FFFF_FFFF,
            Primitive::Int8 => -0x80,
            Primitive::Int16 => -0x8000,
            Primitive::Int32 => -0x8000_0000,
            Primitive::Int64 => -0x8000_0000_0000_0000,
            Primitive::Float => 0x7FC0_0000,
            Primitive::Double => 0x7FF8_0000_0000_0000,
        }
    }

    /// Whether a bit pattern of this kind is a NaN.
    pub fn nan(self, v: i128) -> (r: bool)
        ensures
            r == self.is_nan(v as int),
    {
        if v < 0 {
            return false;
        }
        match self {
            Primitive::Float => v % 0x8000_0000 > 0x7F80_0000,
            Primitive::Double => v % 0x8000_0000_0000_0000 > 0x7FF0_0000_0000_0000,
            _ => false,
        }
    }
}

/// A value that was written is read back as it was.
pub proof fn lemma_raw_round_trip(p: Primitive, v: int)
    requires
        p.holds(v),
    ensures
        p.raw(v) < pow256(p.width()),
        p.value(p.raw(v)) == v,
{
    lemma_pow256_values();
}

/// The bytes of a value of kind `p` in the given order.
pub open spec fn value_bytes(p: Primitive, v: int, order: ByteOrder) -> Seq<u8> {
    encode_unsigned(p.raw(v), p.width(), order)
}

/// The value of kind `p` that `bytes` stand for in the given order.
pub open spec fn bytes_value(p: Primitive, bytes: Seq<u8>, order: ByteOrder) -> int {
    p.value(decode_unsigned(bytes, order))
}

/// Round trip of one primitive: the bytes of a value stand for that value, in either
/// byte order.
pub proof fn lemma_value_round_trip(p: Primitive, v: int, order: ByteOrder)
    requires
        p.holds(v),
    ensures
        value_bytes(p, v, order).len() == p.width(),
        bytes_value(p, value_bytes(p, v, order), order) == v,
{
    lemma_raw_round_trip(p, v);
    lemma_encoded_len(p.raw(v), p.width(), order);
    lemma_unsigned_round_trip(p.raw(v), p.width(), order);
}

/// Reads a value of kind `p` at `index`.
pub fn get_value_at(data: &[u8], order: ByteOrder, index: usize, p: Primitive) -> (r: Result<
    i128,
    SbeError,
>)
    ensures
        match r {
            Ok(v) => in_bounds(index, p.width() as usize, data@.len()) && v == bytes_value(
                p,
                data@.subrange(index as int, index + p.width()),
                order,
            ) && p.holds(v as int),
            Err(e) => !in_bounds(index, p.width() as usize, data@.len()) && e@
                == SbeFault::CodecOutOfBounds(
                access_end(index, p.width() as usize),
                data@.len() as usize,
            ),
        },
{
    let raw = match get_unsigned_at(data, order, index, p.size()) {
        Ok(raw) => raw,
        Err(e) => { return Err(e); },
    };
    proof {
        lemma_value_bound(data@.subrange(index as int, index + p.width()), order);
        lemma_pow256_values();
    }
    let m = p.modulus();
    if p.is_signed() && raw as i128 >= m / 2 {
        Ok(raw as i128 - m)
    } else {
        Ok(raw as i128)
    }
}

/// Writes a value of kind `p` at `index`.
pub fn put_value_at(data: &mut Vec<u8>, order: ByteOrder, index: usize, p: Primitive, v: i128) -> (r:
    Result<(), SbeError>)
    requires
        p.holds(v as int),
    ensures
        match r {
            Ok(()) => in_bounds(index, p.width() as usize, old(data)@.len()) && final(data)@
                == written(old(data)@, index as int, value_bytes(p, v as int, order)),
            Err(e) => !in_bounds(index, p.width() as usize, old(data)@.len()) && final(data)@
                == old(data)@ && e@ == SbeFault::CodecOutOfBounds(
                access_end(index, p.width() as usize),
                old(data)@.len() as usize,
            ),
        },
{
    proof {
        lemma_pow256_values();
    }
    let raw: u64 = if v < 0 {
        (v + p.modulus()) as u64
    } else {
        v as u64
    };
    put_unsigned_at(data, order, index, p.size(), raw)
}

/// A field that holds one primitive: where it stands, what stands for its absence, and
/// between which bounds its values must lie.
#[derive(Debug, Clone, PartialEq, Eq)]
pub struct ScalarField {
    pub name: String,
    pub offset: usize,
    pub primitive: Primitive,
    /// The null sentinel.
    pub null_value: i128,
    /// Whether absence is told by the NaN predicate, not by equality with the sentinel.
    pub null_is_nan: bool,
    pub min_value: Option<i128>,
    pub max_value: Option<i128>,
}

/// The mathematical content of a [`ScalarField`].
pub struct ScalarFieldView {
    pub name: Seq<char>,
    pub offset: usize,
    pub primitive: Primitive,
    pub null_value: int,
    pub null_is_nan: bool,
    pub min_value: Option<int>,
    pub max_value: Option<int>,
}

/// An optional bound as a mathematical integer.
pub open spec fn bound_view(b: Option<i128>) -> Option<int> {
    match b {
        Some(v) => Some(v as int),
        None => None,
    }
}

impl View for ScalarField {
    type V = ScalarFieldView;

    open spec fn view(&self) -> ScalarFieldView {
        ScalarFieldView {
            name: self.name@,
            offset: self.offset,
            primitive: self.primitive,
            null_value: self.null_value as int,
            null_is_nan: self.null_is_nan,
            min_value: bound_view(self.min_value),
            max_value: bound_view(self.max_value),
        }
    }
}

impl ScalarFieldView {
    /// The sentinel is a value of the primitive, and where absence is told by the NaN
    /// predicate the sentinel is a NaN.
    pub open spec fn wf(self) -> bool {
        &&& self.primitive.holds(self.null_value)
        &&& self.null_is_nan ==> self.primitive.is_nan(self.null_value)
    }

    /// Whether `v` stands for absence.
    pub open spec fn is_null(self, v: int) -> bool {
        if self.null_is_nan {
            self.primitive.is_nan(v)
        } else {
            v == self.null_value
        }
    }

    /// Why `v` is out of bounds, if it is: the least value is looked at first.
    pub open spec fn bounds_fault(self, v: int) -> Option<SbeFault> {
        match (self.below(v), self.above(v)) {
            (Some(min), _) => Some(
                SbeFault::ValueOutOfBounds {
                    field_name: self.name,
                    message: signed_decimal_text(v) + " < "@ + signed_decimal_text(min) + " (min)"@,
                },
            ),
            (None, Some(max)) => Some(
                SbeFault::ValueOutOfBounds {
                    field_name: self.name,
                    message: signed_decimal_text(v) + " > "@ + signed_decimal_text(max) + " (max)"@,
                },
            ),
            (None, None) => None,
        }
    }

    /// The declared least value, if `v` lies below it.
    pub open spec fn below(self, v: int) -> Option<int> {
        match self.min_value {
            Some(min) => if v < min {
                Some(min)
            } else {
                None
            },
            None => None,
        }
    }

    /// The declared greatest value, if `v` lies above it.
    pub open spec fn above(self, v: int) -> Option<int> {
        match self.max_value {
            Some(max) => if v > max {
                Some(max)
            } else {
                None
            },
            None => None,
        }
    }

    /// The bytes that the field covers in a buffer.
    pub open spec fn bytes_in(self, data: Seq<u8>) -> Seq<u8> {
        data.subrange(self.offset as int, self.offset + self.primitive.width())
    }

    /// What decoding the field from `data` yields when the field is required.
    pub open spec fn decoded_required(self, data: Seq<u8>, order: ByteOrder) -> Result<
        int,
        SbeFault,
    > {
        if !in_bounds(self.offset, self.primitive.width() as usize, data.len()) {
            Err(
                SbeFault::CodecOutOfBounds(
                    access_end(self.offset, self.primitive.width() as usize),
                    data.len() as usize,
                ),
            )
        } else {
            let v = bytes_value(self.primitive, self.bytes_in(data), order);
            match self.bounds_fault(v) {
                Some(f) => Err(f),
                None => Ok(v),
            }
        }
    }

    /// What decoding the field from `data` yields when the field is optional: the null
    /// sentinel yields absence, before any bound is looked at.
    pub open spec fn decoded_optional(self, data: Seq<u8>, order: ByteOrder) -> Result<
        Option<int>,
        SbeFault,
    > {
        if !in_bounds(self.offset, self.primitive.width() as usize, data.len()) {
            Err(
                SbeFault::CodecOutOfBounds(
                    access_end(self.offset, self.primitive.width() as usize),
                    data.len() as usize,
                ),
            )
        } else {
            let v = bytes_value(self.primitive, self.bytes_in(data), order);
            if self.is_null(v) {
                Ok(None)
            } else {
                match self.bounds_fault(v) {
                    Some(f) => Err(f),
                    None => Ok(Some(v)),
                }
            }
        }
    }

    /// What encoding `v` into the field does to `data`: a value out of bounds is
    /// refused before a byte is written.
    pub open spec fn encoded_required(self, data: Seq<u8>, order: ByteOrder, v: int) -> Result<
        Seq<u8>,
        SbeFault,
    > {
        match self.bounds_fault(v) {
            Some(f) => Err(f),
            None => if !in_bounds(self.offset, self.primitive.width() as usize, data.len()) {
                Err(
                    SbeFault::CodecOutOfBounds(
                        access_end(self.offset, self.primitive.width() as usize),
                        data.len() as usize,
                    ),
                )
            } else {
                Ok(written(data, self.offset as int, value_bytes(self.primitive, v, order)))
            },
        }
    }

    /// What encoding an optional value into the field does to `data`: absence is
    /// written as the null sentinel.
    pub open spec fn encoded_optional(
        self,
        data: Seq<u8>,
        order: ByteOrder,
        v: Option<int>,
    ) -> Result<Seq<u8>, SbeFault> {
        match v {
            Some(v) => self.encoded_required(data, order, v),
            None => if !in_bounds(self.offset, self.primitive.width() as usize, data.len()) {
                Err(
                    SbeFault::CodecOutOfBounds(
                        access_end(self.offset, self.primitive.width() as usize),
                        data.len() as usize,
                    ),
                )
            } else {
                Ok(
                    written(
                        data,
                        self.offset as int,
                        value_bytes(self.primitive, self.null_value, order),
                    ),
                )
            },
        }
    }
}

impl ScalarField {
    /// A field of the kind `primitive` at `offset`, with the default null sentinel and
    /// without bounds.
    pub fn new(name: &str, offset: usize, primitive: Primitive) -> (r: Self)
        ensures
            r@ == (ScalarFieldView {
                name: name@,
                offset,
                primitive,
                null_value: primitive.default_null(),
                null_is_nan: primitive.is_float(),
                min_value: None,
                max_value: None,
            }),
            r@.wf(),
    {
        let null_is_nan = match primitive {
            Primitive::Float | Primitive::Double => true,
            _ => false,
        };
        proof {
            lemma_pow256_values();
        }
        ScalarField {
            name: String::from_str(name),
            offset,
            primitive,
            null_value: primitive.null(),
            null_is_nan,
            min_value: None,
            max_value: None,
        }
    }

    /// Whether the field is well formed: its sentinel is a value of its primitive, and a
    /// NaN where absence is told by the NaN predicate.
    pub fn valid(&self) -> (r: bool)
        ensures
            r == self@.wf(),
    {
        self.primitive.contains(self.null_value) && (!self.null_is_nan || self.primitive.nan(
            self.null_value,
        ))
    }

    fn check_bounds(&self, v: i128) -> (r: Result<(), SbeError>)
        ensures
            match r {
                Ok(()) => self@.bounds_fault(v as int) is None,
                Err(e) => self@.bounds_fault(v as int) == Some(e@),
            },
    {
        if let Some(min) = self.min_value {
            if v < min {
                return Err(
                    SbeError::ValueOutOfBounds {
                        field_name: self.name.clone(),
                        message: signed_decimal(v).concat(" < ").concat(
                            signed_decimal(min).as_str(),
                        ).concat(" (min)"),
                    },
                );
            }
        }
        if let Some(max) = self.max_value {
            if v > max {
                return Err(
                    SbeError::ValueOutOfBounds {
                        field_name: self.name.clone(),
                        message: signed_decimal(v).concat(" > ").concat(
                            signed_decimal(max).as_str(),
                        ).concat(" (max)"),
                    },
                );
            }
        }
        Ok(())
    }

    /// Reads the field as a required one.
    pub fn decode_required(&self, data: &[u8], order: ByteOrder) -> (r: Result<i128, SbeError>)
        ensures
            match r {
                Ok(v) => self@.decoded_required(data@, order) == Ok::<int, SbeFault>(v as int),
                Err(e) => self@.decoded_required(data@, order) == Err::<int, SbeFault>(e@),
            },
    {
        let value = match get_value_at(data, order, self.offset, self.primitive) {
            Ok(v) => v,
            Err(e) => { return Err(e); },
        };
        match self.check_bounds(value) {
            Ok(()) => Ok(value),
            Err(e) => Err(e),
        }
    }

    /// Reads the field as an optional one.
    pub fn decode_optional(&self, data: &[u8], order: ByteOrder) -> (r: Result<
        Option<i128>,
        SbeError,
    >)
        ensures
            match r {
                Ok(Some(v)) => self@.decoded_optional(data@, order) == Ok::<Option<int>, SbeFault>(
                    Some(v as int),
                ),
                Ok(None) => self@.decoded_optional(data@, order) == Ok::<Option<int>, SbeFault>(
                    None,
                ),
                Err(e) => self@.decoded_optional(data@, order) == Err::<Option<int>, SbeFault>(e@),
            },
    {
        let value = match get_value_at(data, order, self.offset, self.primitive) {
            Ok(v) => v,
            Err(e) => { return Err(e); },
        };
        let absent = if self.null_is_nan {
            self.primitive.nan(value)
        } else {
            value == self.null_value
        };
        if absent {
            return Ok(None);
        }
        match self.check_bounds(value) {
            Ok(()) => Ok(Some(value)),
            Err(e) => Err(e),
        }
    }

    /// Writes a value into the field.
    pub fn encode_required(&self, data: &mut Vec<u8>, order: ByteOrder, value: i128) -> (r: Result<
        (),
        SbeError,
    >)
        requires
            self.primitive.holds(value as int),
        ensures
            match r {
                Ok(()) => self@.encoded_required(old(data)@, order, value as int) == Ok::<
                    Seq<u8>,
                    SbeFault,
                >(final(data)@),
                Err(e) => self@.encoded_required(old(data)@, order, value as int) == Err::<
                    Seq<u8>,
                    SbeFault,
                >(e@) && final(data)@ == old(data)@,
            },
    {
        match self.check_bounds(value) {
            Ok(()) => {},
            Err(e) => { return Err(e); },
        }
        put_value_at(data, order, self.offset, self.primitive, value)
    }

    /// Writes an optional value into the field: absence is written as the null sentinel.
    pub fn encode_optional(&self, data: &mut Vec<u8>, order: ByteOrder, value: Option<i128>) -> (r:
        Result<(), SbeError>)
        requires
            self@.wf(),
            value matches Some(v) ==> self.primitive.holds(v as int),
        ensures
            match r {
                Ok(()) => self@.encoded_optional(old(data)@, order, bound_view(value)) == Ok::<
                    Seq<u8>,
                    SbeFault,
                >(final(data)@),
                Err(e) => self@.encoded_optional(old(data)@, order, bound_view(value)) == Err::<
                    Seq<u8>,
                    SbeFault,
                >(e@) && final(data)@ == old(data)@,
            },
    {
        match value {
            Some(v) => self.encode_required(data, order, v),
            None => put_value_at(data, order, self.offset, self.primitive, self.null_value),
        }
    }

    /// Writes a value into the field if it is a value of the field's primitive; says
    /// whether it was.
    pub fn try_encode(&self, data: &mut Vec<u8>, order: ByteOrder, value: i128) -> (r: Option<
        Result<(), SbeError>,
    >)
        ensures
            match r {
                None => !self.primitive.holds(value as int) && final(data)@ == old(data)@,
                Some(Ok(())) => self.primitive.holds(value as int) && self@.encoded_required(
                    old(data)@,
                    order,
                    value as int,
                ) == Ok::<Seq<u8>, SbeFault>(final(data)@),
                Some(Err(e)) => self.primitive.holds(value as int) && self@.encoded_required(
                    old(data)@,
                    order,
                    value as int,
                ) == Err::<Seq<u8>, SbeFault>(e@) && final(data)@ == old(data)@,
            },
    {
        if self.primitive.contains(value) {
            Some(self.encode_required(data, order, value))
        } else {
            None
        }
    }
}

/// Round trip of a field: a value within its bounds that was encoded is decoded as it
/// was, and the buffer keeps its length.
pub proof fn lemma_scalar_round_trip(f: ScalarFieldView, data: Seq<u8>, order: ByteOrder, v: int)
    requires
        f.primitive.holds(v),
        f.encoded_required(data, order, v) is Ok,
    ensures
        f.encoded_required(data, order, v)->Ok_0.len() == data.len(),
        f.decoded_required(f.encoded_required(data, order, v)->Ok_0, order) == Ok::<int, SbeFault>(
            v,
        ),
{
    lemma_value_round_trip(f.primitive, v, order);
    lemma_written_then_read(data, f.offset as int, value_bytes(f.primitive, v, order));
}

/// Round trip of an optional field: absence comes back as absence, and a value that is
/// not the null sentinel comes back as it was.
pub proof fn lemma_optional_round_trip(
    f: ScalarFieldView,
    data: Seq<u8>,
    order: ByteOrder,
    v: Option<int>,
)
    requires
        f.wf(),
        v matches Some(x) ==> f.primitive.holds(x) && !f.is_null(x),
        f.encoded_optional(data, order, v) is Ok,
    ensures
        f.decoded_optional(f.encoded_optional(data, order, v)->Ok_0, order) == Ok::<
            Option<int>,
            SbeFault,
        >(v),
{
    let x = match v {
        Some(x) => x,
        None => f.null_value,
    };
    lemma_value_round_trip(f.primitive, x, order);
    lemma_written_then_read(data, f.offset as int, value_bytes(f.primitive, x, order));
}

/// Encoding absence puts the bytes of the null sentinel at the offset of the field and
/// changes no other byte; decoding those bytes yields absence.
pub proof fn lemma_absent_is_null(f: ScalarFieldView, data: Seq<u8>, order: ByteOrder)
    requires
        f.wf(),
        f.encoded_optional(data, order, None) is Ok,
    ensures
        ({
            let after = f.encoded_optional(data, order, None)->Ok_0;
            &&& f.bytes_in(after) == value_bytes(f.primitive, f.null_value, order)
            &&& forall|i: int|
                0 <= i < data.len() && !(f.offset <= i < f.offset + f.primitive.width())
                    ==> after[i] == data[i]
            &&& f.decoded_optional(after, order) == Ok::<Option<int>, SbeFault>(None)
        }),
{
    lemma_value_round_trip(f.primitive, f.null_value, order);
    lemma_written_then_read(data, f.offset as int, value_bytes(f.primitive, f.null_value, order));
}

/// A value below the least or above the greatest that the field allows is refused with
/// `ValueOutOfBounds`, and nothing is written.
pub proof fn lemma_bounds_enforced(f: ScalarFieldView, data: Seq<u8>, order: ByteOrder, v: int)
    requires
        f.below(v) is Some || f.above(v) is Some,
    ensures
        f.encoded_required(data, order, v) matches Err(SbeFault::ValueOutOfBounds { field_name, .. })
            && field_name == f.name,
        f.encoded_optional(data, order, Some(v)) is Err,
{
}

/// Offset locality: two values encoded into the same field of the same buffer give
/// buffers that differ in the bytes of that field only.
pub proof fn lemma_field_locality(
    f: ScalarFieldView,
    data: Seq<u8>,
    order: ByteOrder,
    v: int,
    w: int,
)
    requires
        f.primitive.holds(v),
        f.primitive.holds(w),
        f.encoded_required(data, order, v) is Ok,
        f.encoded_required(data, order, w) is Ok,
    ensures
        ({
            let a = f.encoded_required(data, order, v)->Ok_0;
            let b = f.encoded_required(data, order, w)->Ok_0;
            &&& a.len() == b.len()
            &&& forall|i: int|
                0 <= i < a.len() && !(f.offset <= i < f.offset + f.primitive.width()) ==> a[i]
                    == b[i]
        }),
{
    lemma_value_round_trip(f.primitive, v, order);
    lemma_value_round_trip(f.primitive, w, order);
    lemma_written_then_read(data, f.offset as int, value_bytes(f.primitive, v, order));
    lemma_written_then_read(data, f.offset as int, value_bytes(f.primitive, w, order));
}

/// Encoding one field does not disturb another whose bytes lie elsewhere: the other
/// field decodes to what it decoded to before.
pub proof fn lemma_other_field_untouched(
    f: ScalarFieldView,
    g: ScalarFieldView,
    data: Seq<u8>,
    order: ByteOrder,
    v: int,
)
    requires
        f.primitive.holds(v),
        f.encoded_required(data, order, v) is Ok,
        in_bounds(g.offset, g.primitive.width() as usize, data.len()),
        g.offset + g.primitive.width() <= f.offset || f.offset + f.primitive.width() <= g.offset,
    ensures
        g.decoded_required(f.encoded_required(data, order, v)->Ok_0, order) == g.decoded_required(
            data,
            order,
        ),
        g.decoded_optional(f.encoded_required(data, order, v)->Ok_0, order) == g.decoded_optional(
            data,
            order,
        ),
{
    lemma_value_round_trip(f.primitive, v, order);
    lemma_written_then_read(data, f.offset as int, value_bytes(f.primitive, v, order));
    lemma_written_elsewhere(
        data,
        f.offset as int,
        value_bytes(f.primitive, v, order),
        g.offset as int,
        g.primitive.width() as int,
    );
}

/// What a field decodes to depends on its own bytes alone: two buffers of the same
/// length that agree on the bytes of the field decode to the same.
pub proof fn lemma_decoded_by_own_bytes(
    f: ScalarFieldView,
    a: Seq<u8>,
    b: Seq<u8>,
    order: ByteOrder,
)
    requires
        a.len() == b.len(),
        forall|i: int|
            0 <= i < a.len() && f.offset <= i < f.offset + f.primitive.width() ==> a[i] == b[i],
    ensures
        f.decoded_required(a, order) == f.decoded_required(b, order),
        f.decoded_optional(a, order) == f.decoded_optional(b, order),
{
    if in_bounds(f.offset, f.primitive.width() as usize, a.len()) {
        assert(f.bytes_in(a) =~= f.bytes_in(b));
    }
}

} // verus!
