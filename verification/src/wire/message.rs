//! Messages on the wire: a header that names the template, then the fixed block, then the
//! groups and the variable-length fields.

use crate::models::ByteOrder;
use crate::text::{signed_decimal, signed_decimal_text};
use crate::wire::error::{SbeError, SbeFault};
use crate::wire::group::{first_missing, lemma_first_missing, sum_of};
use crate::wire::scalar::{
    lemma_other_field_untouched, lemma_scalar_round_trip, Primitive, ScalarField, ScalarFieldView,
};
use vstd::prelude::*;
use vstd::string::*;

verus! {

/// Where the four numbers of a message header stand.
#[derive(Debug, Clone, PartialEq, Eq)]
pub struct HeaderLayout {
    pub block_length: ScalarField,
    pub template_id: ScalarField,
    pub schema_id: ScalarField,
    pub version: ScalarField,
}

/// The mathematical content of a [`HeaderLayout`].
pub struct HeaderLayoutView {
    pub block_length: ScalarFieldView,
    pub template_id: ScalarFieldView,
    pub schema_id: ScalarFieldView,
    pub version: ScalarFieldView,
}

impl View for HeaderLayout {
    type V = HeaderLayoutView;

    open spec fn view(&self) -> HeaderLayoutView {
        HeaderLayoutView {
            block_length: self.block_length@,
            template_id: self.template_id@,
            schema_id: self.schema_id@,
            version: self.version@,
        }
    }
}

/// Two fields whose bytes do not overlap.
pub open spec fn apart(f: ScalarFieldView, g: ScalarFieldView) -> bool {
    g.offset + g.primitive.width() <= f.offset || f.offset + f.primitive.width() <= g.offset
}

/// What is said of a value that its field cannot hold.
pub open spec fn too_large_fault(f: ScalarFieldView, v: int) -> SbeFault {
    SbeFault::ValueOutOfBounds {
        field_name: f.name,
        message: signed_decimal_text(v) + " > "@ + signed_decimal_text(f.primitive.greatest())
            + " (max)"@,
    }
}

/// What writing `v` into a header field does to `data`: a value that the primitive of
/// the field cannot hold is refused.
pub open spec fn header_field_stored(f: ScalarFieldView, data: Seq<u8>, order: ByteOrder, v: int) -> Result<
    Seq<u8>,
    SbeFault,
> {
    if !f.primitive.holds(v) {
        Err(too_large_fault(f, v))
    } else {
        f.encoded_required(data, order, v)
    }
}

impl HeaderLayoutView {
    /// The template id is an unsigned number of at most 16 bits without bounds, and the
    /// other fields of the header leave its bytes alone.
    pub open spec fn wf(self) -> bool {
        &&& self.template_id.primitive is UInt8 || self.template_id.primitive is UInt16
        &&& self.template_id.min_value is None
        &&& self.template_id.max_value is None
        &&& apart(self.schema_id, self.template_id)
        &&& apart(self.version, self.template_id)
    }

    /// The buffer after a header has been written: the block length first, then the
    /// template id, the schema id and the version.  The first number that does not fit
    /// decides the fault.
    pub open spec fn stored(
        self,
        data: Seq<u8>,
        order: ByteOrder,
        block_length: int,
        template_id: int,
        schema_id: int,
        version: int,
    ) -> Result<Seq<u8>, SbeFault> {
        match header_field_stored(self.block_length, data, order, block_length) {
            Err(f) => Err(f),
            Ok(a) => match header_field_stored(self.template_id, a, order, template_id) {
                Err(f) => Err(f),
                Ok(b) => match header_field_stored(self.schema_id, b, order, schema_id) {
                    Err(f) => Err(f),
                    Ok(c) => header_field_stored(self.version, c, order, version),
                },
            },
        }
    }

    /// What a decoder for the template `expected` makes of `data`: it reads the template
    /// id from the header and refuses any other.
    pub open spec fn checked(self, data: Seq<u8>, order: ByteOrder, expected: u16) -> Result<
        (),
        SbeFault,
    > {
        match self.template_id.decoded_required(data, order) {
            Err(f) => Err(f),
            Ok(found) => if found == expected {
                Ok(())
            } else {
                Err(SbeFault::WrongMessageType(found as u16, expected))
            },
        }
    }
}

fn put_header_field(f: &ScalarField, data: &mut Vec<u8>, order: ByteOrder, v: i128) -> (r: Result<
    (),
    SbeError,
>)
    ensures
        match r {
            Ok(()) => header_field_stored(f@, old(data)@, order, v as int) == Ok::<
                Seq<u8>,
                SbeFault,
            >(final(data)@),
            Err(e) => header_field_stored(f@, old(data)@, order, v as int) == Err::<
                Seq<u8>,
                SbeFault,
            >(e@),
        },
{
    match f.try_encode(data, order, v) {
        Some(r) => r,
        None => {
            let greatest = if f.primitive.is_signed() {
                f.primitive.modulus() / 2 - 1
            } else {
                f.primitive.modulus() - 1
            };
            Err(
                SbeError::ValueOutOfBounds {
                    field_name: f.name.clone(),
                    message: signed_decimal(v).concat(" > ").concat(
                        signed_decimal(greatest).as_str(),
                    ).concat(" (max)"),
                },
            )
        },
    }
}

fn lies_apart(f: &ScalarField, g: &ScalarField) -> (r: bool)
    ensures
        r == apart(f@, g@),
{
    g.offset as u128 + g.primitive.size() as u128 <= f.offset as u128 || f.offset as u128
        + f.primitive.size() as u128 <= g.offset as u128
}

impl HeaderLayout {
    /// Whether the layout is well formed: the template id is an unsigned number of at
    /// most 16 bits without bounds, and the schema id and the version leave its bytes
    /// alone.
    pub fn valid(&self) -> (r: bool)
        ensures
            r == self@.wf(),
    {
        let narrow = match self.template_id.primitive {
            Primitive::UInt8 | Primitive::UInt16 => true,
            _ => false,
        };
        narrow && self.template_id.min_value.is_none() && self.template_id.max_value.is_none()
            && lies_apart(&self.schema_id, &self.template_id) && lies_apart(
            &self.version,
            &self.template_id,
        )
    }

    /// Writes the header of a message: what an encoder does before anything else.
    pub fn encode(
        &self,
        data: &mut Vec<u8>,
        order: ByteOrder,
        block_length: usize,
        template_id: u16,
        schema_id: u16,
        version: u16,
    ) -> (r: Result<(), SbeError>)
        ensures
            match r {
                Ok(()) => self@.stored(
                    old(data)@,
                    order,
                    block_length as int,
                    template_id as int,
                    schema_id as int,
                    version as int,
                ) == Ok::<Seq<u8>, SbeFault>(final(data)@),
                Err(e) => self@.stored(
                    old(data)@,
                    order,
                    block_length as int,
                    template_id as int,
                    schema_id as int,
                    version as int,
                ) == Err::<Seq<u8>, SbeFault>(e@),
            },
    {
        match put_header_field(&self.block_length, data, order, block_length as i128) {
            Ok(()) => {},
            Err(e) => { return Err(e); },
        }
        match put_header_field(&self.template_id, data, order, template_id as i128) {
            Ok(()) => {},
            Err(e) => { return Err(e); },
        }
        match put_header_field(&self.schema_id, data, order, schema_id as i128) {
            Ok(()) => {},
            Err(e) => { return Err(e); },
        }
        put_header_field(&self.version, data, order, version as i128)
    }

    /// Checks that `data` holds a message of the template `expected`: what a decoder
    /// does before anything else.
    pub fn check(&self, data: &[u8], order: ByteOrder, expected: u16) -> (r: Result<(), SbeError>)
        requires
            self@.wf(),
        ensures
            match r {
                Ok(()) => self@.checked(data@, order, expected) == Ok::<(), SbeFault>(()),
                Err(e) => self@.checked(data@, order, expected) == Err::<(), SbeFault>(e@),
            },
    {
        let found = match self.template_id.decode_required(data, order) {
            Ok(v) => v,
            Err(e) => { return Err(e); },
        };
        proof {
            crate::wire::buffer::lemma_pow256_values();
            crate::wire::buffer::lemma_value_bound(self@.template_id.bytes_in(data@), order);
        }
        if found == expected as i128 {
            Ok(())
        } else {
            Err(SbeError::WrongMessageType(found as u16, expected))
        }
    }
}

/// Template mismatch: a buffer whose header was written for one template is refused by
/// a decoder for another, with `WrongMessageType` of the id found and the id expected;
/// a decoder for the same template accepts it.
pub proof fn lemma_template_checked(
    h: HeaderLayoutView,
    data: Seq<u8>,
    order: ByteOrder,
    block_length: int,
    written_id: u16,
    schema_id: int,
    version: int,
    expected: u16,
)
    requires
        h.wf(),
        h.stored(data, order, block_length, written_id as int, schema_id, version) is Ok,
    ensures
        h.checked(
            h.stored(data, order, block_length, written_id as int, schema_id, version)->Ok_0,
            order,
            expected,
        ) == if written_id == expected {
            Ok::<(), SbeFault>(())
        } else {
            Err::<(), SbeFault>(SbeFault::WrongMessageType(written_id, expected))
        },
{
    let a = header_field_stored(h.block_length, data, order, block_length)->Ok_0;
    let b = header_field_stored(h.template_id, a, order, written_id as int)->Ok_0;
    let c = header_field_stored(h.schema_id, b, order, schema_id)->Ok_0;
    let d = header_field_stored(h.version, c, order, version)->Ok_0;
    lemma_scalar_round_trip(h.template_id, a, order, written_id as int);
    lemma_scalar_round_trip(h.schema_id, b, order, schema_id);
    lemma_other_field_untouched(h.schema_id, h.template_id, b, order, schema_id);
    lemma_other_field_untouched(h.version, h.template_id, c, order, version);
}

/// Round trip of a message without groups and variable-length fields: after the header
/// and then the block have been written, a decoder for the same template accepts the
/// buffer, and every field of the block decodes to the value that was written into it.
pub proof fn lemma_message_round_trip(
    h: HeaderLayoutView,
    fields: Seq<ScalarFieldView>,
    data: Seq<u8>,
    order: ByteOrder,
    block_length: int,
    template_id: u16,
    schema_id: int,
    version: int,
    values: Seq<int>,
    i: int,
)
    requires
        h.wf(),
        crate::wire::block::pairwise_apart(fields),
        crate::wire::block::values_fit(fields, values),
        forall|j: int| 0 <= j < fields.len() ==> apart(#[trigger] fields[j], h.template_id),
        0 <= i < fields.len(),
        h.stored(data, order, block_length, template_id as int, schema_id, version) is Ok,
        crate::wire::block::block_stored(
            fields,
            h.stored(data, order, block_length, template_id as int, schema_id, version)->Ok_0,
            order,
            values,
            fields.len(),
        ) is Ok,
    ensures
        ({
            let with_header = h.stored(
                data,
                order,
                block_length,
                template_id as int,
                schema_id,
                version,
            )->Ok_0;
            let message = crate::wire::block::block_stored(
                fields,
                with_header,
                order,
                values,
                fields.len(),
            )->Ok_0;
            &&& h.checked(message, order, template_id) == Ok::<(), SbeFault>(())
            &&& fields[i].decoded_required(message, order) == Ok::<int, SbeFault>(values[i])
        }),
{
    let with_header = h.stored(data, order, block_length, template_id as int, schema_id, version)->Ok_0;
    lemma_template_checked(
        h,
        data,
        order,
        block_length,
        template_id,
        schema_id,
        version,
        template_id,
    );
    crate::wire::block::lemma_block_leaves_others(
        fields,
        with_header,
        order,
        values,
        fields.len(),
        h.template_id,
    );
    crate::wire::block::lemma_block_round_trip(fields, with_header, order, values, fields.len(), i);
}

/// The size of a message: the header, the block, and every group and variable-length
/// field, if each of them has been walked and the sum fits in `usize`.
pub open spec fn total_size(header_size: usize, block_length: usize, sizes: Seq<Option<usize>>) -> Option<
    usize,
> {
    if first_missing(sizes, 0) < sizes.len() || header_size + block_length + sum_of(
        sizes,
        sizes.len() as int,
    ) > usize::MAX {
        None
    } else {
        Some((header_size + block_length + sum_of(sizes, sizes.len() as int)) as usize)
    }
}

/// The size of a message, once all its groups and variable-length fields were walked.
pub fn message_size(header_size: usize, block_length: usize, sizes: &Vec<Option<usize>>) -> (r:
    Option<usize>)
    ensures
        r == total_size(header_size, block_length, sizes@),
{
    let mut total: usize = match header_size.checked_add(block_length) {
        Some(n) => n,
        None => {
            proof {
                lemma_first_missing(sizes@, 0);
            }
            return None;
        },
    };
    let mut i: usize = 0;
    while i < sizes.len()
        invariant
            i <= sizes.len(),
            first_missing(sizes@, 0) == first_missing(sizes@, i as int),
            total == header_size + block_length + sum_of(sizes@, i as int),
        decreases sizes.len() - i,
    {
        match sizes[i] {
            Some(n) => {
                total = match total.checked_add(n) {
                    Some(t) => t,
                    None => {
                        proof {
                            lemma_sum_grows(sizes@, i as int + 1, sizes@.len() as int);
                        }
                        return None;
                    },
                };
            },
            None => {
                return None;
            },
        }
        i = i + 1;
    }
    Some(total)
}

/// A sum of sizes does not shrink when more slots are counted.
pub proof fn lemma_sum_grows(sizes: Seq<Option<usize>>, k: int, n: int)
    requires
        0 <= k <= n <= sizes.len(),
    ensures
        sum_of(sizes, k) <= sum_of(sizes, n),
    decreases n - k,
{
    if k < n {
        lemma_sum_grows(sizes, k, n - 1);
    }
}

} // verus!
