//! Character sequences of a declared length: exactly that many bytes on the wire, a
//! shorter text padded with zero bytes.

use crate::models::types::CharacterEncoding;
use crate::text::{decimal, decimal_text};
use crate::wire::buffer::{
    access_end, get_slice_at, in_bounds, lemma_written_then_read, put_bytes_at, written,
};
use crate::wire::error::{SbeError, SbeFault};
use vstd::prelude::*;
use vstd::string::*;
use vstd::utf8::{decode_utf8, encode_utf8, is_ascii_chars, valid_utf8};

verus! {

/// A field that holds text.
#[derive(Debug, Clone, PartialEq, Eq)]
pub struct TextField {
    pub name: String,
    pub offset: usize,
    /// The number of bytes that the field occupies.
    pub length: usize,
    pub encoding: Option<CharacterEncoding>,
}

/// The mathematical content of a [`TextField`].
pub struct TextFieldView {
    pub name: Seq<char>,
    pub offset: usize,
    pub length: usize,
    pub encoding: Option<CharacterEncoding>,
}

impl View for TextField {
    type V = TextFieldView;

    open spec fn view(&self) -> TextFieldView {
        TextFieldView {
            name: self.name@,
            offset: self.offset,
            length: self.length,
            encoding: self.encoding,
        }
    }
}

/// `n` zero bytes.
pub open spec fn zeros(n: nat) -> Seq<u8> {
    Seq::new(n, |i: int| 0u8)
}

/// `n` bytes of the value `b`.
pub open spec fn filled(n: nat, b: u8) -> Seq<u8> {
    Seq::new(n, |i: int| b)
}

/// `n` NUL characters.
pub open spec fn nuls(n: nat) -> Seq<char> {
    Seq::new(n, |i: int| '\0')
}

/// What is said of a text that is too long for its field.
pub open spec fn too_long_message(value: Seq<char>, encoded: nat, length: nat) -> Seq<char> {
    "string '"@ + value + "' length "@ + decimal_text(encoded) + " > "@ + decimal_text(length)
        + " (max)"@
}

impl TextFieldView {
    /// The bytes that a text occupies in the field: its UTF-8 form, then zero bytes up to
    /// the length of the field.
    pub open spec fn padded(self, value: Seq<char>) -> Seq<u8> {
        encode_utf8(value) + zeros((self.length - encode_utf8(value).len()) as nat)
    }

    /// What encoding `value` into the field does to `data`.  Text that is not ASCII is
    /// refused by an ASCII field; text that is longer than the field is refused by any.
    pub open spec fn encoded(self, data: Seq<u8>, value: Seq<char>) -> Result<Seq<u8>, SbeFault> {
        if self.encoding == Some(CharacterEncoding::Ascii) && !is_ascii_chars(value) {
            Err(SbeFault::InvalidStringValue(value))
        } else if encode_utf8(value).len() > self.length {
            Err(
                SbeFault::ValueOutOfBounds {
                    field_name: self.name,
                    message: too_long_message(
                        value,
                        crate::text::byte_len(value) as nat,
                        self.length as nat,
                    ),
                },
            )
        } else if !in_bounds(self.offset, self.length, data.len()) {
            Err(
                SbeFault::CodecOutOfBounds(access_end(self.offset, self.length), data.len() as usize),
            )
        } else {
            Ok(written(data, self.offset as int, self.padded(value)))
        }
    }

    /// The bytes of the field in a buffer that holds them.
    pub open spec fn bytes_in(self, data: Seq<u8>) -> Seq<u8> {
        data.subrange(self.offset as int, self.offset + self.length)
    }

    /// Whether the field stands for absence in `data`: every one of its bytes is the
    /// null sentinel of a character.
    pub open spec fn is_null(self, data: Seq<u8>, null: u8) -> bool {
        in_bounds(self.offset, self.length, data.len()) && self.bytes_in(data) == filled(
            self.length as nat,
            null,
        )
    }

    /// What encoding an optional text into the field does to `data`: absence is written
    /// as the null sentinel in every byte of the field.
    pub open spec fn encoded_optional(self, data: Seq<u8>, value: Option<Seq<char>>, null: u8) -> Result<
        Seq<u8>,
        SbeFault,
    > {
        match value {
            Some(v) => self.encoded(data, v),
            None => if !in_bounds(self.offset, self.length, data.len()) {
                Err(
                    SbeFault::CodecOutOfBounds(
                        access_end(self.offset, self.length),
                        data.len() as usize,
                    ),
                )
            } else {
                Ok(written(data, self.offset as int, filled(self.length as nat, null)))
            },
        }
    }

    /// The text that the bytes of the field stand for, if they are UTF-8.
    pub open spec fn decoded(self, data: Seq<u8>) -> Option<Seq<char>> {
        if in_bounds(self.offset, self.length, data.len()) && valid_utf8(
            data.subrange(self.offset as int, self.offset + self.length),
        ) {
            Some(decode_utf8(data.subrange(self.offset as int, self.offset + self.length)))
        } else {
            None
        }
    }
}

/// `std::str::from_utf8`, with the text or the error turned into an owned string.
/// The bytes are accepted exactly if they are valid UTF-8, and the text is then what
/// they decode to.  Nothing is claimed of the wording of the error.
#[verifier::external_body]
pub(crate) fn text_from_utf8(bytes: &[u8]) -> (r: Result<String, String>)
    ensures
        match r {
            Ok(s) => valid_utf8(bytes@) && s@ == decode_utf8(bytes@),
            Err(_) => !valid_utf8(bytes@),
        },
{
    match std::str::from_utf8(bytes) {
        Ok(s) => Ok(s.to_string()),
        Err(e) => Err(e.to_string()),
    }
}

impl TextField {
    /// Writes a text into the field.
    pub fn encode(&self, data: &mut Vec<u8>, value: &str) -> (r: Result<(), SbeError>)
        ensures
            match r {
                Ok(()) => self@.encoded(old(data)@, value@) == Ok::<Seq<u8>, SbeFault>(
                    final(data)@,
                ),
                Err(e) => self@.encoded(old(data)@, value@) == Err::<Seq<u8>, SbeFault>(e@)
                    && final(data)@ == old(data)@,
            },
    {
        if let Some(CharacterEncoding::Ascii) = self.encoding {
            if !value.is_ascii() {
                return Err(SbeError::InvalidStringValue(String::from_str(value)));
            }
        }
        let encoded = value.as_bytes();
        if encoded.len() > self.length {
            return Err(
                SbeError::ValueOutOfBounds {
                    field_name: self.name.clone(),
                    message: String::from_str("string '").concat(value).concat("' length ").concat(
                        decimal(encoded.len()).as_str(),
                    ).concat(" > ").concat(decimal(self.length).as_str()).concat(" (max)"),
                },
            );
        }
        let mut bytes: Vec<u8> = Vec::new();
        let mut i: usize = 0;
        while i < encoded.len()
            invariant
                i <= encoded.len(),
                bytes@ == encoded@.subrange(0, i as int),
            decreases encoded.len() - i,
        {
            bytes.push(encoded[i]);
            i = i + 1;
        }
        assert(encoded@.subrange(0, i as int) == encoded@);
        while i < self.length
            invariant
                encoded@.len() <= i <= self.length,
                bytes@ == encoded@ + zeros((i - encoded@.len()) as nat),
            decreases self.length - i,
        {
            bytes.push(0u8);
            i = i + 1;
            assert(bytes@ =~= encoded@ + zeros((i - encoded@.len()) as nat));
        }
        put_bytes_at(data, self.offset, bytes.as_slice())
    }

    /// Reads the text of the field: all its bytes, padding included.
    pub fn decode(&self, data: &[u8]) -> (r: Result<String, SbeError>)
        ensures
            match r {
                Ok(s) => self@.decoded(data@) == Some(s@),
                Err(e) => self@.decoded(data@) is None && if in_bounds(
                    self.offset,
                    self.length,
                    data@.len(),
                ) {
                    e@ is InvalidStringValue
                } else {
                    e@ == SbeFault::CodecOutOfBounds(
                        access_end(self.offset, self.length),
                        data@.len() as usize,
                    )
                },
            },
    {
        let src = match get_slice_at(data, self.offset, self.length) {
            Ok(s) => s,
            Err(e) => { return Err(e); },
        };
        match text_from_utf8(src) {
            Ok(s) => Ok(s),
            Err(message) => Err(SbeError::InvalidStringValue(message)),
        }
    }
}

fn all_bytes_are(bytes: &[u8], b: u8) -> (r: bool)
    ensures
        r == (bytes@ == filled(bytes@.len(), b)),
{
    let mut i: usize = 0;
    while i < bytes.len()
        invariant
            i <= bytes.len(),
            forall|j: int| 0 <= j < i ==> bytes@[j] == b,
        decreases bytes.len() - i,
    {
        if bytes[i] != b {
            assert(filled(bytes@.len(), b)[i as int] == b);
            return false;
        }
        i = i + 1;
    }
    assert(bytes@ =~= filled(bytes@.len(), b));
    true
}

impl TextField {
    /// Reads the text of an optional field: none exactly if every byte of the field is
    /// the null sentinel `null`; else all its bytes as text, padding included.
    pub fn decode_optional(&self, data: &[u8], null: u8) -> (r: Result<Option<String>, SbeError>)
        ensures
            match r {
                Ok(None) => self@.is_null(data@, null),
                Ok(Some(s)) => !self@.is_null(data@, null) && self@.decoded(data@) == Some(s@),
                Err(e) => !self@.is_null(data@, null) && self@.decoded(data@) is None && if in_bounds(
                    self.offset,
                    self.length,
                    data@.len(),
                ) {
                    e@ is InvalidStringValue
                } else {
                    e@ == SbeFault::CodecOutOfBounds(
                        access_end(self.offset, self.length),
                        data@.len() as usize,
                    )
                },
            },
    {
        let src = match get_slice_at(data, self.offset, self.length) {
            Ok(s) => s,
            Err(e) => { return Err(e); },
        };
        if all_bytes_are(src, null) {
            return Ok(None);
        }
        match text_from_utf8(src) {
            Ok(s) => Ok(Some(s)),
            Err(message) => Err(SbeError::InvalidStringValue(message)),
        }
    }

    /// Writes an optional text into the field: absence is written as the null sentinel
    /// `null` in every byte of the field.
    pub fn encode_optional(&self, data: &mut Vec<u8>, value: Option<&str>, null: u8) -> (r: Result<
        (),
        SbeError,
    >)
        ensures
            match r {
                Ok(()) => self@.encoded_optional(old(data)@, text_view(value), null) == Ok::<
                    Seq<u8>,
                    SbeFault,
                >(final(data)@),
                Err(e) => self@.encoded_optional(old(data)@, text_view(value), null) == Err::<
                    Seq<u8>,
                    SbeFault,
                >(e@) && final(data)@ == old(data)@,
            },
    {
        match value {
            Some(v) => self.encode(data, v),
            None => {
                let mut bytes: Vec<u8> = Vec::new();
                let mut i: usize = 0;
                while i < self.length
                    invariant
                        i <= self.length,
                        bytes@ == filled(i as nat, null),
                    decreases self.length - i,
                {
                    bytes.push(null);
                    i = i + 1;
                    assert(bytes@ =~= filled(i as nat, null));
                }
                put_bytes_at(data, self.offset, bytes.as_slice())
            },
        }
    }
}

/// An optional text as a sequence of characters.
pub open spec fn text_view(value: Option<&str>) -> Option<Seq<char>> {
    match value {
        Some(v) => Some(v@),
        None => None,
    }
}

/// Optional nullability of a text: encoding absence puts the null sentinel into every
/// byte of the field and changes no other byte, and those bytes are read as absence.
pub proof fn lemma_absent_text_is_null(f: TextFieldView, data: Seq<u8>, null: u8)
    requires
        f.encoded_optional(data, None, null) is Ok,
    ensures
        ({
            let after = f.encoded_optional(data, None, null)->Ok_0;
            &&& after.len() == data.len()
            &&& f.is_null(after, null)
            &&& forall|i: int|
                0 <= i < data.len() && !(f.offset <= i < f.offset + f.length) ==> after[i]
                    == data[i]
        }),
{
    lemma_written_then_read(data, f.offset as int, filled(f.length as nat, null));
}

/// A text that was written into an optional field is read back as a text, unless its
/// bytes with their padding are the null sentinel throughout.
pub proof fn lemma_optional_text_round_trip(f: TextFieldView, data: Seq<u8>, value: Seq<char>, null: u8)
    requires
        f.encoded_optional(data, Some(value), null) is Ok,
        f.padded(value) != filled(f.length as nat, null),
    ensures
        ({
            let after = f.encoded_optional(data, Some(value), null)->Ok_0;
            &&& !f.is_null(after, null)
            &&& f.decoded(after) == Some(value + nuls((f.length - encode_utf8(value).len()) as nat))
        }),
{
    lemma_text_round_trip(f, data, value);
    lemma_written_then_read(data, f.offset as int, f.padded(value));
}

/// Character encoding: an ASCII field refuses every text that holds a character beyond
/// ASCII, with `InvalidStringValue` of that text, and writes nothing.
pub proof fn lemma_ascii_enforced(f: TextFieldView, data: Seq<u8>, value: Seq<char>)
    requires
        f.encoding == Some(CharacterEncoding::Ascii),
        !is_ascii_chars(value),
    ensures
        f.encoded(data, value) == Err::<Seq<u8>, SbeFault>(SbeFault::InvalidStringValue(value)),
{
}

/// The UTF-8 form of two texts in a row is the UTF-8 form of the first, then that of
/// the second.
pub proof fn lemma_encode_utf8_concat(a: Seq<char>, b: Seq<char>)
    ensures
        encode_utf8(a + b) == encode_utf8(a) + encode_utf8(b),
    decreases a.len(),
{
    if a.len() == 0 {
        assert(a + b == b);
        assert(encode_utf8(a) + encode_utf8(b) =~= encode_utf8(b));
    } else {
        assert((a + b).drop_first() == a.drop_first() + b);
        lemma_encode_utf8_concat(a.drop_first(), b);
        assert(encode_utf8(a + b) =~= encode_utf8(a) + encode_utf8(b));
    }
}

/// Round trip of a text: what was encoded is decoded as the same text, followed by one
/// NUL for each byte of padding.
pub proof fn lemma_text_round_trip(f: TextFieldView, data: Seq<u8>, value: Seq<char>)
    requires
        f.encoded(data, value) is Ok,
    ensures
        f.decoded(f.encoded(data, value)->Ok_0) == Some(
            value + nuls((f.length - encode_utf8(value).len()) as nat),
        ),
{
    let k = (f.length - encode_utf8(value).len()) as nat;
    let padding = nuls(k);
    assert(is_ascii_chars(padding));
    vstd::utf8::is_ascii_chars_encode_utf8(padding);
    assert(encode_utf8(padding) =~= zeros(k));
    lemma_encode_utf8_concat(value, padding);
    vstd::utf8::encode_utf8_valid_utf8(value + padding);
    vstd::utf8::encode_utf8_decode_utf8(value + padding);
    lemma_written_then_read(data, f.offset as int, f.padded(value));
}

} // verus!
