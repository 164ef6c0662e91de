//! Bytes in and out of a buffer, at absolute indices and in the byte order of the schema.
//! Nothing else in the crate touches a byte.

use crate::models::ByteOrder;
use crate::wire::error::{SbeError, SbeFault};
use vstd::prelude::*;

verus! {

/// 256 to the power of `k`: the number of values that `k` bytes can hold.
pub open spec fn pow256(k: nat) -> nat
    decreases k,
{
    if k == 0 {
        1
    } else {
        256 * pow256((k - 1) as nat)
    }
}

/// The number that bytes stand for when the least significant byte comes first.
pub open spec fn le_value(bytes: Seq<u8>) -> nat
    decreases bytes.len(),
{
    if bytes.len() == 0 {
        0
    } else {
        bytes[0] as nat + 256 * le_value(bytes.drop_first())
    }
}

/// The number that bytes stand for when the most significant byte comes first.
pub open spec fn be_value(bytes: Seq<u8>) -> nat
    decreases bytes.len(),
{
    if bytes.len() == 0 {
        0
    } else {
        be_value(bytes.drop_last()) * 256 + bytes.last() as nat
    }
}

/// The `width` bytes of a number, least significant byte first.
pub open spec fn le_bytes(v: nat, width: nat) -> Seq<u8>
    decreases width,
{
    if width == 0 {
        Seq::empty()
    } else {
        seq![(v % 256) as u8] + le_bytes(v / 256, (width - 1) as nat)
    }
}

/// The `width` bytes of a number, most significant byte first.
pub open spec fn be_bytes(v: nat, width: nat) -> Seq<u8>
    decreases width,
{
    if width == 0 {
        Seq::empty()
    } else {
        be_bytes(v / 256, (width - 1) as nat).push((v % 256) as u8)
    }
}

/// The number that bytes stand for in the given order.
pub open spec fn decode_unsigned(bytes: Seq<u8>, order: ByteOrder) -> nat {
    match order {
        ByteOrder::LittleEndian => le_value(bytes),
        ByteOrder::BigEndian => be_value(bytes),
    }
}

/// The `width` bytes of a number in the given order.
pub open spec fn encode_unsigned(v: nat, width: nat, order: ByteOrder) -> Seq<u8> {
    match order {
        ByteOrder::LittleEndian => le_bytes(v, width),
        ByteOrder::BigEndian => be_bytes(v, width),
    }
}

/// The buffer after `bytes` have been written at `index`: the bytes before and after
/// stay as they were.
pub open spec fn written(data: Seq<u8>, index: int, bytes: Seq<u8>) -> Seq<u8> {
    data.subrange(0, index) + bytes + data.subrange(index + bytes.len(), data.len() as int)
}

pub proof fn lemma_pow256_values()
    ensures
        pow256(0) == 1,
        pow256(1) == 0x100,
        pow256(2) == 0x1_0000,
        pow256(3) == 0x100_0000,
        pow256(4) == 0x1_0000_0000,
        pow256(5) == 0x100_0000_0000,
        pow256(6) == 0x1_0000_0000_0000,
        pow256(7) == 0x100_0000_0000_0000,
        pow256(8) == 0x1_0000_0000_0000_0000,
{
    assert(pow256(1) == 256 * pow256(0));
    assert(pow256(2) == 256 * pow256(1));
    assert(pow256(3) == 256 * pow256(2));
    assert(pow256(4) == 256 * pow256(3));
    assert(pow256(5) == 256 * pow256(4));
    assert(pow256(6) == 256 * pow256(5));
    assert(pow256(7) == 256 * pow256(6));
    assert(pow256(8) == 256 * pow256(7));
}

/// Bytes stand for a number below 256 to the power of their count.
pub proof fn lemma_value_bound(bytes: Seq<u8>, order: ByteOrder)
    ensures
        decode_unsigned(bytes, order) < pow256(bytes.len()),
    decreases bytes.len(),
{
    if bytes.len() > 0 {
        match order {
            ByteOrder::LittleEndian => {
                lemma_value_bound(bytes.drop_first(), order);
            },
            ByteOrder::BigEndian => {
                lemma_value_bound(bytes.drop_last(), order);
            },
        }
    }
}

/// A number has as many bytes as were asked for.
pub proof fn lemma_encoded_len(v: nat, width: nat, order: ByteOrder)
    ensures
        encode_unsigned(v, width, order).len() == width,
    decreases width,
{
    if width > 0 {
        lemma_encoded_len(v / 256, (width - 1) as nat, order);
    }
}

/// Reading what was written gives the number back, in either byte order, as long as the
/// number fits in the bytes.
pub proof fn lemma_unsigned_round_trip(v: nat, width: nat, order: ByteOrder)
    requires
        v < pow256(width),
    ensures
        decode_unsigned(encode_unsigned(v, width, order), order) == v,
    decreases width,
{
    if width > 0 {
        lemma_unsigned_round_trip(v / 256, (width - 1) as nat, order);
        match order {
            ByteOrder::LittleEndian => {
                let bytes = le_bytes(v, width);
                assert(bytes.drop_first() == le_bytes(v / 256, (width - 1) as nat));
            },
            ByteOrder::BigEndian => {
                let bytes = be_bytes(v, width);
                assert(bytes.drop_last() == be_bytes(v / 256, (width - 1) as nat));
            },
        }
    }
}

/// Writing what was read gives the bytes back.
pub proof fn lemma_bytes_round_trip(bytes: Seq<u8>, order: ByteOrder)
    ensures
        encode_unsigned(decode_unsigned(bytes, order), bytes.len(), order) == bytes,
    decreases bytes.len(),
{
    if bytes.len() > 0 {
        match order {
            ByteOrder::LittleEndian => {
                lemma_bytes_round_trip(bytes.drop_first(), order);
                let v = le_value(bytes);
                assert(v % 256 == bytes[0] as nat);
                assert(v / 256 == le_value(bytes.drop_first()));
                assert(le_bytes(v, bytes.len()) =~= bytes);
            },
            ByteOrder::BigEndian => {
                lemma_bytes_round_trip(bytes.drop_last(), order);
                let v = be_value(bytes);
                assert(v % 256 == bytes.last() as nat);
                assert(v / 256 == be_value(bytes.drop_last()));
                assert(be_bytes(v, bytes.len()) =~= bytes);
            },
        }
    }
}

/// The end of an access of `len` bytes at `index`, as far as a `usize` can tell it.
pub open spec fn access_end(index: usize, len: usize) -> usize {
    if index + len > usize::MAX {
        usize::MAX
    } else {
        (index + len) as usize
    }
}

/// An end of an access as a `usize`: an end beyond what a `usize` can hold is told as the
/// greatest `usize`.
pub open spec fn clamped(end: int) -> usize {
    if end > usize::MAX {
        usize::MAX
    } else if end < 0 {
        0
    } else {
        end as usize
    }
}

/// Whether `len` bytes at `index` lie within a buffer of `size` bytes.
pub open spec fn in_bounds(index: usize, len: usize, size: nat) -> bool {
    index + len <= size
}

fn checked_end(index: usize, len: usize, size: usize) -> (r: Result<usize, SbeError>)
    ensures
        match r {
            Ok(end) => in_bounds(index, len, size as nat) && end == index + len,
            Err(e) => !in_bounds(index, len, size as nat) && e@ == SbeFault::CodecOutOfBounds(
                access_end(index, len),
                size,
            ),
        },
{
    match index.checked_add(len) {
        Some(end) => if end > size {
            Err(SbeError::CodecOutOfBounds(end, size))
        } else {
            Ok(end)
        },
        None => Err(SbeError::CodecOutOfBounds(usize::MAX, size)),
    }
}

/// Reads an unsigned number of `width` bytes at `index`.
pub fn get_unsigned_at(data: &[u8], order: ByteOrder, index: usize, width: usize) -> (r: Result<
    u64,
    SbeError,
>)
    requires
        width <= 8,
    ensures
        match r {
            Ok(v) => in_bounds(index, width, data@.len()) && v == decode_unsigned(
                data@.subrange(index as int, index + width),
                order,
            ),
            Err(e) => !in_bounds(index, width, data@.len()) && e@ == SbeFault::CodecOutOfBounds(
                access_end(index, width),
                data@.len() as usize,
            ),
        },
{
    let end = match checked_end(index, width, data.len()) {
        Ok(end) => end,
        Err(e) => { return Err(e); },
    };
    let ghost bytes = data@.subrange(index as int, end as int);
    proof {
        lemma_pow256_values();
    }
    let mut value: u64 = 0;
    match order {
        ByteOrder::LittleEndian => {
            let mut i: usize = width;
            assert(bytes.subrange(width as int, width as int) =~= Seq::<u8>::empty());
            while i > 0
                invariant
                    i <= width <= 8,
                    end == index + width,
                    end <= data@.len(),
                    bytes == data@.subrange(index as int, end as int),
                    value == le_value(bytes.subrange(i as int, width as int)),
                decreases i,
            {
                proof {
                    lemma_value_bound(bytes.subrange(i as int, width as int), ByteOrder::LittleEndian);
                    lemma_pow256_bounded((width - i) as nat);
                    let next = bytes.subrange(i as int - 1, width as int);
                    assert(next.drop_first() == bytes.subrange(i as int, width as int));
                    assert(next[0] == data@[index + i - 1]);
                }
                i = i - 1;
                value = value * 256 + data[index + i] as u64;
            }
            assert(bytes.subrange(0, width as int) == bytes);
        },
        ByteOrder::BigEndian => {
            let mut i: usize = 0;
            assert(bytes.subrange(0, 0) =~= Seq::<u8>::empty());
            while i < width
                invariant
                    i <= width <= 8,
                    end == index + width,
                    end <= data@.len(),
                    bytes == data@.subrange(index as int, end as int),
                    value == be_value(bytes.subrange(0, i as int)),
                decreases width - i,
            {
                proof {
                    lemma_value_bound(bytes.subrange(0, i as int), ByteOrder::BigEndian);
                    lemma_pow256_bounded(i as nat);
                    let next = bytes.subrange(0, i as int + 1);
                    assert(next.drop_last() == bytes.subrange(0, i as int));
                    assert(next.last() == data@[index + i]);
                }
                value = value * 256 + data[index + i] as u64;
                i = i + 1;
            }
            assert(bytes.subrange(0, width as int) == bytes);
        },
    }
    Ok(value)
}

/// Up to seven bytes hold less than 256 to the power of seven.
pub proof fn lemma_pow256_bounded(k: nat)
    requires
        k <= 7,
    ensures
        pow256(k) <= 0x100_0000_0000_0000,
{
    lemma_pow256_values();
    if k == 0 {
    } else if k == 1 {
    } else if k == 2 {
    } else if k == 3 {
    } else if k == 4 {
    } else if k == 5 {
    } else if k == 6 {
    } else {
    }
}

/// Writes bytes at `index`.  The buffer keeps its length; nothing else changes.
pub fn put_bytes_at(data: &mut Vec<u8>, index: usize, bytes: &[u8]) -> (r: Result<(), SbeError>)
    ensures
        match r {
            Ok(()) => in_bounds(index, bytes@.len() as usize, old(data)@.len()) && final(data)@
                == written(old(data)@, index as int, bytes@),
            Err(e) => !in_bounds(index, bytes@.len() as usize, old(data)@.len()) && final(data)@
                == old(data)@ && e@ == SbeFault::CodecOutOfBounds(
                access_end(index, bytes@.len() as usize),
                old(data)@.len() as usize,
            ),
        },
{
    let end = match checked_end(index, bytes.len(), data.len()) {
        Ok(end) => end,
        Err(e) => { return Err(e); },
    };
    let ghost before = data@;
    let mut i: usize = 0;
    assert(data@ =~= written(before, index as int, bytes@.subrange(0, 0)));
    while i < bytes.len()
        invariant
            i <= bytes.len(),
            end == index + bytes.len(),
            end <= before.len(),
            data@.len() == before.len(),
            data@ == written(before, index as int, bytes@.subrange(0, i as int)),
        decreases bytes.len() - i,
    {
        data.set(index + i, bytes[i]);
        i = i + 1;
        assert(data@ =~= written(before, index as int, bytes@.subrange(0, i as int)));
    }
    assert(bytes@.subrange(0, i as int) == bytes@);
    Ok(())
}

/// The bytes of an unsigned number in the given order.
pub fn unsigned_bytes(value: u64, width: usize, order: ByteOrder) -> (r: Vec<u8>)
    requires
        width <= 8,
    ensures
        r@ == encode_unsigned(value as nat, width as nat, order),
    decreases width,
{
    if width == 0 {
        Vec::new()
    } else {
        let low = (value % 256) as u8;
        let rest = unsigned_bytes(value / 256, width - 1, order);
        match order {
            ByteOrder::LittleEndian => {
                let mut out: Vec<u8> = Vec::new();
                out.push(low);
                let mut i: usize = 0;
                while i < rest.len()
                    invariant
                        i <= rest.len(),
                        out@ == seq![low] + rest@.subrange(0, i as int),
                    decreases rest.len() - i,
                {
                    out.push(rest[i]);
                    i = i + 1;
                    assert(out@ =~= seq![low] + rest@.subrange(0, i as int));
                }
                assert(rest@.subrange(0, i as int) == rest@);
                out
            },
            ByteOrder::BigEndian => {
                let mut out = rest;
                out.push(low);
                out
            },
        }
    }
}

/// Writes an unsigned number of `width` bytes at `index`.
pub fn put_unsigned_at(
    data: &mut Vec<u8>,
    order: ByteOrder,
    index: usize,
    width: usize,
    value: u64,
) -> (r: Result<(), SbeError>)
    requires
        width <= 8,
    ensures
        match r {
            Ok(()) => in_bounds(index, width, old(data)@.len()) && final(data)@ == written(
                old(data)@,
                index as int,
                encode_unsigned(value as nat, width as nat, order),
            ),
            Err(e) => !in_bounds(index, width, old(data)@.len()) && final(data)@ == old(data)@
                && e@ == SbeFault::CodecOutOfBounds(
                access_end(index, width),
                old(data)@.len() as usize,
            ),
        },
{
    let bytes = unsigned_bytes(value, width, order);
    proof {
        lemma_encoded_len(value as nat, width as nat, order);
    }
    put_bytes_at(data, index, bytes.as_slice())
}

/// A view of `len` bytes at `index`.
pub fn get_slice_at(data: &[u8], index: usize, len: usize) -> (r: Result<&[u8], SbeError>)
    ensures
        match r {
            Ok(s) => in_bounds(index, len, data@.len()) && s@ == data@.subrange(
                index as int,
                index + len,
            ),
            Err(e) => !in_bounds(index, len, data@.len()) && e@ == SbeFault::CodecOutOfBounds(
                access_end(index, len),
                data@.len() as usize,
            ),
        },
{
    let end = match checked_end(index, len, data.len()) {
        Ok(end) => end,
        Err(e) => { return Err(e); },
    };
    Ok(vstd::slice::slice_subrange(data, index, end))
}

/// Two views of one buffer: the bytes before `index`, and those from `index` on.
/// A split at the very end gives an empty second view; only an index beyond the end is
/// refused.
pub fn split_at(data: &[u8], index: usize) -> (r: Result<(&[u8], &[u8]), SbeError>)
    ensures
        match r {
            Ok((before, after)) => index <= data@.len() && before@ == data@.subrange(
                0,
                index as int,
            ) && after@ == data@.subrange(index as int, data@.len() as int),
            Err(e) => index > data@.len() && e@ == SbeFault::CodecOutOfBounds(
                index,
                data@.len() as usize,
            ),
        },
{
    if index > data.len() {
        return Err(SbeError::CodecOutOfBounds(index, data.len()));
    }
    Ok(
        (
            vstd::slice::slice_subrange(data, 0, index),
            vstd::slice::slice_subrange(data, index, data.len()),
        ),
    )
}

/// What was written is read back, and no byte outside the written ones has changed.
pub proof fn lemma_written_then_read(data: Seq<u8>, index: int, bytes: Seq<u8>)
    requires
        0 <= index,
        index + bytes.len() <= data.len(),
    ensures
        written(data, index, bytes).len() == data.len(),
        written(data, index, bytes).subrange(index, index + bytes.len()) == bytes,
        forall|i: int|
            0 <= i < data.len() && !(index <= i < index + bytes.len()) ==> written(
                data,
                index,
                bytes,
            )[i] == data[i],
{
    assert(written(data, index, bytes).subrange(index, index + bytes.len()) =~= bytes);
}

/// A write leaves every other stretch of the buffer as it was: what is read from a
/// stretch that does not overlap the written one is what was there before.
pub proof fn lemma_written_elsewhere(
    data: Seq<u8>,
    index: int,
    bytes: Seq<u8>,
    other: int,
    len: int,
)
    requires
        0 <= index,
        index + bytes.len() <= data.len(),
        0 <= other,
        0 <= len,
        other + len <= data.len(),
        other + len <= index || index + bytes.len() <= other,
    ensures
        written(data, index, bytes).subrange(other, other + len) == data.subrange(
            other,
            other + len,
        ),
{
    assert(written(data, index, bytes).subrange(other, other + len) =~= data.subrange(
        other,
        other + len,
    ));
}

/// The buffer after the first `n` of `writes` have been carried out, one after the other.
/// A write is an index and the bytes that are written there.
pub open spec fn all_written(data: Seq<u8>, writes: Seq<(int, Seq<u8>)>, n: nat) -> Seq<u8>
    decreases n,
{
    if n == 0 || n > writes.len() {
        data
    } else {
        written(all_written(data, writes, (n - 1) as nat), writes[n - 1].0, writes[n - 1].1)
    }
}

/// Every write lies within a buffer of `size` bytes.
pub open spec fn writes_within(writes: Seq<(int, Seq<u8>)>, size: nat) -> bool {
    forall|i: int|
        0 <= i < writes.len() ==> 0 <= (#[trigger] writes[i]).0 && writes[i].0 + writes[i].1.len()
            <= size
}

/// No two writes touch the same byte.
pub open spec fn writes_apart(writes: Seq<(int, Seq<u8>)>) -> bool {
    forall|i: int, j: int|
        0 <= i < j < writes.len() ==> (#[trigger] writes[i]).0 + writes[i].1.len() <= (
        #[trigger] writes[j]).0 || writes[j].0 + writes[j].1.len() <= writes[i].0
}

/// Round trip of everything that is written: when the writes of an encoder touch no byte
/// twice, every stretch that was written reads back as the bytes that were written
/// there, the buffer keeps its length, and every byte outside the written stretches
/// stays as it was.  This holds of a message of any shape: its fields, the headers of
/// its groups and the prefixes and contents of its variable-length fields are so many
/// writes.
pub proof fn lemma_all_written(data: Seq<u8>, writes: Seq<(int, Seq<u8>)>, n: nat)
    requires
        n <= writes.len(),
        writes_within(writes, data.len()),
        writes_apart(writes),
    ensures
        all_written(data, writes, n).len() == data.len(),
        forall|i: int|
            0 <= i < n ==> all_written(data, writes, n).subrange(
                (#[trigger] writes[i]).0,
                writes[i].0 + writes[i].1.len(),
            ) == writes[i].1,
        forall|k: int|
            0 <= k < data.len() && (forall|i: int|
                0 <= i < n ==> !((#[trigger] writes[i]).0 <= k < writes[i].0 + writes[i].1.len()))
                ==> all_written(data, writes, n)[k] == data[k],
    decreases n,
{
    if n > 0 {
        let before = all_written(data, writes, (n - 1) as nat);
        let last = writes[n - 1];
        lemma_all_written(data, writes, (n - 1) as nat);
        lemma_written_then_read(before, last.0, last.1);
        let after = all_written(data, writes, n);
        assert forall|i: int| 0 <= i < n implies after.subrange(
            (#[trigger] writes[i]).0,
            writes[i].0 + writes[i].1.len(),
        ) == writes[i].1 by {
            if i < n - 1 {
                assert(writes[i].0 + writes[i].1.len() <= last.0 || last.0 + last.1.len()
                    <= writes[i].0);
                lemma_written_elsewhere(
                    before,
                    last.0,
                    last.1,
                    writes[i].0,
                    writes[i].1.len() as int,
                );
            }
        }
        assert forall|k: int|
            0 <= k < data.len() && (forall|i: int|
                0 <= i < n ==> !((#[trigger] writes[i]).0 <= k < writes[i].0
                    + writes[i].1.len())) implies after[k] == data[k] by {
            assert(!(writes[n - 1].0 <= k < writes[n - 1].0 + writes[n - 1].1.len()));
            assert(forall|i: int|
                0 <= i < n - 1 ==> !((#[trigger] writes[i]).0 <= k < writes[i].0
                    + writes[i].1.len()));
        }
    }
}

} // verus!
