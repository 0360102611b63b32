//! The keystream transform: XOR every byte of a stream with the key byte at
//! the matching phase of the repeating 8-byte key.

use vstd::prelude::*;

use crate::key::Key;

verus! {

/// Byte `i` of the result is byte `i` of `data` XOR-ed with the key byte at
/// phase `(offset + i) % 8`. `offset` is the position in the overall stream
/// at which `data` begins, so a stream may be transformed in chunks of any
/// size with identical output.
pub open spec fn xor_with_key(data: Seq<u8>, key: Seq<u8>, offset: int) -> Seq<u8>
    recommends
        key.len() == 8,
        0 <= offset,
{
    Seq::new(data.len(), |i: int| data[i] ^ key[(offset + i) % 8])
}

/// XOR `data` in place with the keystream, starting at stream position
/// `offset`.
pub fn xor_chunk(data: &mut Vec<u8>, key: &Key, offset: u64)
    requires
        key.wf(),
    ensures
        final(data)@ == xor_with_key(old(data)@, key@, offset as int),
{
    let mut i: usize = 0;
    let mut phase: usize = (offset % 8) as usize;
    while i < data.len()
        invariant
            key.wf(),
            i <= data@.len(),
            data@.len() == old(data)@.len(),
            phase < 8,
            phase as int == (offset as int + i as int) % 8,
            forall|j: int| 0 <= j < i ==> data@[j] == (old(data)@[j] ^ key@[(offset as int + j) % 8]),
            forall|j: int| i <= j < data@.len() ==> data@[j] == old(data)@[j],
        decreases data@.len() - i,
    {
        let b = data[i];
        let kb = key.bytes[phase];
        data.set(i, b ^ kb);
        i = i + 1;
        if phase == 7 {
            phase = 0;
        } else {
            phase = phase + 1;
        }
    }
    proof {
        assert(data@ =~= xor_with_key(old(data)@, key@, offset as int));
    }
}

/// Round trip: applying the keystream twice at the same offset restores the
/// original bytes, for any length.
pub proof fn lemma_xor_round_trip(data: Seq<u8>, key: Seq<u8>, offset: int)
    requires
        key.len() == 8,
        0 <= offset,
    ensures
        xor_with_key(xor_with_key(data, key, offset), key, offset) == data,
{
    let once = xor_with_key(data, key, offset);
    let twice = xor_with_key(once, key, offset);
    assert forall|i: int| 0 <= i < data.len() implies twice[i] == data[i] by {
        let b = data[i];
        let k = key[(offset + i) % 8];
        assert((b ^ k) ^ k == b) by (bit_vector);
    }
    assert(twice =~= data);
}

/// Splitting a stream at any point and transforming the two parts with the
/// matching offsets gives exactly the transform of the whole: chunk and block
/// sizes are never observable in the output.
pub proof fn lemma_xor_split(data: Seq<u8>, key: Seq<u8>, offset: int, mid: int)
    requires
        key.len() == 8,
        0 <= offset,
        0 <= mid <= data.len(),
    ensures
        xor_with_key(data, key, offset)
            == xor_with_key(data.take(mid), key, offset)
                + xor_with_key(data.skip(mid), key, offset + mid),
{
    let whole = xor_with_key(data, key, offset);
    let parts = xor_with_key(data.take(mid), key, offset)
        + xor_with_key(data.skip(mid), key, offset + mid);
    assert forall|i: int| 0 <= i < data.len() implies parts[i] == whole[i] by {
        if i >= mid {
            assert(data.skip(mid)[i - mid] == data[i]);
            assert((offset + mid) + (i - mid) == offset + i);
        }
    }
    assert(whole =~= parts);
}

} // verus!
