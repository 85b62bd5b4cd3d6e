//! The record boundary logic of the named-channel reader: whatever arrives
//! from the channel is split at the last whole-record boundary, so only
//! complete 5-byte records reach the decoder; the trailing partial record
//! is withheld. The channel I/O itself lives outside the library; it hands
//! the raw bytes in and takes the split back.

use vstd::prelude::*;

verus! {

/// Split raw channel bytes at the last whole-record boundary: the first
/// component holds the longest prefix whose length is a multiple of 5, the
/// second whatever trails it (fewer than 5 bytes of a torn record).
pub fn take_complete_records(bytes: &[u8]) -> (r: (Vec<u8>, Vec<u8>))
    ensures
        r.0@ == bytes@.take(bytes@.len() as int - bytes@.len() as int % 5),
        r.1@ == bytes@.skip(bytes@.len() as int - bytes@.len() as int % 5),
        r.0@.len() % 5 == 0,
        r.1@.len() < 5,
{
    let n = bytes.len();
    let split_point = n - n % 5;
    let mut head: Vec<u8> = Vec::new();
    let mut i: usize = 0;
    while i < split_point
        invariant
            i <= split_point,
            split_point == n - n % 5,
            n == bytes.len(),
            head@ == bytes@.take(i as int),
        decreases split_point - i,
    {
        head.push(bytes[i]);
        proof {
            assert(bytes@.take(i + 1) =~= bytes@.take(i as int).push(bytes@[i as int]));
        }
        i = i + 1;
    }
    let mut tail: Vec<u8> = Vec::new();
    let mut j: usize = split_point;
    while j < n
        invariant
            split_point <= j <= n,
            split_point == n - n % 5,
            n == bytes.len(),
            tail@ == bytes@.subrange(split_point as int, j as int),
        decreases n - j,
    {
        tail.push(bytes[j]);
        proof {
            assert(bytes@.subrange(split_point as int, j + 1) =~= bytes@.subrange(
                split_point as int,
                j as int,
            ).push(bytes@[j as int]));
        }
        j = j + 1;
    }
    proof {
        assert(bytes@.subrange(split_point as int, n as int) =~= bytes@.skip(split_point as int));
    }
    (head, tail)
}

/// How many bytes one non-blocking channel read may return: enough for a
/// frame's worth of instructions, and at least 1024.
pub fn read_chunk_cap(instructions_per_frame: usize) -> (r: usize)
    requires
        instructions_per_frame * 5 <= usize::MAX,
    ensures
        r == if instructions_per_frame * 5 > 1024 {
            instructions_per_frame * 5
        } else {
            1024int
        },
{
    let bytes = instructions_per_frame * 5;
    if bytes > 1024 {
        bytes
    } else {
        1024
    }
}

} // verus!
