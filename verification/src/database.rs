//! The fixed-offset record store: a small byte file holds the high-score
//! record as four little-endian bytes at offset zero (two more four-byte
//! slots hold the sound and music volumes). This module is the store's
//! codec: reading four bytes at an offset (short stores read as zeros, as a
//! partial file read leaves the zeroed buffer), writing four bytes at an
//! offset (growing the store with a zero gap if it is short), and the
//! little-endian coding of a signed 32-bit value. The file itself is read
//! and written by the shell around the crate.

use vstd::prelude::*;

verus! {

/// Byte offset of the record slot in the store.
pub const RECORD_OFFSET: usize = 0;

/// Byte offset of the sound-volume slot in the store.
pub const SOUND_VOLUME_OFFSET: usize = 4;

/// Byte offset of the music-volume slot in the store.
pub const MUSIC_VOLUME_OFFSET: usize = 8;

/// The record reported when no store exists yet.
pub const DEFAULT_RECORD: i32 = 0;

/// The four bytes at `from_start` in the store; positions past the end of
/// the store read as zero.
pub open spec fn spec_u8x4_at(data: Seq<u8>, from_start: int) -> Seq<u8> {
    Seq::new(
        4,
        |i: int|
            if from_start + i < data.len() {
                data[from_start + i]
            } else {
                0u8
            },
    )
}

/// The store after the four `bytes` are written at `from_start`: the slot
/// holds the bytes, everything else keeps its value, and a store shorter
/// than `from_start` grows with a zero gap.
pub open spec fn spec_save_u8x4(data: Seq<u8>, from_start: int, bytes: Seq<u8>) -> Seq<u8> {
    let new_len = if data.len() >= from_start + 4 {
        data.len() as int
    } else {
        from_start + 4
    };
    Seq::new(
        new_len as nat,
        |i: int|
            if from_start <= i < from_start + 4 {
                bytes[i - from_start]
            } else if i < data.len() {
                data[i]
            } else {
                0u8
            },
    )
}

/// The unsigned value of four little-endian bytes.
pub open spec fn spec_u32_from_le(b: Seq<u8>) -> int {
    b[0] + 256 * b[1] + 65536 * b[2] + 16777216 * b[3]
}

/// The signed 32-bit value of four little-endian bytes, in two's complement.
pub open spec fn spec_i32_from_le(b: Seq<u8>) -> int {
    let u = spec_u32_from_le(b);
    if u >= 0x8000_0000 {
        u - 0x1_0000_0000
    } else {
        u
    }
}

/// The four little-endian bytes of a signed 32-bit value, in two's
/// complement.
pub open spec fn spec_le_of_i32(v: int) -> Seq<u8> {
    let u = if v < 0 {
        v + 0x1_0000_0000
    } else {
        v
    };
    seq![
        (u % 256) as u8,
        (u / 256 % 256) as u8,
        (u / 256 / 256 % 256) as u8,
        (u / 256 / 256 / 256 % 256) as u8,
    ]
}

/// Read the four bytes at `from_start`, zero-filled past the end of the
/// store.
pub fn get_u8x4_data(data: &Vec<u8>, from_start: usize) -> (r: [u8; 4])
    requires
        from_start + 4 <= usize::MAX,
    ensures
        r@ == spec_u8x4_at(data@, from_start as int),
{
    let b0 = if from_start < data.len() {
        data[from_start]
    } else {
        0
    };
    let b1 = if from_start + 1 < data.len() {
        data[from_start + 1]
    } else {
        0
    };
    let b2 = if from_start + 2 < data.len() {
        data[from_start + 2]
    } else {
        0
    };
    let b3 = if from_start + 3 < data.len() {
        data[from_start + 3]
    } else {
        0
    };
    let r = [b0, b1, b2, b3];
    proof {
        assert(r@ =~= spec_u8x4_at(data@, from_start as int));
    }
    r
}

/// Write the four `bytes` at `from_start`, growing the store with a zero
/// gap if it is shorter than the offset.
pub fn save_u8x4_data(data: &mut Vec<u8>, from_start: usize, bytes: [u8; 4])
    requires
        from_start + 4 <= usize::MAX,
    ensures
        final(data)@ == spec_save_u8x4(old(data)@, from_start as int, bytes@),
{
    while data.len() < from_start
        invariant
            old(data)@.len() <= data@.len(),
            data@.len() <= from_start || data@.len() == old(data)@.len(),
            forall|i: int| 0 <= i < old(data)@.len() ==> data@[i] == old(data)@[i],
            forall|i: int| old(data)@.len() <= i < data@.len() ==> data@[i] == 0u8,
        decreases from_start - data@.len(),
    {
        data.push(0);
    }
    let mut k: usize = 0;
    while k < 4
        invariant
            0 <= k <= 4,
            from_start + 4 <= usize::MAX,
            data@.len() == if from_start + k > old(data)@.len() {
                from_start + k
            } else {
                old(data)@.len() as int
            },
            data@.len() >= from_start + k,
            forall|i: int|
                0 <= i < data@.len() ==> data@[i] == (if from_start <= i < from_start + k {
                    bytes@[i - from_start]
                } else if i < old(data)@.len() {
                    old(data)@[i]
                } else {
                    0u8
                }),
        decreases 4 - k,
    {
        if from_start + k < data.len() {
            data[from_start + k] = bytes[k];
        } else {
            data.push(bytes[k]);
        }
        k += 1;
    }
    proof {
        assert(data@ =~= spec_save_u8x4(old(data)@, from_start as int, bytes@));
    }
}

/// The signed 32-bit value read from four little-endian bytes.
pub fn i32_from_le_bytes(b: [u8; 4]) -> (r: i32)
    ensures
        r as int == spec_i32_from_le(b@),
{
    let u: u32 = b[0] as u32 + 256 * (b[1] as u32) + 65536 * (b[2] as u32) + 16777216 * (
    b[3] as u32);
    if u >= 0x8000_0000 {
        let m = (u32::MAX - u) as i32;
        -m - 1
    } else {
        u as i32
    }
}

/// The four little-endian bytes of a signed 32-bit value.
pub fn i32_to_le_bytes(v: i32) -> (r: [u8; 4])
    ensures
        r@ == spec_le_of_i32(v as int),
{
    let u: u32 = if v >= 0 {
        v as u32
    } else {
        let m = (-(v + 1)) as u32;
        u32::MAX - m
    };
    let q1 = u / 256;
    let q2 = q1 / 256;
    let q3 = q2 / 256;
    let r = [(u % 256) as u8, (q1 % 256) as u8, (q2 % 256) as u8, (q3 % 256) as u8];
    proof {
        assert(r@ =~= spec_le_of_i32(v as int));
    }
    r
}

/// The record held in the store: the signed 32-bit value at the record
/// slot, little-endian; with no store at all, the default record.
pub fn get_record(file: &Option<Vec<u8>>) -> (r: i32)
    ensures
        r as int == match file {
            Some(data) => spec_i32_from_le(spec_u8x4_at(data@, RECORD_OFFSET as int)),
            None => DEFAULT_RECORD as int,
        },
{
    match file {
        None => DEFAULT_RECORD,
        Some(data) => {
            let bytes = get_u8x4_data(data, RECORD_OFFSET);
            i32_from_le_bytes(bytes)
        },
    }
}

/// Write `record` into the store's record slot, little-endian.
pub fn save_record(data: &mut Vec<u8>, record: i32)
    ensures
        final(data)@ == spec_save_u8x4(
            old(data)@,
            RECORD_OFFSET as int,
            spec_le_of_i32(record as int),
        ),
{
    let bytes = i32_to_le_bytes(record);
    save_u8x4_data(data, RECORD_OFFSET, bytes);
}

/// Writing a value into a slot and reading the slot back gives the four
/// bytes just written, whatever the store held before.
pub proof fn lemma_u8x4_round_trip(data: Seq<u8>, from_start: int, bytes: Seq<u8>)
    requires
        0 <= from_start,
        bytes.len() == 4,
    ensures
        spec_u8x4_at(spec_save_u8x4(data, from_start, bytes), from_start) == bytes,
{
    assert(spec_u8x4_at(spec_save_u8x4(data, from_start, bytes), from_start) =~= bytes);
}

/// The little-endian coding of a signed 32-bit value reads back as the same
/// value.
pub proof fn lemma_i32_le_round_trip(v: int)
    requires
        i32::MIN <= v <= i32::MAX,
    ensures
        spec_i32_from_le(spec_le_of_i32(v)) == v,
{
    let u = if v < 0 {
        v + 0x1_0000_0000
    } else {
        v
    };
    assert(0 <= u < 0x1_0000_0000);
    let b = spec_le_of_i32(v);
    let q1 = u / 256;
    let q2 = q1 / 256;
    let q3 = q2 / 256;
    vstd::arithmetic::div_mod::lemma_fundamental_div_mod(u, 256);
    vstd::arithmetic::div_mod::lemma_fundamental_div_mod(q1, 256);
    vstd::arithmetic::div_mod::lemma_fundamental_div_mod(q2, 256);
    assert(0 <= u % 256 < 256 && 0 <= q1 % 256 < 256 && 0 <= q2 % 256 < 256) by {
        vstd::arithmetic::div_mod::lemma_mod_bound(u, 256);
        vstd::arithmetic::div_mod::lemma_mod_bound(q1, 256);
        vstd::arithmetic::div_mod::lemma_mod_bound(q2, 256);
    }
    assert(0 <= q3 < 256) by (nonlinear_arith)
        requires
            0 <= u < 0x1_0000_0000,
            q1 == u / 256,
            q2 == q1 / 256,
            q3 == q2 / 256,
    ;
    vstd::arithmetic::div_mod::lemma_small_mod(q3 as nat, 256);
    assert(spec_u32_from_le(b) == u);
}

/// Saving a record and loading it back gives the record: the store round
/// trip is the identity on the value.
pub proof fn lemma_record_round_trip(data: Seq<u8>, record: i32)
    ensures
        spec_i32_from_le(
            spec_u8x4_at(
                spec_save_u8x4(data, RECORD_OFFSET as int, spec_le_of_i32(record as int)),
                RECORD_OFFSET as int,
            ),
        ) == record as int,
{
    lemma_u8x4_round_trip(data, RECORD_OFFSET as int, spec_le_of_i32(record as int));
    lemma_i32_le_round_trip(record as int);
}

} // verus!
