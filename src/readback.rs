//! The staging-mirror protocol and the decoding of read-back bytes.

use vstd::prelude::*;
use crate::descriptor::{Descriptor, DESCRIPTOR_WORDS};
use crate::matching::{record_latest, record_previous};

verus! {

/// A corner position, in frame pixels.
#[derive(Clone, Copy, Debug, PartialEq, Eq, Structural)]
pub struct Corner {
    pub x: u32,
    pub y: u32,
}

#[derive(Clone, Copy, Debug, PartialEq, Eq, Structural)]
pub enum ReadbackError {
    /// The device refused or cancelled the mapping of a mirror.
    MapFailed,
    /// The device was lost; the pipeline must be rebuilt.
    DeviceLost,
    /// The mirror is still mapped, or a mapping of it is under way.
    MirrorBusy,
    /// The event does not follow from the mirror's state.
    OutOfOrder,
    /// The bytes read back are fewer than the records they should hold.
    ShortBuffer,
}

/// Where a staging mirror stands in the read-back protocol.
#[derive(Clone, Copy, Debug, PartialEq, Eq, Structural)]
pub enum MirrorState {
    /// Free: no copy into it is pending.
    Idle,
    /// A copy into it was recorded in a submitted or pending cycle.
    Copied,
    /// A map request is outstanding.
    Mapping,
    /// Mapped for reading; it must be unmapped before it is reused.
    Mapped,
    /// The device was lost.
    Lost,
}

#[derive(Clone, Copy, Debug, PartialEq, Eq, Structural)]
pub enum MirrorEvent {
    CopyRecorded,
    MapRequested,
    MapSucceeded,
    MapFailed,
    DeviceLost,
    Unmapped,
}

/// The state of a mirror after `e`, or the error that `e` is in state `s`.
pub open spec fn mirror_next(s: MirrorState, e: MirrorEvent) -> Result<MirrorState, ReadbackError> {
    match (s, e) {
        (MirrorState::Lost, _) => Err(ReadbackError::DeviceLost),
        (_, MirrorEvent::DeviceLost) => Ok(MirrorState::Lost),
        (MirrorState::Idle, MirrorEvent::CopyRecorded) => Ok(MirrorState::Copied),
        (MirrorState::Copied, MirrorEvent::CopyRecorded) => Ok(MirrorState::Copied),
        (MirrorState::Copied, MirrorEvent::MapRequested) => Ok(MirrorState::Mapping),
        (MirrorState::Mapping, MirrorEvent::MapSucceeded) => Ok(MirrorState::Mapped),
        (MirrorState::Mapping, MirrorEvent::MapFailed) => Ok(MirrorState::Idle),
        (MirrorState::Mapped, MirrorEvent::Unmapped) => Ok(MirrorState::Idle),
        (MirrorState::Mapping, _) | (MirrorState::Mapped, _) => Err(ReadbackError::MirrorBusy),
        _ => Err(ReadbackError::OutOfOrder),
    }
}

/// One step of the read-back protocol of a mirror: copy, map request,
/// map completion, read, unmap. A copy or a new map request while the
/// mirror is being mapped or is mapped fails with `MirrorBusy`.
pub fn mirror_step(s: MirrorState, e: MirrorEvent) -> (r: Result<MirrorState, ReadbackError>)
    ensures
        r == mirror_next(s, e),
{
    match (s, e) {
        (MirrorState::Lost, _) => Err(ReadbackError::DeviceLost),
        (_, MirrorEvent::DeviceLost) => Ok(MirrorState::Lost),
        (MirrorState::Idle, MirrorEvent::CopyRecorded) => Ok(MirrorState::Copied),
        (MirrorState::Copied, MirrorEvent::CopyRecorded) => Ok(MirrorState::Copied),
        (MirrorState::Copied, MirrorEvent::MapRequested) => Ok(MirrorState::Mapping),
        (MirrorState::Mapping, MirrorEvent::MapSucceeded) => Ok(MirrorState::Mapped),
        (MirrorState::Mapping, MirrorEvent::MapFailed) => Ok(MirrorState::Idle),
        (MirrorState::Mapped, MirrorEvent::Unmapped) => Ok(MirrorState::Idle),
        (MirrorState::Mapping, _) | (MirrorState::Mapped, _) => Err(ReadbackError::MirrorBusy),
        _ => Err(ReadbackError::OutOfOrder),
    }
}

/// The little-endian 32-bit word at byte `off` of `b`.
pub open spec fn le_word(b: Seq<u8>, off: int) -> u32 {
    (b[off] as int + 256 * b[off + 1] as int + 65536 * b[off + 2] as int + 16777216
        * b[off + 3] as int) as u32
}

/// The count of written records that a raw counter stands for.
pub open spec fn clamp_count(raw: u32, capacity: u32) -> u32 {
    if raw <= capacity {
        raw
    } else {
        capacity
    }
}

pub open spec fn corner_at(b: Seq<u8>, k: int) -> Corner {
    Corner { x: le_word(b, 8 * k), y: le_word(b, 8 * k + 4) }
}

pub open spec fn descriptor_at(b: Seq<u8>, k: int) -> Seq<u32> {
    Seq::new(DESCRIPTOR_WORDS as nat, |w: int| le_word(b, 32 * k + 4 * w))
}

/// Reads the little-endian word at byte `off`.
pub fn read_le_word(b: &Vec<u8>, off: usize) -> (r: u32)
    requires
        off + 4 <= b@.len(),
    ensures
        r == le_word(b@, off as int),
{
    let n: usize = b.len();
    assert(off + 4 <= n);
    let w = b[off] as u32 + 256 * (b[off + 1] as u32) + 65536 * (b[off + 2] as u32) + 16777216
        * (b[off + 3] as u32);
    w
}

/// The number of written records behind a counter read back from the GPU:
/// the counter may exceed the capacity after dropped appends, so it is clamped.
pub fn decode_count(counter_bytes: &Vec<u8>, capacity: u32) -> (r: Result<u32, ReadbackError>)
    ensures
        counter_bytes@.len() < 4 ==> r == Err::<u32, ReadbackError>(ReadbackError::ShortBuffer),
        counter_bytes@.len() >= 4 ==> r == Ok::<u32, ReadbackError>(
            clamp_count(le_word(counter_bytes@, 0), capacity),
        ),
        r matches Ok(n) ==> n <= capacity,
{
    if counter_bytes.len() < 4 {
        return Err(ReadbackError::ShortBuffer);
    }
    let raw = read_le_word(counter_bytes, 0);
    if raw <= capacity {
        Ok(raw)
    } else {
        Ok(capacity)
    }
}

/// The first `count` corner records of a corner list read back from the GPU.
pub fn decode_corners(bytes: &Vec<u8>, count: u32) -> (r: Result<Vec<Corner>, ReadbackError>)
    ensures
        bytes@.len() < 8 * count ==> r is Err && r->Err_0 == ReadbackError::ShortBuffer,
        bytes@.len() >= 8 * count ==> r is Ok && r->Ok_0@ == Seq::new(
            count as nat,
            |k: int| corner_at(bytes@, k),
        ),
{
    if (bytes.len() as u64) < 8 * (count as u64) {
        return Err(ReadbackError::ShortBuffer);
    }
    let len: usize = bytes.len();
    let mut out: Vec<Corner> = Vec::new();
    let mut k: usize = 0;
    while k < count as usize
        invariant
            k <= count,
            8 * count <= bytes@.len(),
            len == bytes@.len(),
            out@ == Seq::new(k as nat, |i: int| corner_at(bytes@, i)),
        decreases count - k,
    {
        let x = read_le_word(bytes, 8 * k);
        let y = read_le_word(bytes, 8 * k + 4);
        out.push(Corner { x, y });
        k = k + 1;
        proof {
            assert(out@ =~= Seq::new(k as nat, |i: int| corner_at(bytes@, i)));
        }
    }
    Ok(out)
}

/// The first `count` descriptors of a descriptor table read back from the GPU.
pub fn decode_descriptors(bytes: &Vec<u8>, count: u32) -> (r: Result<Vec<Descriptor>, ReadbackError>)
    ensures
        bytes@.len() < 32 * count ==> r is Err && r->Err_0 == ReadbackError::ShortBuffer,
        bytes@.len() >= 32 * count ==> r is Ok && r->Ok_0@.len() == count && forall|k: int|
            0 <= k < count ==> (#[trigger] r->Ok_0@[k])@ == descriptor_at(bytes@, k),
{
    if (bytes.len() as u64) < 32 * (count as u64) {
        return Err(ReadbackError::ShortBuffer);
    }
    let len: usize = bytes.len();
    let mut out: Vec<Descriptor> = Vec::new();
    let mut k: usize = 0;
    while k < count as usize
        invariant
            k <= count,
            32 * count <= bytes@.len(),
            len == bytes@.len(),
            out@.len() == k,
            forall|i: int| 0 <= i < k ==> (#[trigger] out@[i])@ == descriptor_at(bytes@, i),
        decreases count - k,
    {
        let mut d: Descriptor = [0u32; 8];
        let mut w: usize = 0;
        while w < DESCRIPTOR_WORDS
            invariant
                k < count,
                32 * count <= bytes@.len(),
                len == bytes@.len(),
                w <= DESCRIPTOR_WORDS,
                forall|v: int| 0 <= v < w ==> d@[v] == le_word(bytes@, 32 * k + 4 * v),
            decreases DESCRIPTOR_WORDS - w,
        {
            d[w] = read_le_word(bytes, 32 * k + 4 * w);
            w = w + 1;
        }
        proof {
            assert(d@ =~= descriptor_at(bytes@, k as int));
        }
        out.push(d);
        k = k + 1;
    }
    Ok(out)
}

/// The first `count` match records of a match list read back from the GPU,
/// each as its pair of (latest, previous) feature indices.
pub fn decode_matches(bytes: &Vec<u8>, count: u32) -> (r: Result<Vec<(u32, u32)>, ReadbackError>)
    ensures
        bytes@.len() < 4 * count ==> r is Err && r->Err_0 == ReadbackError::ShortBuffer,
        bytes@.len() >= 4 * count ==> r is Ok && r->Ok_0@ == Seq::new(
            count as nat,
            |k: int|
                (
                    record_latest(le_word(bytes@, 4 * k)) as u32,
                    record_previous(le_word(bytes@, 4 * k)) as u32,
                ),
        ),
{
    if (bytes.len() as u64) < 4 * (count as u64) {
        return Err(ReadbackError::ShortBuffer);
    }
    let len: usize = bytes.len();
    let mut out: Vec<(u32, u32)> = Vec::new();
    let mut k: usize = 0;
    while k < count as usize
        invariant
            k <= count,
            4 * count <= bytes@.len(),
            len == bytes@.len(),
            out@ == Seq::new(
                k as nat,
                |i: int|
                    (
                        record_latest(le_word(bytes@, 4 * i)) as u32,
                        record_previous(le_word(bytes@, 4 * i)) as u32,
                    ),
            ),
        decreases count - k,
    {
        let rec = read_le_word(bytes, 4 * k);
        out.push((rec % 65536, rec / 65536));
        k = k + 1;
        proof {
            assert(out@ =~= Seq::new(
                k as nat,
                |i: int|
                    (
                        record_latest(le_word(bytes@, 4 * i)) as u32,
                        record_previous(le_word(bytes@, 4 * i)) as u32,
                    ),
            ));
        }
    }
    Ok(out)
}

} // verus!
