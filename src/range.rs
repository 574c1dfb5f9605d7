use vstd::prelude::*;

use crate::error::{BlobError, InvalidReason};
use crate::upload::Chunk;

verus! {

/// First byte of a read: `range_start`, or the beginning.
pub open spec fn range_start_of(range_start: Option<u64>) -> int {
    match range_start {
        Some(s) => s as int,
        None => 0,
    }
}

/// One past the last byte of a read: the inclusive `range_end` clamped to
/// the object's length, or the end of the object.
pub open spec fn range_end_of(len: int, range_end: Option<u64>) -> int {
    match range_end {
        Some(e) => if e + 1 < len { e + 1 } else { len },
        None => len,
    }
}

/// The bytes a read returns: empty where the end comes before the start.
pub open spec fn range_bytes(content: Seq<u8>, range_start: Option<u64>, range_end: Option<u64>) -> Seq<u8> {
    let s = range_start_of(range_start);
    let e = range_end_of(content.len() as int, range_end);
    if e <= s {
        Seq::empty()
    } else {
        content.subrange(s, e)
    }
}

/// Slice a stored object for a read. Both range bounds are inclusive; the
/// end is clamped to the object. A start past the end of the object is
/// refused; a start at the end reads nothing and is the last chunk.
pub fn read_range(
    container_id: &String,
    object_id: &String,
    content: &Vec<u8>,
    range_start: Option<u64>,
    range_end: Option<u64>,
) -> (r: Result<Chunk, BlobError>)
    requires
        content@.len() <= u64::MAX,
    ensures
        range_start_of(range_start) > content@.len() ==> r == Err::<Chunk, BlobError>(
            BlobError::InvalidRequest(InvalidReason::RangeStartPastEnd {
                start: range_start_of(range_start) as u64,
                len: content@.len() as u64,
            }),
        ),
        range_start_of(range_start) <= content@.len() ==> r is Ok
            && r->Ok_0.container_id@ == container_id@
            && r->Ok_0.object_id@ == object_id@
            && r->Ok_0.offset == range_start_of(range_start)
            && r->Ok_0.bytes@ == range_bytes(content@, range_start, range_end)
            && r->Ok_0.is_last == (range_end_of(content@.len() as int, range_end) >= content@.len()),
{
    let len = content.len();
    let start: u64 = match range_start {
        Some(s) => s,
        None => 0,
    };
    if start > len as u64 {
        return Err(BlobError::InvalidRequest(InvalidReason::RangeStartPastEnd { start, len: len as u64 }));
    }
    let end: usize = match range_end {
        Some(e) => if e < len as u64 { (e + 1) as usize } else { len },
        None => len,
    };
    let start = start as usize;
    let mut bytes: Vec<u8> = Vec::new();
    let mut i: usize = start;
    while i < end
        invariant
            start <= len,
            end <= len,
            len == content@.len(),
            start <= i,
            start < end ==> i <= end,
            start >= end ==> i == start,
            bytes@ == content@.subrange(start as int, i as int),
        decreases end - i,
    {
        bytes.push(content[i]);
        i = i + 1;
        proof {
            assert(bytes@ =~= content@.subrange(start as int, i as int));
        }
    }
    proof {
        assert(bytes@ =~= range_bytes(content@, range_start, range_end));
    }
    Ok(Chunk { container_id: container_id.clone(), object_id: object_id.clone(), bytes, offset: start as u64, is_last: end >= len })
}

} // verus!
