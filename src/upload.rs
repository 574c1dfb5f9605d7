use vstd::prelude::*;

use crate::error::{BlobError, InvalidReason};
use crate::table::Table;

verus! {

/// A contiguous run of an object's bytes, as uploaded or as read back.
#[derive(Debug, Clone)]
pub struct Chunk {
    pub container_id: String,
    pub object_id: String,
    pub bytes: Vec<u8>,
    pub offset: u64,
    pub is_last: bool,
}

/// A filesystem operation that the caller of the store carries out, in order.
#[derive(Debug, Clone)]
pub enum FileOp {
    /// Create the file empty, truncating it if it exists.
    Truncate { path: String },
    /// Append bytes to an existing file; a short write is an I/O error.
    Append { path: String, bytes: Vec<u8> },
    /// Delete the file.
    Remove { path: String },
}

/// What a file operation does, over plain values.
pub enum FileOpView {
    Truncate(Seq<char>),
    Append(Seq<char>, Seq<u8>),
    Remove(Seq<char>),
}

impl FileOp {
    pub open spec fn view(&self) -> FileOpView {
        match self {
            FileOp::Truncate { path } => FileOpView::Truncate(path@),
            FileOp::Append { path, bytes } => FileOpView::Append(path@, bytes@),
            FileOp::Remove { path } => FileOpView::Remove(path@),
        }
    }
}

/// The views of a list of operations.
pub open spec fn ops_view(ops: Seq<FileOp>) -> Seq<FileOpView> {
    ops.map_values(|o: FileOp| o@)
}

/// A filesystem, as the files it holds and their contents.
pub type Files = Map<Seq<char>, Seq<u8>>;

/// The effect of one operation on the files. Appending to a missing file
/// fails and changes nothing.
pub open spec fn apply_op(fs: Files, op: FileOpView) -> Files {
    match op {
        FileOpView::Truncate(p) => fs.insert(p, Seq::empty()),
        FileOpView::Append(p, b) => if fs.contains_key(p) {
            fs.insert(p, fs[p] + b)
        } else {
            fs
        },
        FileOpView::Remove(p) => fs.remove(p),
    }
}

/// The effect of a list of operations, carried out in order.
pub open spec fn apply_ops(fs: Files, ops: Seq<FileOpView>) -> Files
    decreases ops.len(),
{
    if ops.len() == 0 {
        fs
    } else {
        apply_ops(apply_op(fs, ops[0]), ops.drop_first())
    }
}

/// The operations that store a chunk accepted for the file at `path`: the
/// file is created empty by the chunk at offset zero, then the bytes are
/// appended.
pub open spec fn chunk_ops(path: Seq<char>, chunk: Chunk) -> Seq<FileOpView> {
    if chunk.offset == 0 {
        seq![FileOpView::Truncate(path), FileOpView::Append(path, chunk.bytes@)]
    } else {
        seq![FileOpView::Append(path, chunk.bytes@)]
    }
}

/// The stream id, as characters.
pub open spec fn sid_view(sid: Option<String>) -> Option<Seq<char>> {
    match sid {
        Some(s) => Some(s@),
        None => None,
    }
}

/// Upload sessions: stream id to the next offset that stream expects.
pub type Sessions = Map<Seq<char>, u64>;

/// The offset that follows `chunk`, if it fits in 64 bits.
pub open spec fn next_offset(chunk: Chunk) -> int {
    chunk.offset + chunk.bytes@.len()
}

/// Whether the chunk is refused, and why, given the sessions in progress.
pub open spec fn chunk_error(sessions: Sessions, chunk: Chunk, sid: Option<Seq<char>>) -> Option<BlobError> {
    if chunk.bytes@.len() == 0 {
        Some(BlobError::InvalidRequest(InvalidReason::ZeroLength))
    } else {
        match sid {
            None => if chunk.offset == 0 && !chunk.is_last {
                Some(BlobError::InvalidRequest(InvalidReason::MissingStreamId))
            } else {
                None
            },
            Some(s) => if chunk.offset != 0 && !sessions.contains_key(s) {
                Some(BlobError::InvalidRequest(InvalidReason::NoSession))
            } else if chunk.offset != 0 && sessions[s] != chunk.offset {
                Some(BlobError::InvalidRequest(InvalidReason::OffsetMismatch {
                    expected: sessions[s],
                    actual: chunk.offset,
                }))
            } else if !chunk.is_last && next_offset(chunk) > u64::MAX {
                Some(BlobError::InvalidRequest(InvalidReason::OffsetOverflow))
            } else {
                None
            },
        }
    }
}

/// The sessions after an accepted chunk: a last chunk closes its stream,
/// any other records the offset that must come next.
pub open spec fn sessions_after(sessions: Sessions, chunk: Chunk, sid: Option<Seq<char>>) -> Sessions {
    match sid {
        None => sessions,
        Some(s) => if chunk.is_last {
            sessions.remove(s)
        } else {
            sessions.insert(s, next_offset(chunk) as u64)
        },
    }
}

/// The outcome of storing a chunk at `path`: the error, or the sessions
/// after it and the file operations that store it.
pub open spec fn upload_step(sessions: Sessions, path: Seq<char>, chunk: Chunk, sid: Option<Seq<char>>) -> Result<(Sessions, Seq<FileOpView>), BlobError> {
    match chunk_error(sessions, chunk, sid) {
        Some(e) => Err(e),
        None => Ok((sessions_after(sessions, chunk, sid), chunk_ops(path, chunk))),
    }
}

/// Check a chunk against the upload sessions and, when it is accepted,
/// update them and return the file operations that store it at `path`.
/// A refused chunk leaves the sessions as they were.
pub fn store_chunk(sessions: &mut Table<u64>, path: &String, chunk: &Chunk, sid: &Option<String>) -> (r: Result<Vec<FileOp>, BlobError>)
    requires
        old(sessions).wf(),
    ensures
        final(sessions).wf(),
        match chunk_error(old(sessions)@, *chunk, sid_view(*sid)) {
            Some(e) => r == Err::<Vec<FileOp>, BlobError>(e) && final(sessions)@ == old(sessions)@,
            None => r is Ok
                && ops_view(r->Ok_0@) == chunk_ops(path@, *chunk)
                && final(sessions)@ == sessions_after(old(sessions)@, *chunk, sid_view(*sid)),
        },
{
    if chunk.bytes.len() == 0 {
        return Err(BlobError::InvalidRequest(InvalidReason::ZeroLength));
    }
    match sid {
        None => {
            if chunk.offset == 0 && !chunk.is_last {
                return Err(BlobError::InvalidRequest(InvalidReason::MissingStreamId));
            }
        },
        Some(s) => {
            if chunk.offset != 0 {
                match sessions.get(s) {
                    None => {
                        return Err(BlobError::InvalidRequest(InvalidReason::NoSession));
                    },
                    Some(expected) => {
                        if *expected != chunk.offset {
                            return Err(BlobError::InvalidRequest(InvalidReason::OffsetMismatch {
                                expected: *expected,
                                actual: chunk.offset,
                            }));
                        }
                    },
                }
            }
            if chunk.is_last {
                sessions.remove(s);
            } else {
                let len = chunk.bytes.len() as u64;
                if len > u64::MAX - chunk.offset {
                    return Err(BlobError::InvalidRequest(InvalidReason::OffsetOverflow));
                }
                sessions.insert(s.clone(), chunk.offset + len);
            }
        },
    }
    let mut ops: Vec<FileOp> = Vec::new();
    if chunk.offset == 0 {
        ops.push(FileOp::Truncate { path: path.clone() });
    }
    ops.push(FileOp::Append { path: path.clone(), bytes: chunk.bytes.clone() });
    proof {
        assert(ops_view(ops@) =~= chunk_ops(path@, *chunk));
    }
    Ok(ops)
}

} // verus!
