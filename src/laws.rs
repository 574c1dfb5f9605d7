use vstd::prelude::*;

use crate::error::{BlobError, InvalidReason};
use crate::listing::{container_failed, failed_containers, RemovalAttempt};
use crate::paths::{object_path_spec, stream_id_spec, tenant_dir_spec};
use crate::range::{range_bytes, range_end_of, range_start_of};
use crate::upload::{apply_ops, upload_step, Chunk, Files, Sessions};

verus! {

/// A complete object stored in one chunk reads back whole: the read starts
/// at offset zero, returns exactly the bytes put, and is the last chunk.
pub proof fn lemma_single_put_reads_back(sessions: Sessions, fs: Files, path: Seq<char>, chunk: Chunk)
    requires
        chunk.is_last,
        chunk.offset == 0,
        chunk.bytes@.len() > 0,
    ensures
        upload_step(sessions, path, chunk, None) is Ok,
        ({
            let stored = apply_ops(fs, upload_step(sessions, path, chunk, None)->Ok_0.1)[path];
            &&& range_start_of(None) == 0
            &&& range_bytes(stored, None, None) == chunk.bytes@
            &&& range_end_of(stored.len() as int, None) >= stored.len()
        }),
{
    let ops = upload_step(sessions, path, chunk, None)->Ok_0.1;
    let fs2 = apply_ops(fs, ops);
    reveal_with_fuel(apply_ops, 3);
    assert(ops.drop_first().drop_first() =~= Seq::empty());
    assert(Seq::<u8>::empty() + chunk.bytes@ =~= chunk.bytes@);
    assert(fs2[path].subrange(0, fs2[path].len() as int) =~= fs2[path]);
}

/// The bytes of a list of chunks, one after another.
pub open spec fn concat_bytes(chunks: Seq<Chunk>) -> Seq<u8>
    decreases chunks.len(),
{
    if chunks.len() == 0 {
        Seq::empty()
    } else {
        concat_bytes(chunks.drop_last()) + chunks.last().bytes@
    }
}

/// A well-formed upload: no chunk is empty, each starts where the ones
/// before it end, and only the final one is marked last.
pub open spec fn sequential_chunks(chunks: Seq<Chunk>) -> bool {
    &&& chunks.len() > 0
    &&& forall|i: int| 0 <= i < chunks.len() ==> (#[trigger] chunks[i]).bytes@.len() > 0
    &&& forall|i: int| 0 <= i < chunks.len() ==> (#[trigger] chunks[i]).offset == concat_bytes(chunks.take(i)).len()
    &&& forall|i: int| 0 <= i < chunks.len() ==> (#[trigger] chunks[i]).is_last == (i == chunks.len() - 1)
}

/// Store chunks one after another on the stream `sid`, each at `path`:
/// the sessions and files at the end, or none where a chunk is refused.
pub open spec fn run_upload(sessions: Sessions, fs: Files, path: Seq<char>, chunks: Seq<Chunk>, sid: Seq<char>) -> Option<(Sessions, Files)>
    decreases chunks.len(),
{
    if chunks.len() == 0 {
        Some((sessions, fs))
    } else {
        match upload_step(sessions, path, chunks[0], Some(sid)) {
            Err(_) => None,
            Ok((s2, ops)) => run_upload(s2, apply_ops(fs, ops), path, chunks.drop_first(), sid),
        }
    }
}

proof fn lemma_upload_rest(sessions: Sessions, fs: Files, path: Seq<char>, chunks: Seq<Chunk>, sid: Seq<char>, k: int)
    requires
        sequential_chunks(chunks),
        0 <= k < chunks.len(),
        k > 0 ==> sessions.contains_key(sid) && sessions[sid] == concat_bytes(chunks.take(k)).len(),
        k > 0 ==> fs.contains_key(path) && fs[path] == concat_bytes(chunks.take(k)),
    ensures
        run_upload(sessions, fs, path, chunks.skip(k), sid) is Some,
        run_upload(sessions, fs, path, chunks.skip(k), sid)->Some_0.0 == sessions.remove(sid),
        run_upload(sessions, fs, path, chunks.skip(k), sid)->Some_0.1.contains_key(path),
        run_upload(sessions, fs, path, chunks.skip(k), sid)->Some_0.1[path] == concat_bytes(chunks),
    decreases chunks.len() - k,
{
    let c = chunks[k];
    let rest = chunks.skip(k);
    assert(rest[0] == c);
    assert(rest.drop_first() =~= chunks.skip(k + 1));
    assert(chunks.take(k + 1).drop_last() =~= chunks.take(k));
    assert(chunks.take(k + 1).last() == c);
    let before = concat_bytes(chunks.take(k));
    let after = concat_bytes(chunks.take(k + 1));
    assert(after == before + c.bytes@);
    assert(upload_step(sessions, path, c, Some(sid)) is Ok) by {
        if !c.is_last {
            assert(chunks[k + 1].offset == concat_bytes(chunks.take(k + 1)).len());
        }
    }
    let (s2, ops) = upload_step(sessions, path, c, Some(sid))->Ok_0;
    let fs2 = apply_ops(fs, ops);
    reveal_with_fuel(apply_ops, 3);
    if c.offset == 0 {
        assert(ops.drop_first().drop_first() =~= Seq::empty());
        if k > 0 {
            assert(chunks.take(k).len() > 0);
            assert(chunks.take(k).last().bytes@.len() > 0);
            assert(before == concat_bytes(chunks.take(k).drop_last()) + chunks.take(k).last().bytes@);
        }
        assert(k == 0);
        assert(chunks.take(0) =~= Seq::empty());
        assert(Seq::<u8>::empty() + c.bytes@ =~= c.bytes@);
    } else {
        assert(k > 0) by {
            if k == 0 {
                assert(chunks.take(0) =~= Seq::empty());
            }
        }
        assert(ops.drop_first() =~= Seq::empty());
    }
    assert(fs2.contains_key(path) && fs2[path] == after);
    if k + 1 < chunks.len() {
        lemma_upload_rest(s2, fs2, path, chunks, sid, k + 1);
        assert(s2.remove(sid) =~= sessions.remove(sid));
    } else {
        assert(chunks.skip(k + 1) =~= Seq::empty());
        assert(chunks.take(k + 1) =~= chunks);
    }
}

/// Chunks delivered in order on one stream, each starting where the last
/// ended and the final one marked last, are all accepted; the object then
/// holds their bytes one after another, and the stream is closed.
pub proof fn lemma_sequential_upload(sessions: Sessions, fs: Files, path: Seq<char>, chunks: Seq<Chunk>, sid: Seq<char>)
    requires
        sequential_chunks(chunks),
    ensures
        run_upload(sessions, fs, path, chunks, sid) is Some,
        run_upload(sessions, fs, path, chunks, sid)->Some_0.0 == sessions.remove(sid),
        run_upload(sessions, fs, path, chunks, sid)->Some_0.1[path] == concat_bytes(chunks),
{
    assert(chunks.skip(0) =~= chunks);
    lemma_upload_rest(sessions, fs, path, chunks, sid, 0);
}

/// A chunk whose offset is not the one its stream expects is refused as an
/// invalid request that names both offsets; being refused, it changes
/// neither the sessions nor any file.
pub proof fn lemma_offset_mismatch_refused(sessions: Sessions, path: Seq<char>, chunk: Chunk, sid: Seq<char>)
    requires
        chunk.bytes@.len() > 0,
        chunk.offset != 0,
        sessions.contains_key(sid),
        sessions[sid] != chunk.offset,
    ensures
        upload_step(sessions, path, chunk, Some(sid)) == Err::<(Sessions, Seq<crate::upload::FileOpView>), BlobError>(
            BlobError::InvalidRequest(InvalidReason::OffsetMismatch { expected: sessions[sid], actual: chunk.offset }),
        ),
{
}

/// A container removal is reported only where it failed and the container
/// is still there: when each removal went through or left nothing behind,
/// the report is empty.
pub proof fn lemma_removals_report_nothing(attempts: Seq<RemovalAttempt>)
    requires
        forall|i: int| 0 <= i < attempts.len() ==> !container_failed(#[trigger] attempts[i]),
    ensures
        failed_containers(attempts, attempts.len() as nat).len() == 0,
{
    lemma_no_failures_upto(attempts, attempts.len() as nat);
}

proof fn lemma_no_failures_upto(attempts: Seq<RemovalAttempt>, n: nat)
    requires
        n <= attempts.len(),
        forall|i: int| 0 <= i < attempts.len() ==> !container_failed(#[trigger] attempts[i]),
    ensures
        failed_containers(attempts, n).len() == 0,
    decreases n,
{
    if n > 0 {
        lemma_no_failures_upto(attempts, (n - 1) as nat);
        assert(!container_failed(attempts[n - 1]));
    }
}

/// `a + s == b + s` only where `a == b`.
proof fn lemma_cancel_suffix(a: Seq<char>, b: Seq<char>, s: Seq<char>)
    requires
        a + s == b + s,
    ensures
        a == b,
{
    assert((a + s).len() == a.len() + s.len());
    assert((b + s).len() == b.len() + s.len());
    assert(a.len() == b.len());
    assert forall|i: int| 0 <= i < a.len() implies a[i] == b[i] by {
        assert((a + s)[i] == a[i]);
        assert((b + s)[i] == b[i]);
    }
    assert(a =~= b);
}

/// Two tenants, whatever their roots, never share a file: the same
/// container and object ids of different tenants name different paths,
/// and their uploads different streams. Tenant ids hold no separator.
pub proof fn lemma_tenants_isolated(
    root1: Seq<char>,
    tenant1: Seq<char>,
    root2: Seq<char>,
    tenant2: Seq<char>,
    container: Seq<char>,
    object: Seq<char>,
)
    requires
        tenant1 != tenant2,
        !tenant1.contains('/'),
        !tenant2.contains('/'),
    ensures
        object_path_spec(tenant_dir_spec(root1, tenant1), container, object) != object_path_spec(
            tenant_dir_spec(root2, tenant2),
            container,
            object,
        ),
        stream_id_spec(tenant1, container, object) != stream_id_spec(tenant2, container, object),
{
    let tail = seq!['/'] + container + seq!['/'] + object;
    let d1 = tenant_dir_spec(root1, tenant1);
    let d2 = tenant_dir_spec(root2, tenant2);
    let p1 = object_path_spec(d1, container, object);
    let p2 = object_path_spec(d2, container, object);
    assert(p1 =~= d1 + tail);
    assert(p2 =~= d2 + tail);
    if p1 == p2 {
        lemma_cancel_suffix(d1, d2, tail);
        // the last segment of a directory is its tenant id
        if tenant1.len() < tenant2.len() {
            let i = d1.len() - tenant1.len() - 1;
            assert(d1[i] == '/');
            assert(d2[i] == tenant2[tenant2.len() - tenant1.len() - 1]);
        } else if tenant2.len() < tenant1.len() {
            let i = d2.len() - tenant2.len() - 1;
            assert(d2[i] == '/');
            assert(d1[i] == tenant1[tenant1.len() - tenant2.len() - 1]);
        } else {
            assert forall|j: int| 0 <= j < tenant1.len() implies tenant1[j] == tenant2[j] by {
                assert(d1[d1.len() - tenant1.len() + j] == tenant1[j]);
                assert(d2[d2.len() - tenant2.len() + j] == tenant2[j]);
            }
            assert(tenant1 =~= tenant2);
        }
    }
    let stail = seq!['+'] + container + seq!['+'] + object;
    assert(stream_id_spec(tenant1, container, object) =~= tenant1 + stail);
    assert(stream_id_spec(tenant2, container, object) =~= tenant2 + stail);
    if stream_id_spec(tenant1, container, object) == stream_id_spec(tenant2, container, object) {
        lemma_cancel_suffix(tenant1, tenant2, stail);
    }
}

} // verus!
