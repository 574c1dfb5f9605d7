use std::collections::HashMap;

use blobstore_fs::error::{BlobError, InvalidReason};
use blobstore_fs::listing::{
    container_removal_results, list_objects, object_removal_results, DirEntryInfo, RemovalAttempt, Timestamp,
};
use blobstore_fs::paths::{join, stream_id};
use blobstore_fs::range::read_range;
use blobstore_fs::service::BlobService;
use blobstore_fs::table::Table;
use blobstore_fs::upload::{store_chunk, Chunk, FileOp};

fn s(x: &str) -> String {
    x.to_string()
}

fn chunk(bytes: &[u8], offset: u64, is_last: bool) -> Chunk {
    Chunk { container_id: s("photos"), object_id: s("cat.png"), bytes: bytes.to_vec(), offset, is_last }
}

fn service_with(tenant: &str, root: &str) -> BlobService {
    let mut svc = BlobService::new();
    let dir = svc.register_tenant(&s(tenant), &vec![(s("ROOT"), s(root))]);
    assert_eq!(dir, format!("{}/{}", root, tenant));
    svc
}

fn apply(files: &mut HashMap<String, Vec<u8>>, ops: &[FileOp]) {
    for op in ops {
        match op {
            FileOp::Truncate { path } => {
                files.insert(path.clone(), Vec::new());
            }
            FileOp::Append { path, bytes } => {
                files.get_mut(path).expect("append to a missing file").extend_from_slice(bytes);
            }
            FileOp::Remove { path } => {
                files.remove(path);
            }
        }
    }
}

#[test]
fn single_chunk_put_reads_back() {
    let mut svc = service_with("actor1", "/data");
    let mut files = HashMap::new();
    let plan = svc.put_object(&s("actor1"), &chunk(b"hello", 0, true)).unwrap();
    assert_eq!(plan.stream_id, None);
    apply(&mut files, &plan.ops);
    let path = s("/data/actor1/photos/cat.png");
    let got = read_range(&s("photos"), &s("cat.png"), &files[&path], None, None).unwrap();
    assert_eq!(got.bytes, b"hello".to_vec());
    assert_eq!(got.offset, 0);
    assert!(got.is_last);
}

#[test]
fn chunked_upload_concatenates() {
    let mut svc = service_with("actor1", "/data");
    let mut files = HashMap::new();
    let plan = svc.put_object(&s("actor1"), &chunk(b"abc", 0, false)).unwrap();
    let sid = plan.stream_id.clone();
    assert_eq!(sid, Some(s("actor1+photos+cat.png")));
    apply(&mut files, &plan.ops);
    let ops = svc.put_chunk(&s("actor1"), &chunk(b"defg", 3, false), &sid, false).unwrap();
    apply(&mut files, &ops);
    let ops = svc.put_chunk(&s("actor1"), &chunk(b"h", 7, true), &sid, false).unwrap();
    apply(&mut files, &ops);
    assert_eq!(files[&s("/data/actor1/photos/cat.png")], b"abcdefgh".to_vec());
    // the stream is closed: a further chunk has no session
    let err = svc.put_chunk(&s("actor1"), &chunk(b"i", 8, true), &sid, false).unwrap_err();
    assert_eq!(err, BlobError::InvalidRequest(InvalidReason::NoSession));
}

#[test]
fn offset_mismatch_is_refused_and_changes_nothing() {
    let mut svc = service_with("actor1", "/data");
    let mut files = HashMap::new();
    let plan = svc.put_object(&s("actor1"), &chunk(b"abc", 0, false)).unwrap();
    let sid = plan.stream_id.clone();
    apply(&mut files, &plan.ops);
    let err = svc.put_chunk(&s("actor1"), &chunk(b"zz", 5, false), &sid, false).unwrap_err();
    assert_eq!(err, BlobError::InvalidRequest(InvalidReason::OffsetMismatch { expected: 3, actual: 5 }));
    // the chunk the stream expects is still accepted afterwards
    let ops = svc.put_chunk(&s("actor1"), &chunk(b"de", 3, true), &sid, false).unwrap();
    apply(&mut files, &ops);
    assert_eq!(files[&s("/data/actor1/photos/cat.png")], b"abcde".to_vec());
}

#[test]
fn duplicate_chunk_is_refused() {
    let mut svc = service_with("actor1", "/data");
    let plan = svc.put_object(&s("actor1"), &chunk(b"abc", 0, false)).unwrap();
    let sid = plan.stream_id.clone();
    svc.put_chunk(&s("actor1"), &chunk(b"de", 3, false), &sid, false).unwrap();
    let err = svc.put_chunk(&s("actor1"), &chunk(b"de", 3, false), &sid, false).unwrap_err();
    assert_eq!(err, BlobError::InvalidRequest(InvalidReason::OffsetMismatch { expected: 5, actual: 3 }));
}

#[test]
fn zero_length_put_is_refused() {
    let mut svc = service_with("actor1", "/data");
    for last in [true, false] {
        let err = svc.put_object(&s("actor1"), &chunk(b"", 0, last)).unwrap_err();
        assert_eq!(err, BlobError::InvalidRequest(InvalidReason::ZeroLength));
    }
    // checked before the tenant is looked up
    let err = svc.put_object(&s("nobody"), &chunk(b"", 0, true)).unwrap_err();
    assert_eq!(err, BlobError::InvalidRequest(InvalidReason::ZeroLength));
}

#[test]
fn range_read_slices_and_clamps() {
    let content: Vec<u8> = (0u8..10).collect();
    let c = read_range(&s("c"), &s("o"), &content, Some(2), Some(4)).unwrap();
    assert_eq!(c.bytes, vec![2, 3, 4]);
    assert_eq!(c.offset, 2);
    assert!(!c.is_last);
    let c = read_range(&s("c"), &s("o"), &content, Some(2), None).unwrap();
    assert_eq!(c.bytes, vec![2, 3, 4, 5, 6, 7, 8, 9]);
    assert!(c.is_last);
    let c = read_range(&s("c"), &s("o"), &content, None, Some(100)).unwrap();
    assert_eq!(c.bytes, content);
    assert!(c.is_last);
    let c = read_range(&s("c"), &s("o"), &content, None, Some(u64::MAX)).unwrap();
    assert_eq!(c.bytes, content);
    assert_eq!(c.container_id, "c");
    assert_eq!(c.object_id, "o");
}

#[test]
fn range_read_edges() {
    let content: Vec<u8> = (0u8..10).collect();
    let c = read_range(&s("c"), &s("o"), &content, Some(10), None).unwrap();
    assert!(c.bytes.is_empty());
    assert!(c.is_last);
    let c = read_range(&s("c"), &s("o"), &content, Some(5), Some(3)).unwrap();
    assert!(c.bytes.is_empty());
    assert_eq!(c.offset, 5);
    let err = read_range(&s("c"), &s("o"), &content, Some(11), None).unwrap_err();
    assert_eq!(err, BlobError::InvalidRequest(InvalidReason::RangeStartPastEnd { start: 11, len: 10 }));
}

#[test]
fn container_removal_reports_only_survivors() {
    let ids = vec![s("present"), s("absent")];
    let attempts = vec![
        RemovalAttempt { error: None, still_exists: false },
        RemovalAttempt { error: Some(s("not found")), still_exists: false },
    ];
    assert!(container_removal_results(&ids, &attempts).is_empty());

    let ids = vec![s("a"), s("locked"), s("b")];
    let attempts = vec![
        RemovalAttempt { error: None, still_exists: false },
        RemovalAttempt { error: Some(s("denied")), still_exists: true },
        RemovalAttempt { error: Some(s("gone")), still_exists: false },
    ];
    let r = container_removal_results(&ids, &attempts);
    assert_eq!(r.len(), 1);
    assert_eq!(r[0].key, "locked");
    assert!(r[0].success);
    assert_eq!(r[0].error, Some(s("denied")));
}

#[test]
fn object_removal_reports_every_failure() {
    let ids = vec![s("x"), s("y"), s("z")];
    let errors = vec![Some(s("missing")), None, Some(s("denied"))];
    let r = object_removal_results(&ids, &errors);
    assert_eq!(r.len(), 2);
    assert_eq!(r[0].key, "x");
    assert!(!r[0].success);
    assert_eq!(r[0].error, Some(s("missing")));
    assert_eq!(r[1].key, "z");
    assert_eq!(r[1].error, Some(s("denied")));
    assert!(object_removal_results(&ids, &vec![None, None, None]).is_empty());
}

#[test]
fn listing_skips_directories() {
    let t = Timestamp { sec: 1_600_000_000, nsec: 0 };
    let entries = vec![
        DirEntryInfo { name: s("a.txt"), is_dir: false, len: 12, modified: Some(t) },
        DirEntryInfo { name: s("sub"), is_dir: true, len: 4096, modified: Some(t) },
        DirEntryInfo { name: s("b.bin"), is_dir: false, len: 0, modified: None },
    ];
    let r = list_objects(&s("box"), &entries);
    assert!(r.is_last);
    assert_eq!(r.continuation, None);
    assert_eq!(r.objects.len(), 2);
    assert_eq!(r.objects[0].object_id, "a.txt");
    assert_eq!(r.objects[0].container_id, "box");
    assert_eq!(r.objects[0].content_length, 12);
    assert_eq!(r.objects[0].last_modified, Some(t));
    assert_eq!(r.objects[0].content_type, None);
    assert_eq!(r.objects[1].object_id, "b.bin");
    assert!(list_objects(&s("box"), &vec![]).objects.is_empty());
}

#[test]
fn tenants_are_isolated() {
    let mut svc = BlobService::new();
    svc.register_tenant(&s("alice"), &vec![]);
    svc.register_tenant(&s("bob"), &vec![]);
    let pa = svc.object_path(&s("alice"), &s("c"), &s("o")).unwrap();
    let pb = svc.object_path(&s("bob"), &s("c"), &s("o")).unwrap();
    assert_eq!(pa, "/tmp/alice/c/o");
    assert_eq!(pb, "/tmp/bob/c/o");
    assert_ne!(pa, pb);
    let mut files = HashMap::new();
    let pa_plan = svc.put_object(&s("alice"), &chunk(b"A", 0, true)).unwrap();
    apply(&mut files, &pa_plan.ops);
    let pb_plan = svc.put_object(&s("bob"), &chunk(b"B", 0, true)).unwrap();
    apply(&mut files, &pb_plan.ops);
    assert_eq!(files[&s("/tmp/alice/photos/cat.png")], b"A".to_vec());
    assert_eq!(files[&s("/tmp/bob/photos/cat.png")], b"B".to_vec());
    assert_ne!(stream_id(&s("alice"), &s("c"), &s("o")), stream_id(&s("bob"), &s("c"), &s("o")));
}

#[test]
fn registration_picks_root_option() {
    let mut svc = BlobService::new();
    let dir = svc.register_tenant(&s("t"), &vec![(s("OTHER"), s("/x")), (s("ROOT"), s("/srv")), (s("ROOT"), s("/y"))]);
    assert_eq!(dir, "/srv/t");
    assert_eq!(svc.tenant_dir(&s("t")).unwrap(), "/srv/t");
    let dir = svc.register_tenant(&s("t"), &vec![]);
    assert_eq!(dir, "/tmp/t");
    assert_eq!(svc.container_path(&s("t"), &s("a/b")).unwrap(), "/tmp/t/a/b");
}

#[test]
fn unknown_tenant_is_not_configured() {
    let mut svc = BlobService::new();
    assert_eq!(svc.tenant_dir(&s("ghost")).unwrap_err(), BlobError::NotConfigured);
    assert_eq!(svc.object_path(&s("ghost"), &s("c"), &s("o")).unwrap_err(), BlobError::NotConfigured);
    assert_eq!(svc.put_object(&s("ghost"), &chunk(b"x", 0, true)).unwrap_err(), BlobError::NotConfigured);
    assert_eq!(
        svc.put_chunk(&s("ghost"), &chunk(b"x", 0, true), &None, false).unwrap_err(),
        BlobError::NotConfigured
    );
}

#[test]
fn chunk_without_stream_id_is_refused() {
    let mut svc = service_with("actor1", "/data");
    let err = svc.put_chunk(&s("actor1"), &chunk(b"abc", 0, false), &None, false).unwrap_err();
    assert_eq!(err, BlobError::InvalidRequest(InvalidReason::MissingStreamId));
    let err = svc.put_chunk(&s("actor1"), &chunk(b"abc", 4, false), &Some(s("unknown")), false).unwrap_err();
    assert_eq!(err, BlobError::InvalidRequest(InvalidReason::NoSession));
    let err = svc.put_chunk(&s("actor1"), &chunk(b"", 4, false), &Some(s("unknown")), false).unwrap_err();
    assert_eq!(err, BlobError::InvalidRequest(InvalidReason::ZeroLength));
}

#[test]
fn offset_overflow_is_refused() {
    let mut sessions: Table<u64> = Table::new();
    sessions.insert(s("x"), u64::MAX - 1);
    let c = Chunk { bytes: vec![7u8; 4], offset: u64::MAX - 1, ..chunk(b"", 0, false) };
    let err = store_chunk(&mut sessions, &s("/p"), &c, &Some(s("x"))).unwrap_err();
    assert_eq!(err, BlobError::InvalidRequest(InvalidReason::OffsetOverflow));
    assert_eq!(sessions.get(&s("x")), Some(&(u64::MAX - 1)));
    // the last chunk needs no next offset
    let c = Chunk { is_last: true, ..c };
    let ops = store_chunk(&mut sessions, &s("/p"), &c, &Some(s("x"))).unwrap();
    assert_eq!(ops.len(), 1);
    assert_eq!(sessions.get(&s("x")), None);
}

#[test]
fn cancel_removes_file_and_closes_stream() {
    let mut svc = service_with("actor1", "/data");
    let mut files = HashMap::new();
    let plan = svc.put_object(&s("actor1"), &chunk(b"abc", 0, false)).unwrap();
    let sid = plan.stream_id.clone();
    apply(&mut files, &plan.ops);
    let ops = svc.put_chunk(&s("actor1"), &chunk(b"", 0, false), &sid, true).unwrap();
    assert!(matches!(&ops[..], [FileOp::Remove { path }] if path == "/data/actor1/photos/cat.png"));
    apply(&mut files, &ops);
    assert!(files.is_empty());
    let err = svc.put_chunk(&s("actor1"), &chunk(b"de", 3, true), &sid, false).unwrap_err();
    assert_eq!(err, BlobError::InvalidRequest(InvalidReason::NoSession));
    // a fresh upload starting at zero is accepted again
    let ops = svc.put_chunk(&s("actor1"), &chunk(b"new", 0, true), &sid, false).unwrap();
    apply(&mut files, &ops);
    assert_eq!(files[&s("/data/actor1/photos/cat.png")], b"new".to_vec());
}

#[test]
fn restart_at_zero_truncates() {
    let mut svc = service_with("actor1", "/data");
    let mut files = HashMap::new();
    let plan = svc.put_object(&s("actor1"), &chunk(b"old data", 0, false)).unwrap();
    apply(&mut files, &plan.ops);
    let plan = svc.put_object(&s("actor1"), &chunk(b"fresh", 0, true)).unwrap();
    apply(&mut files, &plan.ops);
    assert_eq!(files[&s("/data/actor1/photos/cat.png")], b"fresh".to_vec());
}

#[test]
fn join_and_stream_id_formats() {
    assert_eq!(join(&s("/a"), &s("b")), "/a/b");
    assert_eq!(join(&s(""), &s("")), "/");
    assert_eq!(stream_id(&s("t"), &s("c"), &s("o")), "t+c+o");
}

#[test]
fn table_insert_get_remove() {
    let mut t: Table<u64> = Table::new();
    t.insert(s("a"), 1);
    t.insert(s("b"), 2);
    t.insert(s("a"), 3);
    assert_eq!(t.get(&s("a")), Some(&3));
    assert_eq!(t.get(&s("b")), Some(&2));
    t.remove(&s("a"));
    assert_eq!(t.get(&s("a")), None);
    assert_eq!(t.get(&s("b")), Some(&2));
    t.remove(&s("zzz"));
    assert_eq!(t.get(&s("b")), Some(&2));
}

#[test]
fn caller_errors_are_classified() {
    assert!(BlobError::NotConfigured.is_caller_error());
    assert!(BlobError::InvalidRequest(InvalidReason::NoSession).is_caller_error());
    assert!(!BlobError::IoError.is_caller_error());
    assert!(!BlobError::NotFound.is_caller_error());
}

#[test]
fn default_service_knows_no_tenant() {
    let svc = BlobService::default();
    assert_eq!(svc.tenant_dir(&s("a")).unwrap_err(), BlobError::NotConfigured);
}
