use vstd::prelude::*;

verus! {

/// Seconds and nanoseconds since the Unix epoch.
#[derive(Debug, Clone, Copy, PartialEq, Eq, Structural)]
pub struct Timestamp {
    pub sec: i64,
    pub nsec: u32,
}

/// The outcome for one item of a bulk removal that did not go through.
#[derive(Debug, Clone)]
pub struct ItemResult {
    pub key: String,
    pub success: bool,
    pub error: Option<String>,
}

/// What happened when removing one container: the error, if removal failed,
/// and whether the container was still there afterwards.
#[derive(Debug, Clone)]
pub struct RemovalAttempt {
    pub error: Option<String>,
    pub still_exists: bool,
}

/// A container, as listed or described.
#[derive(Debug, Clone)]
pub struct ContainerMetadata {
    pub container_id: String,
    pub created_at: Option<Timestamp>,
}

/// An object's metadata. Content type and encoding are not tracked.
#[derive(Debug, Clone)]
pub struct ObjectMetadata {
    pub container_id: String,
    pub object_id: String,
    pub content_length: u64,
    pub last_modified: Option<Timestamp>,
    pub content_type: Option<String>,
    pub content_encoding: Option<String>,
}

/// One entry of a container directory.
#[derive(Debug, Clone)]
pub struct DirEntryInfo {
    pub name: String,
    pub is_dir: bool,
    pub len: u64,
    pub modified: Option<Timestamp>,
}

/// A whole listing: there is never a further page.
#[derive(Debug, Clone)]
pub struct ListObjectsResponse {
    pub objects: Vec<ObjectMetadata>,
    pub continuation: Option<String>,
    pub is_last: bool,
}

pub open spec fn opt_str_view(o: Option<String>) -> Option<Seq<char>> {
    match o {
        Some(s) => Some(s@),
        None => None,
    }
}

/// A container removal to report: it failed and the container is still there.
pub open spec fn container_failed(a: RemovalAttempt) -> bool {
    a.error is Some && a.still_exists
}

/// The positions, among the first `n` attempts, of the container removals
/// to report.
pub open spec fn failed_containers(attempts: Seq<RemovalAttempt>, n: nat) -> Seq<int>
    decreases n,
{
    if n == 0 {
        Seq::empty()
    } else {
        let rest = failed_containers(attempts, (n - 1) as nat);
        if container_failed(attempts[n - 1]) {
            rest.push(n - 1)
        } else {
            rest
        }
    }
}

/// The positions, among the first `n`, of the object removals that failed.
pub open spec fn failed_objects(errors: Seq<Option<String>>, n: nat) -> Seq<int>
    decreases n,
{
    if n == 0 {
        Seq::empty()
    } else {
        let rest = failed_objects(errors, (n - 1) as nat);
        if errors[n - 1] is Some {
            rest.push(n - 1)
        } else {
            rest
        }
    }
}

/// The positions, among the first `n` entries, of those that are files.
pub open spec fn file_entries(entries: Seq<DirEntryInfo>, n: nat) -> Seq<int>
    decreases n,
{
    if n == 0 {
        Seq::empty()
    } else {
        let rest = file_entries(entries, (n - 1) as nat);
        if !entries[n - 1].is_dir {
            rest.push(n - 1)
        } else {
            rest
        }
    }
}

/// The report of a bulk container removal: one entry, marked `success`, for
/// each container whose removal failed and that still exists. A container
/// that is gone after a failed removal counts as removed.
pub fn container_removal_results(ids: &Vec<String>, attempts: &Vec<RemovalAttempt>) -> (r: Vec<ItemResult>)
    requires
        ids@.len() == attempts@.len(),
    ensures
        r@.len() == failed_containers(attempts@, attempts@.len() as nat).len(),
        forall|k: int| 0 <= k < r@.len() ==> {
            let i = #[trigger] failed_containers(attempts@, attempts@.len() as nat)[k];
            &&& r@[k].key@ == ids@[i]@
            &&& r@[k].success
            &&& opt_str_view(r@[k].error) == opt_str_view(attempts@[i].error)
        },
{
    let mut r: Vec<ItemResult> = Vec::new();
    let mut i: usize = 0;
    while i < ids.len()
        invariant
            i <= ids@.len(),
            ids@.len() == attempts@.len(),
            r@.len() == failed_containers(attempts@, i as nat).len(),
            forall|k: int| 0 <= k < r@.len() ==> {
                let j = #[trigger] failed_containers(attempts@, i as nat)[k];
                &&& 0 <= j < i
                &&& r@[k].key@ == ids@[j]@
                &&& r@[k].success
                &&& opt_str_view(r@[k].error) == opt_str_view(attempts@[j].error)
            },
        decreases ids@.len() - i,
    {
        let a = &attempts[i];
        if a.still_exists {
            if let Some(e) = &a.error {
                r.push(ItemResult { key: ids[i].clone(), success: true, error: Some(e.clone()) });
            }
        }
        i = i + 1;
    }
    r
}

/// The report of a bulk object removal: one entry, not marked `success`,
/// for each object whose deletion failed, keyed by the object id.
pub fn object_removal_results(ids: &Vec<String>, errors: &Vec<Option<String>>) -> (r: Vec<ItemResult>)
    requires
        ids@.len() == errors@.len(),
    ensures
        r@.len() == failed_objects(errors@, errors@.len() as nat).len(),
        forall|k: int| 0 <= k < r@.len() ==> {
            let i = #[trigger] failed_objects(errors@, errors@.len() as nat)[k];
            &&& r@[k].key@ == ids@[i]@
            &&& !r@[k].success
            &&& opt_str_view(r@[k].error) == opt_str_view(errors@[i])
        },
{
    let mut r: Vec<ItemResult> = Vec::new();
    let mut i: usize = 0;
    while i < ids.len()
        invariant
            i <= ids@.len(),
            ids@.len() == errors@.len(),
            r@.len() == failed_objects(errors@, i as nat).len(),
            forall|k: int| 0 <= k < r@.len() ==> {
                let j = #[trigger] failed_objects(errors@, i as nat)[k];
                &&& 0 <= j < i
                &&& r@[k].key@ == ids@[j]@
                &&& !r@[k].success
                &&& opt_str_view(r@[k].error) == opt_str_view(errors@[j])
            },
        decreases ids@.len() - i,
    {
        if let Some(e) = &errors[i] {
            r.push(ItemResult { key: ids[i].clone(), success: false, error: Some(e.clone()) });
        }
        i = i + 1;
    }
    r
}

/// The listing of a container from its directory entries: the files, not
/// the subdirectories, in the order given, all in one page.
pub fn list_objects(container_id: &String, entries: &Vec<DirEntryInfo>) -> (r: ListObjectsResponse)
    ensures
        r.continuation is None,
        r.is_last,
        r.objects@.len() == file_entries(entries@, entries@.len() as nat).len(),
        forall|k: int| 0 <= k < r.objects@.len() ==> {
            let i = #[trigger] file_entries(entries@, entries@.len() as nat)[k];
            let o = r.objects@[k];
            &&& o.container_id@ == container_id@
            &&& o.object_id@ == entries@[i].name@
            &&& o.content_length == entries@[i].len
            &&& o.last_modified == entries@[i].modified
            &&& o.content_type is None
            &&& o.content_encoding is None
        },
{
    let mut objects: Vec<ObjectMetadata> = Vec::new();
    let mut i: usize = 0;
    while i < entries.len()
        invariant
            i <= entries@.len(),
            objects@.len() == file_entries(entries@, i as nat).len(),
            forall|k: int| 0 <= k < objects@.len() ==> {
                let j = #[trigger] file_entries(entries@, i as nat)[k];
                let o = objects@[k];
                &&& 0 <= j < i
                &&& o.container_id@ == container_id@
                &&& o.object_id@ == entries@[j].name@
                &&& o.content_length == entries@[j].len
                &&& o.last_modified == entries@[j].modified
                &&& o.content_type is None
                &&& o.content_encoding is None
            },
        decreases entries@.len() - i,
    {
        let e = &entries[i];
        if !e.is_dir {
            objects.push(ObjectMetadata {
                container_id: container_id.clone(),
                object_id: e.name.clone(),
                content_length: e.len,
                last_modified: e.modified,
                content_type: None,
                content_encoding: None,
            });
        }
        i = i + 1;
    }
    ListObjectsResponse { objects, continuation: None, is_last: true }
}

} // verus!
