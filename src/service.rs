use vstd::prelude::*;
use vstd::string::StringExecFns;

use crate::error::{BlobError, InvalidReason};
use crate::paths::{join, join_spec, object_path_spec, stream_id, stream_id_spec, tenant_dir_spec};
use crate::table::Table;
use crate::upload::{ops_view, sid_view, store_chunk, upload_step, Chunk, FileOp, FileOpView, Sessions};

verus! {

/// The root used for a tenant that names none.
pub open spec fn default_root() -> Seq<char> {
    seq!['/', 't', 'm', 'p']
}

/// The name of the option that sets a tenant's root.
pub open spec fn root_key() -> Seq<char> {
    seq!['R', 'O', 'O', 'T']
}

/// The root that a tenant's options select: the first `ROOT` option, or
/// the default.
pub open spec fn root_from_options(options: Seq<(String, String)>) -> Seq<char>
    decreases options.len(),
{
    if options.len() == 0 {
        default_root()
    } else if options[0].0@ == root_key() {
        options[0].1@
    } else {
        root_from_options(options.drop_first())
    }
}

/// What `put_object` hands back: the stream id to continue with, when more
/// chunks are to come, and the file operations to carry out.
#[derive(Debug, Clone)]
pub struct PutObjectPlan {
    pub stream_id: Option<String>,
    pub ops: Vec<FileOp>,
}

/// The shared state of the store: the registered tenants, each with its
/// root, and the uploads in progress. File contents live on disk; the
/// methods here decide, and return the file operations to carry out.
pub struct BlobService {
    tenants: Table<String>,
    sessions: Table<u64>,
}

impl Default for BlobService {
    fn default() -> (r: Self)
        ensures
            r.wf(),
            r.roots() == Map::<Seq<char>, Seq<char>>::empty(),
            r.sessions() == Sessions::empty(),
    {
        BlobService::new()
    }
}

impl BlobService {
    pub closed spec fn wf(&self) -> bool {
        self.tenants.wf() && self.sessions.wf()
    }

    /// Each registered tenant's root, before its own directory is added.
    pub closed spec fn roots(&self) -> Map<Seq<char>, Seq<char>> {
        self.tenants@.map_values(|r: String| r@)
    }

    /// The uploads in progress.
    pub closed spec fn sessions(&self) -> Sessions {
        self.sessions@
    }

    /// The directory that holds a registered tenant's containers.
    pub open spec fn tenant_dir_of(&self, tenant: Seq<char>) -> Seq<char> {
        tenant_dir_spec(self.roots()[tenant], tenant)
    }

    pub fn new() -> (r: Self)
        ensures
            r.wf(),
            r.roots() == Map::<Seq<char>, Seq<char>>::empty(),
            r.sessions() == Sessions::empty(),
    {
        let r = BlobService { tenants: Table::new(), sessions: Table::new() };
        assert(r.roots() =~= Map::<Seq<char>, Seq<char>>::empty());
        r
    }

    /// Register a tenant with its options, replacing an earlier
    /// registration. Returns the tenant's own directory, which the caller
    /// creates (with its parents) before the registration is used.
    pub fn register_tenant(&mut self, tenant: &String, options: &Vec<(String, String)>) -> (r: String)
        requires
            old(self).wf(),
        ensures
            final(self).wf(),
            final(self).roots() == old(self).roots().insert(tenant@, root_from_options(options@)),
            final(self).sessions() == old(self).sessions(),
            r@ == tenant_dir_spec(root_from_options(options@), tenant@),
    {
        let key = String::from_str("ROOT");
        let mut root = String::from_str("/tmp");
        proof {
            reveal_strlit("ROOT");
            reveal_strlit("/tmp");
            assert(key@ == root_key());
            assert(root@ == default_root());
        }
        let mut i: usize = options.len();
        while i > 0
            invariant
                i <= options@.len(),
                key@ == root_key(),
                root@ == root_from_options(options@.subrange(i as int, options@.len() as int)),
            decreases i,
        {
            i = i - 1;
            proof {
                let tail = options@.subrange(i as int, options@.len() as int);
                assert(tail.drop_first() =~= options@.subrange(i + 1, options@.len() as int));
            }
            if options[i].0 == key {
                root = options[i].1.clone();
            }
        }
        proof {
            assert(options@.subrange(0, options@.len() as int) =~= options@);
        }
        let dir = join(&root, tenant);
        let ghost rv = root@;
        self.tenants.insert(tenant.clone(), root);
        proof {
            assert(self.roots() =~= old(self).roots().insert(tenant@, rv));
        }
        dir
    }

    /// The directory of a registered tenant.
    pub fn tenant_dir(&self, tenant: &String) -> (r: Result<String, BlobError>)
        requires
            self.wf(),
        ensures
            self.roots().contains_key(tenant@) ==> r is Ok && r->Ok_0@ == self.tenant_dir_of(tenant@),
            !self.roots().contains_key(tenant@) ==> r == Err::<String, BlobError>(BlobError::NotConfigured),
    {
        match self.tenants.get(tenant) {
            Some(root) => Ok(join(root, tenant)),
            None => Err(BlobError::NotConfigured),
        }
    }

    /// The directory of one of a tenant's containers.
    pub fn container_path(&self, tenant: &String, container_id: &String) -> (r: Result<String, BlobError>)
        requires
            self.wf(),
        ensures
            self.roots().contains_key(tenant@) ==> r is Ok && r->Ok_0@ == join_spec(
                self.tenant_dir_of(tenant@),
                container_id@,
            ),
            !self.roots().contains_key(tenant@) ==> r == Err::<String, BlobError>(BlobError::NotConfigured),
    {
        let dir = self.tenant_dir(tenant)?;
        Ok(join(&dir, container_id))
    }

    /// The file of one of a tenant's objects.
    pub fn object_path(&self, tenant: &String, container_id: &String, object_id: &String) -> (r: Result<String, BlobError>)
        requires
            self.wf(),
        ensures
            self.roots().contains_key(tenant@) ==> r is Ok && r->Ok_0@ == object_path_spec(
                self.tenant_dir_of(tenant@),
                container_id@,
                object_id@,
            ),
            !self.roots().contains_key(tenant@) ==> r == Err::<String, BlobError>(BlobError::NotConfigured),
    {
        let cdir = self.container_path(tenant, container_id)?;
        Ok(join(&cdir, object_id))
    }
    /// The stream id that `put_object` gives a chunk: none for a complete
    /// object, else one derived from the tenant, container and object.
    pub open spec fn put_object_sid(tenant: Seq<char>, chunk: Chunk) -> Option<Seq<char>> {
        if chunk.is_last {
            None
        } else {
            Some(stream_id_spec(tenant, chunk.container_id@, chunk.object_id@))
        }
    }

    /// The file of an object, for a registered tenant.
    pub open spec fn object_file(&self, tenant: Seq<char>, chunk: Chunk) -> Seq<char> {
        object_path_spec(self.tenant_dir_of(tenant), chunk.container_id@, chunk.object_id@)
    }

    /// Start an upload with its first chunk, or store a whole object in one
    /// chunk. Empty chunks are refused before anything else; a chunk that is
    /// not the last opens a stream, whose id is returned.
    pub fn put_object(&mut self, tenant: &String, chunk: &Chunk) -> (r: Result<PutObjectPlan, BlobError>)
        requires
            old(self).wf(),
        ensures
            final(self).wf(),
            final(self).roots() == old(self).roots(),
            chunk.bytes@.len() == 0 ==> r is Err && r->Err_0 == BlobError::InvalidRequest(InvalidReason::ZeroLength)
                && final(self).sessions() == old(self).sessions(),
            chunk.bytes@.len() != 0 && !old(self).roots().contains_key(tenant@) ==> r is Err && r->Err_0
                == BlobError::NotConfigured && final(self).sessions() == old(self).sessions(),
            chunk.bytes@.len() != 0 && old(self).roots().contains_key(tenant@) ==> match upload_step(
                old(self).sessions(),
                old(self).object_file(tenant@, *chunk),
                *chunk,
                Self::put_object_sid(tenant@, *chunk),
            ) {
                Err(e) => r is Err && r->Err_0 == e && final(self).sessions() == old(self).sessions(),
                Ok((s, ops)) => r is Ok && ops_view(r->Ok_0.ops@) == ops && final(self).sessions() == s
                    && sid_view(r->Ok_0.stream_id) == Self::put_object_sid(tenant@, *chunk),
            },
    {
        if chunk.bytes.len() == 0 {
            return Err(BlobError::InvalidRequest(InvalidReason::ZeroLength));
        }
        let path = self.object_path(tenant, &chunk.container_id, &chunk.object_id)?;
        let sid = if chunk.is_last {
            None
        } else {
            Some(stream_id(tenant, &chunk.container_id, &chunk.object_id))
        };
        let ops = store_chunk(&mut self.sessions, &path, chunk, &sid)?;
        Ok(PutObjectPlan { stream_id: sid, ops })
    }

    /// Continue an upload with a further chunk of the stream `sid`, or, with
    /// `cancel`, give it up: the partial file is deleted and the stream
    /// closed.
    pub fn put_chunk(&mut self, tenant: &String, chunk: &Chunk, sid: &Option<String>, cancel: bool) -> (r: Result<Vec<FileOp>, BlobError>)
        requires
            old(self).wf(),
        ensures
            final(self).wf(),
            final(self).roots() == old(self).roots(),
            !old(self).roots().contains_key(tenant@) ==> r is Err && r->Err_0 == BlobError::NotConfigured
                && final(self).sessions() == old(self).sessions(),
            old(self).roots().contains_key(tenant@) && cancel ==> r is Ok
                && ops_view(r->Ok_0@) == seq![FileOpView::Remove(old(self).object_file(tenant@, *chunk))]
                && final(self).sessions() == match sid_view(*sid) {
                    Some(s) => old(self).sessions().remove(s),
                    None => old(self).sessions(),
                },
            old(self).roots().contains_key(tenant@) && !cancel ==> match upload_step(
                old(self).sessions(),
                old(self).object_file(tenant@, *chunk),
                *chunk,
                sid_view(*sid),
            ) {
                Err(e) => r is Err && r->Err_0 == e && final(self).sessions() == old(self).sessions(),
                Ok((s, ops)) => r is Ok && ops_view(r->Ok_0@) == ops && final(self).sessions() == s,
            },
    {
        let path = self.object_path(tenant, &chunk.container_id, &chunk.object_id)?;
        if cancel {
            if let Some(s) = sid {
                self.sessions.remove(s);
            }
            let mut ops: Vec<FileOp> = Vec::new();
            ops.push(FileOp::Remove { path });
            proof {
                assert(ops_view(ops@) =~= seq![FileOpView::Remove(old(self).object_file(tenant@, *chunk))]);
            }
            Ok(ops)
        } else {
            store_chunk(&mut self.sessions, &path, chunk, sid)
        }
    }
}

} // verus!
