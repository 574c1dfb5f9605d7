use vstd::prelude::*;
use vstd::string::StringExecFns;

verus! {

/// `a/b`: the path `b` below the directory `a`. Identifiers are not
/// normalised: a `..` segment or a separator inside an id is kept as given.
pub open spec fn join_spec(a: Seq<char>, b: Seq<char>) -> Seq<char> {
    a + seq!['/'] + b
}

/// The directory that holds one tenant's containers.
pub open spec fn tenant_dir_spec(root: Seq<char>, tenant: Seq<char>) -> Seq<char> {
    join_spec(root, tenant)
}

/// Where a container lives below a tenant's directory.
pub open spec fn container_path_spec(dir: Seq<char>, container: Seq<char>) -> Seq<char> {
    join_spec(dir, container)
}

/// Where an object lives below a tenant's directory.
pub open spec fn object_path_spec(dir: Seq<char>, container: Seq<char>, object: Seq<char>) -> Seq<char> {
    join_spec(join_spec(dir, container), object)
}

/// The stream id of a multi-chunk upload: `tenant+container+object`.
pub open spec fn stream_id_spec(tenant: Seq<char>, container: Seq<char>, object: Seq<char>) -> Seq<char> {
    tenant + seq!['+'] + container + seq!['+'] + object
}

pub fn join(a: &String, b: &String) -> (r: String)
    ensures
        r@ == join_spec(a@, b@),
{
    let mut r = a.clone();
    let sep = "/";
    proof {
        reveal_strlit("/");
    }
    r.append(sep);
    r.append(b.as_str());
    r
}

pub fn stream_id(tenant: &String, container: &String, object: &String) -> (r: String)
    ensures
        r@ == stream_id_spec(tenant@, container@, object@),
{
    let mut r = tenant.clone();
    let sep = "+";
    proof {
        reveal_strlit("+");
    }
    r.append(sep);
    r.append(container.as_str());
    r.append(sep);
    r.append(object.as_str());
    r
}

} // verus!
