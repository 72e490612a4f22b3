//! Which resource a read names: the URI routing of the two surfaces,
//! and the refusals of URIs that name no served resource.

use vstd::prelude::*;
use vstd::string::*;

use crate::mcp::error::ResourceErrorClass;
use crate::runtime::worker_id::{worker_id_error_text, worker_id_result_spec, worker_id_valid, WorkerId, WorkerIdError};
use crate::text::{chars_of, count_before, find_char, string_of_range, text_eq};

verus! {

/// A resource of the orchestrator surface.
#[derive(Debug, PartialEq, Eq)]
pub enum OrchestratorResource {
    /// The orchestrator methodology document.
    Methodology,
    /// The orchestrator status snapshot.
    Status,
    /// The perspectives of the working-tree rulebook.
    Perspectives,
    /// The live workers.
    Workers,
    /// The detail of one worker.
    Worker(WorkerId),
    /// The outbox of one worker.
    WorkerOutbox(WorkerId),
}

/// A resource of the worker surface.
#[derive(Debug, Clone, Copy, PartialEq, Eq, Structural)]
pub enum WorkerResource {
    /// The worker methodology document.
    Methodology,
    /// The worker contract.
    Contract,
    /// The worker inbox.
    Inbox,
    /// The worker status.
    Status,
}

/// Why a resource URI names nothing that is served.
#[derive(Debug, PartialEq, Eq)]
pub enum ResourceUriError {
    /// The URI is not a resource of the surface.
    Unknown(String),
    /// The URI names a resource that is not served yet.
    NotImplemented(String),
    /// The URI names an unknown sub-resource of a worker.
    UnknownSubResource(String),
    /// The worker id in the URI is not a valid worker id.
    InvalidWorker(WorkerIdError),
}

/// The message of a refused resource URI.
pub open spec fn resource_uri_error_text(e: ResourceUriError) -> Seq<char> {
    match e {
        ResourceUriError::Unknown(u) => "unknown resource: "@ + u@,
        ResourceUriError::NotImplemented(u) => "resource not yet implemented: "@ + u@,
        ResourceUriError::UnknownSubResource(s) => "unknown worker sub-resource: "@ + s@,
        ResourceUriError::InvalidWorker(w) => "invalid worker: "@ + worker_id_error_text(w),
    }
}

impl ResourceUriError {
    /// The message reported to the client.
    pub fn message(&self) -> (r: String)
        ensures
            r@ == resource_uri_error_text(*self),
    {
        let (mut s, tail) = match self {
            ResourceUriError::Unknown(u) => (String::from_str("unknown resource: "), u.clone()),
            ResourceUriError::NotImplemented(u) => (
                String::from_str("resource not yet implemented: "),
                u.clone(),
            ),
            ResourceUriError::UnknownSubResource(sub) => (
                String::from_str("unknown worker sub-resource: "),
                sub.clone(),
            ),
            ResourceUriError::InvalidWorker(w) => (String::from_str("invalid worker: "), w.message()),
        };
        s.append(tail.as_str());
        s
    }

    /// The class the refusal is reported with: an invalid worker id is
    /// an invalid parameter, every other refusal names nothing found.
    pub fn class(&self) -> (c: ResourceErrorClass)
        ensures
            c == (if self is InvalidWorker {
                ResourceErrorClass::InvalidParams
            } else {
                ResourceErrorClass::NotFound
            }),
    {
        match self {
            ResourceUriError::InvalidWorker(_) => ResourceErrorClass::InvalidParams,
            _ => ResourceErrorClass::NotFound,
        }
    }
}

/// The URI prefix of the per-worker resources of the orchestrator.
pub open spec fn workers_prefix() -> Seq<char> {
    "multorum://orchestrator/workers/"@
}

/// Whether `u` starts with `p`.
pub open spec fn has_prefix(u: Seq<char>, p: Seq<char>) -> bool {
    p.len() <= u.len() && u.take(p.len() as int) == p
}

/// The worker id part of a per-worker path: up to the first `/`.
pub open spec fn id_part(path: Seq<char>) -> Seq<char> {
    path.take(count_before(path, '/') as int)
}

/// The sub-resource part of a per-worker path: after the first `/`, if
/// there is one.
pub open spec fn sub_part(path: Seq<char>) -> Option<Seq<char>> {
    if count_before(path, '/') == path.len() {
        None
    } else {
        Some(path.skip(count_before(path, '/') as int + 1))
    }
}

/// The sub-resources of a worker that are named but not served yet.
pub open spec fn reserved_sub(s: Seq<char>) -> bool {
    s == "contract"@ || s == "transcript"@ || s == "checks"@
}

/// What reading the per-worker URI `u`, with the path `path` after the
/// prefix, gives.
pub open spec fn worker_route(u: Seq<char>, path: Seq<char>, r: Result<
    OrchestratorResource,
    ResourceUriError,
>) -> bool {
    let id = id_part(path);
    if !worker_id_valid(id) {
        r matches Err(ResourceUriError::InvalidWorker(e)) && worker_id_result_spec(id, Err(e))
    } else {
        match sub_part(path) {
            None => r matches Ok(OrchestratorResource::Worker(w)) && w@ == id,
            Some(s) => if s == "outbox"@ {
                r matches Ok(OrchestratorResource::WorkerOutbox(w)) && w@ == id
            } else if reserved_sub(s) {
                r matches Err(ResourceUriError::NotImplemented(t)) && t@ == u
            } else {
                r matches Err(ResourceUriError::UnknownSubResource(t)) && t@ == s
            },
        }
    }
}

/// What reading the URI `u` from the orchestrator surface gives.
pub open spec fn orchestrator_route(u: Seq<char>, r: Result<OrchestratorResource, ResourceUriError>) -> bool {
    if u == "multorum://orchestrator/methodology"@ {
        r == Ok::<OrchestratorResource, ResourceUriError>(OrchestratorResource::Methodology)
    } else if u == "multorum://orchestrator/status"@ {
        r == Ok::<OrchestratorResource, ResourceUriError>(OrchestratorResource::Status)
    } else if u == "multorum://orchestrator/perspectives"@ {
        r == Ok::<OrchestratorResource, ResourceUriError>(OrchestratorResource::Perspectives)
    } else if u == "multorum://orchestrator/workers"@ {
        r == Ok::<OrchestratorResource, ResourceUriError>(OrchestratorResource::Workers)
    } else if has_prefix(u, workers_prefix()) {
        worker_route(u, u.skip(workers_prefix().len() as int), r)
    } else {
        r matches Err(ResourceUriError::Unknown(t)) && t@ == u
    }
}

/// The resource of the orchestrator surface that `uri` names.
pub fn route_orchestrator_resource(uri: &str) -> (r: Result<OrchestratorResource, ResourceUriError>)
    ensures
        orchestrator_route(uri@, r),
{
    if text_eq(uri, "multorum://orchestrator/methodology") {
        return Ok(OrchestratorResource::Methodology);
    }
    if text_eq(uri, "multorum://orchestrator/status") {
        return Ok(OrchestratorResource::Status);
    }
    if text_eq(uri, "multorum://orchestrator/perspectives") {
        return Ok(OrchestratorResource::Perspectives);
    }
    if text_eq(uri, "multorum://orchestrator/workers") {
        return Ok(OrchestratorResource::Workers);
    }
    let cs = chars_of(uri);
    let prefix = chars_of("multorum://orchestrator/workers/");
    let ghost u = uri@;
    proof {
        reveal_strlit("multorum://orchestrator/workers/");
    }
    let n = prefix.len();
    let mut matches = n <= cs.len();
    let mut k: usize = 0;
    while matches && k < n
        invariant
            n == prefix@.len(),
            k <= n,
            cs@ == u,
            matches ==> n <= cs@.len(),
            matches ==> forall|i: int| 0 <= i < k ==> cs@[i] == prefix@[i],
            !matches ==> !has_prefix(u, prefix@),
        decreases n - k + (if matches { 1int } else { 0int }),
    {
        if cs[k] != prefix[k] {
            proof {
                if has_prefix(u, prefix@) {
                    assert(u.take(n as int)[k as int] == u[k as int]);
                }
            }
            matches = false;
        } else {
            k = k + 1;
        }
    }
    if !matches {
        return Err(ResourceUriError::Unknown(String::from_str(uri)));
    }
    assert(u.take(n as int) =~= prefix@);
    let path = string_of_range(&cs, n, cs.len());
    let ghost pv = path@;
    assert(pv =~= u.skip(n as int));
    let pcs = chars_of(path.as_str());
    let slash = find_char(&pcs, 0, '/');
    assert(pcs@.skip(0) =~= pcs@);
    let id_text = string_of_range(&pcs, 0, slash);
    assert(id_text@ =~= id_part(pv));
    let id = match WorkerId::new(id_text.as_str()) {
        Ok(w) => w,
        Err(e) => {
            return Err(ResourceUriError::InvalidWorker(e));
        },
    };
    if slash == pcs.len() {
        return Ok(OrchestratorResource::Worker(id));
    }
    let sub = string_of_range(&pcs, slash + 1, pcs.len());
    assert(sub@ =~= pv.skip(slash + 1));
    if text_eq(sub.as_str(), "outbox") {
        return Ok(OrchestratorResource::WorkerOutbox(id));
    }
    if text_eq(sub.as_str(), "contract") || text_eq(sub.as_str(), "transcript") || text_eq(
        sub.as_str(),
        "checks",
    ) {
        return Err(ResourceUriError::NotImplemented(String::from_str(uri)));
    }
    Err(ResourceUriError::UnknownSubResource(sub))
}

/// The worker resources that are named but not served yet.
pub open spec fn reserved_worker_uri(u: Seq<char>) -> bool {
    u == "multorum://worker/read-set"@ || u == "multorum://worker/write-set"@ || u
        == "multorum://worker/outbox"@ || u == "multorum://worker/transcript"@
}

/// What reading the URI `u` from the worker surface gives.
pub open spec fn worker_surface_route(u: Seq<char>, r: Result<WorkerResource, ResourceUriError>) -> bool {
    if u == "multorum://worker/methodology"@ {
        r == Ok::<WorkerResource, ResourceUriError>(WorkerResource::Methodology)
    } else if u == "multorum://worker/contract"@ {
        r == Ok::<WorkerResource, ResourceUriError>(WorkerResource::Contract)
    } else if u == "multorum://worker/inbox"@ {
        r == Ok::<WorkerResource, ResourceUriError>(WorkerResource::Inbox)
    } else if u == "multorum://worker/status"@ {
        r == Ok::<WorkerResource, ResourceUriError>(WorkerResource::Status)
    } else if reserved_worker_uri(u) {
        r matches Err(ResourceUriError::NotImplemented(t)) && t@ == u
    } else {
        r matches Err(ResourceUriError::Unknown(t)) && t@ == u
    }
}

/// The resource of the worker surface that `uri` names.
pub fn route_worker_resource(uri: &str) -> (r: Result<WorkerResource, ResourceUriError>)
    ensures
        worker_surface_route(uri@, r),
{
    if text_eq(uri, "multorum://worker/methodology") {
        Ok(WorkerResource::Methodology)
    } else if text_eq(uri, "multorum://worker/contract") {
        Ok(WorkerResource::Contract)
    } else if text_eq(uri, "multorum://worker/inbox") {
        Ok(WorkerResource::Inbox)
    } else if text_eq(uri, "multorum://worker/status") {
        Ok(WorkerResource::Status)
    } else if text_eq(uri, "multorum://worker/read-set") || text_eq(uri, "multorum://worker/write-set")
        || text_eq(uri, "multorum://worker/outbox") || text_eq(uri, "multorum://worker/transcript") {
        Err(ResourceUriError::NotImplemented(String::from_str(uri)))
    } else {
        Err(ResourceUriError::Unknown(String::from_str(uri)))
    }
}

} // verus!
