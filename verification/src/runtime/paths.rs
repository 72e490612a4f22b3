//! Canonical paths of Multorum runtime data, built by joining fixed
//! components onto a workspace or worktree root.

use vstd::prelude::*;
use vstd::string::*;

use super::commit::CanonicalCommitHash;
use super::mailbox::MailboxDirection;
use super::worker_id::WorkerId;
use super::error::RuntimeError;
use crate::text::{chars_of, join_path, path_join, string_of_range};

verus! {

/// Paths under a Multorum workspace root.
#[derive(Debug, Clone)]
pub struct MultorumPaths {
    workspace_root: String,
}

/// The `.multorum/` directory of a workspace.
pub open spec fn multorum_root_of(root: Seq<char>) -> Seq<char> {
    path_join(root, ".multorum"@)
}

impl MultorumPaths {
    /// The workspace root, as text.
    pub closed spec fn root(&self) -> Seq<char> {
        self.workspace_root@
    }

    /// Path helpers for a workspace root, taken as given.
    pub fn new(workspace_root: String) -> (p: Self)
        ensures
            p.root() == workspace_root@,
    {
        MultorumPaths { workspace_root }
    }

    /// The workspace root.
    pub fn workspace_root(&self) -> (r: &str)
        ensures
            r@ == self.root(),
    {
        self.workspace_root.as_str()
    }

    /// `.multorum/` under the workspace root.
    pub fn multorum_root(&self) -> (r: String)
        ensures
            r@ == multorum_root_of(self.root()),
    {
        join_path(self.workspace_root.as_str(), ".multorum")
    }

    /// The committed `.multorum/.gitignore`.
    pub fn multorum_gitignore(&self) -> (r: String)
        ensures
            r@ == path_join(multorum_root_of(self.root()), ".gitignore"@),
    {
        join_path(self.multorum_root().as_str(), ".gitignore")
    }

    /// Paths of orchestrator-local runtime state:
    /// `.multorum/orchestrator/`.
    pub fn orchestrator(&self) -> (r: OrchestratorPaths)
        ensures
            r.root_text() == path_join(multorum_root_of(self.root()), "orchestrator"@),
    {
        OrchestratorPaths::new(join_path(self.multorum_root().as_str(), "orchestrator"))
    }

    /// The audit log directory, `.multorum/audit/`.
    pub fn audit(&self) -> (r: String)
        ensures
            r@ == path_join(multorum_root_of(self.root()), "audit"@),
    {
        join_path(self.multorum_root().as_str(), "audit")
    }

    /// The audit entry of one merged worker: `<id>.toml` in the audit log.
    pub fn audit_entry(&self, worker_id: &WorkerId) -> (r: String)
        ensures
            r@ == path_join(
                path_join(multorum_root_of(self.root()), "audit"@),
                worker_id@ + ".toml"@,
            ),
    {
        let mut file = String::from_str(worker_id.as_str());
        file.append(".toml");
        join_path(self.audit().as_str(), file.as_str())
    }

    /// The identity of the audit entry of a merge: the worker id, a hyphen
    /// and the merged commit.
    pub fn audit_entry_id(worker_id: &WorkerId, head_commit: &CanonicalCommitHash) -> (r: String)
        ensures
            r@ == worker_id@ + "-"@ + head_commit@,
    {
        let mut id = String::from_str(worker_id.as_str());
        id.append("-");
        id.append(head_commit.as_str());
        proof {
            reveal_strlit("-");
        }
        id
    }

    /// The directory that holds the rationale bundle of one audit entry:
    /// `<id>` in the audit log.
    pub fn audit_entry_root(&self, id: &str) -> (r: String)
        ensures
            r@ == path_join(path_join(multorum_root_of(self.root()), "audit"@), id@),
    {
        join_path(self.audit().as_str(), id)
    }

    /// The record of one audit entry: `<id>.toml` in the audit log.
    pub fn audit_entry_file(&self, id: &str) -> (r: String)
        ensures
            r@ == path_join(path_join(multorum_root_of(self.root()), "audit"@), id@ + ".toml"@),
    {
        let mut file = String::from_str(id);
        file.append(".toml");
        join_path(self.audit().as_str(), file.as_str())
    }

    /// Paths of the managed worktree of a worker: `.multorum/tr/<id>`.
    pub fn worker(&self, worker_id: &WorkerId) -> (r: WorkerPaths)
        ensures
            r.root_text() == path_join(
                path_join(multorum_root_of(self.root()), "tr"@),
                worker_id@,
            ),
    {
        let tr = join_path(self.multorum_root().as_str(), "tr");
        WorkerPaths::new(join_path(tr.as_str(), worker_id.as_str()))
    }
}

/// Paths under `.multorum/orchestrator/`.
#[derive(Debug, Clone)]
pub struct OrchestratorPaths {
    root: String,
}

impl OrchestratorPaths {
    /// The root, as text.
    pub closed spec fn root_text(&self) -> Seq<char> {
        self.root@
    }

    /// Path helpers for the orchestrator runtime root.
    pub fn new(root: String) -> (p: Self)
        ensures
            p.root_text() == root@,
    {
        OrchestratorPaths { root }
    }

    /// `.multorum/orchestrator/`.
    pub fn root(&self) -> (r: &str)
        ensures
            r@ == self.root_text(),
    {
        self.root.as_str()
    }

    /// The orchestrator runtime state file.
    pub fn state(&self) -> (r: String)
        ensures
            r@ == path_join(self.root_text(), "state.toml"@),
    {
        join_path(self.root.as_str(), "state.toml")
    }

    /// The materialized exclusion set: the union of the boundaries of the
    /// live groups, read by the pre-commit hook.
    pub fn exclusion_set(&self) -> (r: String)
        ensures
            r@ == path_join(self.root_text(), "exclusion-set.txt"@),
    {
        join_path(self.root.as_str(), "exclusion-set.txt")
    }
}

/// Paths under a worker worktree.
#[derive(Debug, Clone)]
pub struct WorkerPaths {
    worktree_root: String,
}

/// `.multorum/` inside a worktree.
pub open spec fn worker_multorum(root: Seq<char>) -> Seq<char> {
    path_join(root, ".multorum"@)
}

/// The mailbox of one direction inside a worktree.
pub open spec fn mailbox_of(root: Seq<char>, d: MailboxDirection) -> Seq<char> {
    match d {
        MailboxDirection::Inbox => path_join(worker_multorum(root), "inbox"@),
        MailboxDirection::Outbox => path_join(worker_multorum(root), "outbox"@),
    }
}

/// The components that put a managed worktree under its workspace:
/// `/.multorum/tr/`.
pub open spec fn managed_infix() -> Seq<char> {
    "/.multorum/tr/"@
}

/// Whether the worktree path `p` is `pre`, then `/.multorum/tr/`, then a
/// non-empty last component `name`.
pub open spec fn managed_split(p: Seq<char>, pre: Seq<char>, name: Seq<char>) -> bool {
    &&& p == pre + managed_infix() + name
    &&& name.len() > 0
    &&& !name.contains('/')
}

/// The workspace root that the part `pre` before `/.multorum/tr/` names:
/// the filesystem root when it is empty.
pub open spec fn workspace_text(pre: Seq<char>) -> Seq<char> {
    if pre.len() == 0 {
        "/"@
    } else {
        pre
    }
}

impl WorkerPaths {
    /// The worktree root, as text.
    pub closed spec fn root_text(&self) -> Seq<char> {
        self.worktree_root@
    }

    /// Path helpers for a worktree root.
    pub fn new(worktree_root: String) -> (p: Self)
        ensures
            p.root_text() == worktree_root@,
    {
        WorkerPaths { worktree_root }
    }

    /// The worktree root.
    pub fn worktree_root(&self) -> (r: &str)
        ensures
            r@ == self.root_text(),
    {
        self.worktree_root.as_str()
    }

    /// The workspace root of a managed worktree,
    /// `<workspace>/.multorum/tr/<worker>`. The path is taken as text in
    /// canonical form: absolute, with no trailing, doubled, `.` or `..`
    /// components.
    pub fn workspace_root(&self) -> (r: Result<String, RuntimeError>)
        ensures
            match r {
                Ok(w) => exists|pre: Seq<char>, name: Seq<char>|
                    #[trigger] managed_split(self.root_text(), pre, name) && w@ == workspace_text(pre),
                Err(e) => (e matches RuntimeError::MissingWorkerRuntime(t) && t@ == self.root_text())
                    && forall|pre: Seq<char>, name: Seq<char>|
                    !#[trigger] managed_split(self.root_text(), pre, name),
            },
    {
        let cs = chars_of(self.worktree_root.as_str());
        let ghost p = cs@;
        let infix = chars_of("/.multorum/tr/");
        proof {
            reveal_strlit("/.multorum/tr/");
            assert(infix@.len() == 14);
            assert(p == self.root_text());
        }
        let missing = RuntimeError::MissingWorkerRuntime(String::from_str(self.worktree_root.as_str()));
        // The last separator.
        let mut j: usize = cs.len();
        while j > 0 && cs[j - 1] != '/'
            invariant
                j <= cs.len(),
                forall|i: int| j <= i < cs.len() ==> cs@[i] != '/',
            decreases j,
        {
            j = j - 1;
        }
        proof {
            assert forall|pre: Seq<char>, name: Seq<char>| #[trigger]
                managed_split(p, pre, name) implies j == pre.len() + 14 by {
                let at: int = pre.len() as int + 13;
                assert(p[at] == infix@[13]);
                assert(p[at] == '/');
                if j < at + 1 {
                    assert(false);
                }
                if j > at + 1 {
                    assert(p[j - 1] == name[j - 1 - (pre.len() + 14)]);
                    assert(name.contains('/'));
                }
            }
        }
        if j == 0 || j == cs.len() || j < 14 {
            return Err(missing);
        }
        let start = j - 14;
        let mut q: usize = 0;
        while q < 14
            invariant
                q <= 14,
                start + 14 == j,
                j <= cs.len(),
                p == cs@,
                p == self.root_text(),
                missing matches RuntimeError::MissingWorkerRuntime(t) && t@ == p,
                infix@ == managed_infix(),
                infix@.len() == 14,
                forall|pre: Seq<char>, name: Seq<char>| #[trigger]
                    managed_split(p, pre, name) ==> j == pre.len() + 14,
                forall|i: int| 0 <= i < q ==> cs@[start + i] == infix@[i],
            decreases 14 - q,
        {
            if cs[start + q] != infix[q] {
                proof {
                    assert forall|pre: Seq<char>, name: Seq<char>|
                        !#[trigger] managed_split(p, pre, name) by {
                        if managed_split(p, pre, name) {
                            assert(pre.len() == start);
                            assert(p[start + q] == (pre + managed_infix() + name)[start + q]);
                            assert(p[start + q] == infix@[q as int]);
                        }
                    }
                }
                return Err(missing);
            }
            q = q + 1;
        }
        let ghost pre = p.take(start as int);
        let ghost name = p.skip(j as int);
        proof {
            assert(p =~= pre + managed_infix() + name);
            assert(!name.contains('/')) by {
                if name.contains('/') {
                    let t = choose|t: int| 0 <= t < name.len() && name[t] == '/';
                    assert(p[j + t] == '/');
                }
            }
            assert(managed_split(p, pre, name));
        }
        if start == 0 {
            proof {
                reveal_strlit("/");
                assert(pre.len() == 0);
            }
            Ok(String::from_str("/"))
        } else {
            let w = string_of_range(&cs, 0, start);
            assert(w@ =~= pre);
            Ok(w)
        }
    }

    /// The worker-local `.multorum/`.
    pub fn multorum_root(&self) -> (r: String)
        ensures
            r@ == worker_multorum(self.root_text()),
    {
        join_path(self.worktree_root.as_str(), ".multorum")
    }

    /// The runtime contract.
    pub fn contract(&self) -> (r: String)
        ensures
            r@ == path_join(worker_multorum(self.root_text()), "contract.toml"@),
    {
        join_path(self.multorum_root().as_str(), "contract.toml")
    }

    /// The materialized read set.
    pub fn read_set(&self) -> (r: String)
        ensures
            r@ == path_join(worker_multorum(self.root_text()), "read-set.txt"@),
    {
        join_path(self.multorum_root().as_str(), "read-set.txt")
    }

    /// The materialized write set.
    pub fn write_set(&self) -> (r: String)
        ensures
            r@ == path_join(worker_multorum(self.root_text()), "write-set.txt"@),
    {
        join_path(self.multorum_root().as_str(), "write-set.txt")
    }

    /// The inbox root.
    pub fn inbox(&self) -> (r: String)
        ensures
            r@ == mailbox_of(self.root_text(), MailboxDirection::Inbox),
    {
        join_path(self.multorum_root().as_str(), "inbox")
    }

    /// The outbox root.
    pub fn outbox(&self) -> (r: String)
        ensures
            r@ == mailbox_of(self.root_text(), MailboxDirection::Outbox),
    {
        join_path(self.multorum_root().as_str(), "outbox")
    }

    /// The mailbox root for a direction.
    pub fn mailbox(&self, direction: MailboxDirection) -> (r: String)
        ensures
            r@ == mailbox_of(self.root_text(), direction),
    {
        match direction {
            MailboxDirection::Inbox => self.inbox(),
            MailboxDirection::Outbox => self.outbox(),
        }
    }

    /// Pending inbox bundles.
    pub fn inbox_new(&self) -> (r: String)
        ensures
            r@ == path_join(mailbox_of(self.root_text(), MailboxDirection::Inbox), "new"@),
    {
        join_path(self.inbox().as_str(), "new")
    }

    /// Inbox acknowledgements.
    pub fn inbox_ack(&self) -> (r: String)
        ensures
            r@ == path_join(mailbox_of(self.root_text(), MailboxDirection::Inbox), "ack"@),
    {
        join_path(self.inbox().as_str(), "ack")
    }

    /// Pending outbox bundles.
    pub fn outbox_new(&self) -> (r: String)
        ensures
            r@ == path_join(mailbox_of(self.root_text(), MailboxDirection::Outbox), "new"@),
    {
        join_path(self.outbox().as_str(), "new")
    }

    /// Outbox acknowledgements.
    pub fn outbox_ack(&self) -> (r: String)
        ensures
            r@ == path_join(mailbox_of(self.root_text(), MailboxDirection::Outbox), "ack"@),
    {
        join_path(self.outbox().as_str(), "ack")
    }

    /// Pending bundles for a direction.
    pub fn mailbox_new(&self, direction: MailboxDirection) -> (r: String)
        ensures
            r@ == path_join(mailbox_of(self.root_text(), direction), "new"@),
    {
        join_path(self.mailbox(direction).as_str(), "new")
    }

    /// Acknowledgements for a direction.
    pub fn mailbox_ack(&self, direction: MailboxDirection) -> (r: String)
        ensures
            r@ == path_join(mailbox_of(self.root_text(), direction), "ack"@),
    {
        join_path(self.mailbox(direction).as_str(), "ack")
    }

    /// The runtime artifacts root.
    pub fn artifacts(&self) -> (r: String)
        ensures
            r@ == path_join(worker_multorum(self.root_text()), "artifacts"@),
    {
        join_path(self.multorum_root().as_str(), "artifacts")
    }
}

} // verus!
