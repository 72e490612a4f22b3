//! Which managed project a repository view belongs to, and in which
//! role: the canonical orchestrator workspace, or one worker worktree.
//!
//! The service surfaces decide this from three observations of the
//! repository root: whether it sits in the managed worktree layout
//! (`<workspace>/.multorum/tr/<worker>`), whether it holds a worker
//! contract, and whether it holds a rulebook.

use vstd::prelude::*;
use vstd::string::*;

use super::error::RuntimeError;

verus! {

/// Runtime role of one managed repository view.
#[derive(Debug, Clone, Copy, PartialEq, Eq, Structural)]
pub enum RuntimeRole {
    /// The canonical workspace that owns `.multorum/orchestrator/`.
    Orchestrator,
    /// A managed worker worktree under `.multorum/tr/<worker-id>/`.
    Worker,
}

/// The lowercase name of a role.
pub open spec fn role_text(r: RuntimeRole) -> Seq<char> {
    match r {
        RuntimeRole::Orchestrator => "orchestrator"@,
        RuntimeRole::Worker => "worker"@,
    }
}

impl RuntimeRole {
    /// Stable lowercase role name for diagnostics.
    pub fn as_str(self) -> (s: &'static str)
        ensures
            s@ == role_text(self),
    {
        match self {
            RuntimeRole::Orchestrator => "orchestrator",
            RuntimeRole::Worker => "worker",
        }
    }
}

/// The managed project context of one repository view.
#[derive(Debug, Clone)]
pub struct CurrentProject {
    repo_root: String,
    workspace_root: String,
    role: RuntimeRole,
}

impl CurrentProject {
    /// The repository root.
    pub closed spec fn spec_repo_root(&self) -> Seq<char> {
        self.repo_root@
    }

    /// The canonical workspace root.
    pub closed spec fn spec_workspace_root(&self) -> Seq<char> {
        self.workspace_root@
    }

    /// The role.
    pub closed spec fn spec_role(&self) -> RuntimeRole {
        self.role
    }

    /// Decide the project of a repository root from its observations:
    /// `worker_workspace_root` is the workspace the root belongs to when
    /// it sits in the managed worktree layout.
    ///
    /// A worktree with a contract is a worker; one without is a worker
    /// whose runtime is missing. Outside that layout a rulebook without
    /// a contract makes an orchestrator; a contract there is ambiguous;
    /// neither is an unmanaged project.
    pub fn detect(
        repo_root: String,
        worker_workspace_root: Option<String>,
        has_worker_contract: bool,
        has_rulebook: bool,
    ) -> (r: Result<Self, RuntimeError>)
        ensures
            match r {
                Ok(p) => p.spec_repo_root() == repo_root@ && match worker_workspace_root {
                    Some(w) => has_worker_contract && p.spec_role() == RuntimeRole::Worker
                        && p.spec_workspace_root() == w@,
                    None => !has_worker_contract && has_rulebook && p.spec_role()
                        == RuntimeRole::Orchestrator && p.spec_workspace_root() == repo_root@,
                },
                Err(RuntimeError::MissingWorkerRuntime(s)) => worker_workspace_root is Some
                    && !has_worker_contract && s@ == repo_root@,
                Err(RuntimeError::AmbiguousRuntimeRole { repo_root: s, details }) =>
                    worker_workspace_root is None && has_worker_contract && s@ == repo_root@ && (
                if has_rulebook {
                    details@ == "found a worker contract at a workspace root"@
                } else {
                    details@ == "found a worker contract outside `.multorum/tr/<worker>`"@
                }),
                Err(RuntimeError::UnmanagedProject(s)) => worker_workspace_root is None
                    && !has_worker_contract && !has_rulebook && s@ == repo_root@,
                Err(_) => false,
            },
    {
        match worker_workspace_root {
            Some(workspace_root) => {
                if has_worker_contract {
                    Ok(CurrentProject { repo_root, workspace_root, role: RuntimeRole::Worker })
                } else {
                    Err(RuntimeError::MissingWorkerRuntime(repo_root))
                }
            },
            None => {
                if has_worker_contract {
                    if has_rulebook {
                        Err(
                            RuntimeError::AmbiguousRuntimeRole {
                                repo_root,
                                details: "found a worker contract at a workspace root",
                            },
                        )
                    } else {
                        Err(
                            RuntimeError::AmbiguousRuntimeRole {
                                repo_root,
                                details: "found a worker contract outside `.multorum/tr/<worker>`",
                            },
                        )
                    }
                } else if has_rulebook {
                    let workspace_root = repo_root.clone();
                    Ok(CurrentProject { repo_root, workspace_root, role: RuntimeRole::Orchestrator })
                } else {
                    Err(RuntimeError::UnmanagedProject(repo_root))
                }
            },
        }
    }

    /// The repository root that owns the current path.
    pub fn repo_root(&self) -> (s: &str)
        ensures
            s@ == self.spec_repo_root(),
    {
        self.repo_root.as_str()
    }

    /// The canonical workspace root.
    pub fn workspace_root(&self) -> (s: &str)
        ensures
            s@ == self.spec_workspace_root(),
    {
        self.workspace_root.as_str()
    }

    /// The runtime role.
    pub fn role(&self) -> (r: RuntimeRole)
        ensures
            r == self.spec_role(),
    {
        self.role
    }

    /// The workspace root, when the current path is the orchestrator
    /// workspace.
    pub fn orchestrator_workspace_root(&self) -> (r: Result<&str, RuntimeError>)
        ensures
            match r {
                Ok(s) => self.spec_role() == RuntimeRole::Orchestrator && s@ == self.spec_workspace_root(),
                Err(RuntimeError::RuntimeRoleMismatch { expected, actual, repo_root }) =>
                    self.spec_role() == RuntimeRole::Worker && expected@ == "orchestrator"@ && actual@
                    == "worker"@ && repo_root@ == self.spec_repo_root(),
                Err(_) => false,
            },
    {
        match self.role {
            RuntimeRole::Orchestrator => Ok(self.workspace_root.as_str()),
            RuntimeRole::Worker => Err(
                RuntimeError::RuntimeRoleMismatch {
                    expected: RuntimeRole::Orchestrator.as_str(),
                    actual: RuntimeRole::Worker.as_str(),
                    repo_root: self.repo_root.clone(),
                },
            ),
        }
    }

    /// The repository root, when the current path is a worker worktree.
    pub fn worker_repo_root(&self) -> (r: Result<&str, RuntimeError>)
        ensures
            match r {
                Ok(s) => self.spec_role() == RuntimeRole::Worker && s@ == self.spec_repo_root(),
                Err(RuntimeError::RuntimeRoleMismatch { expected, actual, repo_root }) =>
                    self.spec_role() == RuntimeRole::Orchestrator && expected@ == "worker"@
                    && actual@ == "orchestrator"@ && repo_root@ == self.spec_repo_root(),
                Err(_) => false,
            },
    {
        match self.role {
            RuntimeRole::Worker => Ok(self.repo_root.as_str()),
            RuntimeRole::Orchestrator => Err(
                RuntimeError::RuntimeRoleMismatch {
                    expected: RuntimeRole::Worker.as_str(),
                    actual: RuntimeRole::Orchestrator.as_str(),
                    repo_root: self.repo_root.clone(),
                },
            ),
        }
    }
}

/// The workspace `multorum init` initializes, with non-fatal findings.
#[derive(Debug, Clone, PartialEq, Eq)]
pub struct InitWorkspaceTarget {
    /// The workspace root to initialize.
    pub workspace_root: String,
    /// Findings observed while choosing it.
    pub warnings: Vec<String>,
}

/// The first warning of `multorum init`, if any, given the observations
/// of the repository root (see [`init_target`]).
pub open spec fn init_warning(
    repo: Seq<char>,
    worker_workspace_root: Option<Seq<char>>,
    has_worker_contract: bool,
    has_rulebook: bool,
) -> Option<Seq<char>> {
    match worker_workspace_root {
        Some(w) => if has_rulebook {
            Some(
                "detected worker-style repository `"@ + repo
                    + "` that also has `.multorum/rulebook.toml`; using workspace root `"@ + w
                    + "` for initialization"@,
            )
        } else if !has_worker_contract {
            Some(
                "detected worker-style repository `"@ + repo
                    + "` without `.multorum/contract.toml`; using workspace root `"@ + w
                    + "` for initialization"@,
            )
        } else {
            Some(
                "detected worker worktree `"@ + repo + "`; using workspace root `"@ + w
                    + "` for initialization"@,
            )
        },
        None => if has_worker_contract && has_rulebook {
            Some(
                "found both `.multorum/contract.toml` and `.multorum/rulebook.toml` at `"@ + repo
                    + "`; initialization will continue at this repository root"@,
            )
        } else if has_worker_contract {
            Some(
                "found `.multorum/contract.toml` at repository root `"@ + repo
                    + "` without worker layout markers; initialization will continue at this repository root"@,
            )
        } else {
            None
        },
    }
}

/// The warning added when the chosen workspace root holds a worker
/// contract.
pub open spec fn ambiguous_root_warning(root: Seq<char>) -> Seq<char> {
    "found worker contract marker at workspace root `"@ + root
        + "`; runtime role markers are ambiguous"@
}

/// Choose the workspace `multorum init` initializes: the workspace of the
/// worktree layout when the repository sits in it, else the repository
/// root. Unlike [`CurrentProject::detect`] nothing is refused; unusual
/// markers are reported as warnings. `root_has_contract` tells whether
/// the chosen root holds a worker contract (the caller looks once the
/// root is known, with [`init_root`]).
pub fn init_target(
    repo_root: &str,
    worker_workspace_root: Option<String>,
    has_worker_contract: bool,
    has_rulebook: bool,
    root_has_contract: bool,
) -> (t: InitWorkspaceTarget)
    ensures
        t.workspace_root@ == match worker_workspace_root {
            Some(w) => w@,
            None => repo_root@,
        },
        t.warnings@.map_values(|w: String| w@) == (match init_warning(
            repo_root@,
            match worker_workspace_root {
                Some(w) => Some(w@),
                None => None,
            },
            has_worker_contract,
            has_rulebook,
        ) {
            Some(m) => seq![m],
            None => Seq::empty(),
        }) + if root_has_contract {
            seq![ambiguous_root_warning(t.workspace_root@)]
        } else {
            Seq::empty()
        },
{
    let mut warnings: Vec<String> = Vec::new();
    let workspace_root = match worker_workspace_root {
        Some(w) => {
            let mut m = if has_rulebook {
                String::from_str("detected worker-style repository `")
            } else if !has_worker_contract {
                String::from_str("detected worker-style repository `")
            } else {
                String::from_str("detected worker worktree `")
            };
            m.append(repo_root);
            if has_rulebook {
                m.append("` that also has `.multorum/rulebook.toml`; using workspace root `");
            } else if !has_worker_contract {
                m.append("` without `.multorum/contract.toml`; using workspace root `");
            } else {
                m.append("`; using workspace root `");
            }
            m.append(w.as_str());
            m.append("` for initialization");
            warnings.push(m);
            w
        },
        None => {
            if has_worker_contract && has_rulebook {
                let mut m = String::from_str(
                    "found both `.multorum/contract.toml` and `.multorum/rulebook.toml` at `",
                );
                m.append(repo_root);
                m.append("`; initialization will continue at this repository root");
                warnings.push(m);
            } else if has_worker_contract {
                let mut m = String::from_str("found `.multorum/contract.toml` at repository root `");
                m.append(repo_root);
                m.append(
                    "` without worker layout markers; initialization will continue at this repository root",
                );
                warnings.push(m);
            }
            String::from_str(repo_root)
        },
    };
    if root_has_contract {
        let mut m = String::from_str("found worker contract marker at workspace root `");
        m.append(workspace_root.as_str());
        m.append("`; runtime role markers are ambiguous");
        warnings.push(m);
    }
    let t = InitWorkspaceTarget { workspace_root, warnings };
    assert(t.warnings@.map_values(|w: String| w@) =~= (match init_warning(
        repo_root@,
        match worker_workspace_root {
            Some(w) => Some(w@),
            None => None,
        },
        has_worker_contract,
        has_rulebook,
    ) {
        Some(m) => seq![m],
        None => Seq::<Seq<char>>::empty(),
    }) + if root_has_contract {
        seq![ambiguous_root_warning(t.workspace_root@)]
    } else {
        Seq::<Seq<char>>::empty()
    });
    t
}

/// The workspace root `multorum init` chooses, before the contract
/// marker at that root is examined.
pub fn init_root(repo_root: &str, worker_workspace_root: &Option<String>) -> (r: String)
    ensures
        r@ == match *worker_workspace_root {
            Some(w) => w@,
            None => repo_root@,
        },
{
    match worker_workspace_root {
        Some(w) => w.clone(),
        None => String::from_str(repo_root),
    }
}

} // verus!
