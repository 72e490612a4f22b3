//! The raw rulebook: file set, perspective and check declarations as
//! written in `.multorum/rulebook.toml`.

use vstd::prelude::*;

use super::check::CheckTable;
use crate::fileset::expr::FileSetTable;
use crate::perspective::decl::PerspectiveTable;
use crate::text::{join_path, path_join};

verus! {

/// The rulebook's path relative to the workspace root.
pub const RULEBOOK_RELATIVE_PATH: &'static str = ".multorum/rulebook.toml";

/// The rulebook written by `rulebook init`: every table present and
/// empty.
pub const DEFAULT_RULEBOOK_TEMPLATE: &'static str = "# Multorum rulebook.
#
# [filesets] names sets of repository files: a glob (`Name.path = \"src/**\"`)
# or an expression over other names with `|`, `&`, `-` and parentheses.
# [perspectives] gives each role a `read` and a `write` expression.
# [checks] lists the pre-merge `pipeline` and one table per check with its
# `command` and an optional `policy` (`always` or `skippable`).

[filesets]

[perspectives]

[checks]
pipeline = []
";

/// The committed configuration of a Multorum project: file sets,
/// perspectives, and the pre-merge check pipeline.
#[derive(Debug)]
pub struct Rulebook {
    filesets: FileSetTable,
    perspectives: PerspectiveTable,
    checks: CheckTable,
}

impl Rulebook {
    /// The file set table.
    pub closed spec fn spec_filesets(&self) -> FileSetTable {
        self.filesets
    }

    /// The perspective table.
    pub closed spec fn spec_perspectives(&self) -> PerspectiveTable {
        self.perspectives
    }

    /// The check table.
    pub closed spec fn spec_checks(&self) -> CheckTable {
        self.checks
    }

    /// Well-formedness: every table has unique names.
    pub open spec fn wf(&self) -> bool {
        &&& self.spec_filesets().wf()
        &&& self.spec_perspectives().wf()
        &&& self.spec_checks().wf()
    }

    /// A rulebook from its three tables.
    pub fn new(filesets: FileSetTable, perspectives: PerspectiveTable, checks: CheckTable) -> (r: Self)
        ensures
            r.spec_filesets() == filesets,
            r.spec_perspectives() == perspectives,
            r.spec_checks() == checks,
    {
        Rulebook { filesets, perspectives, checks }
    }

    /// The rulebook template written during initialization.
    pub fn default_template() -> (s: &'static str)
        ensures
            s@ == DEFAULT_RULEBOOK_TEMPLATE@,
    {
        DEFAULT_RULEBOOK_TEMPLATE
    }

    /// The rulebook path for a workspace root.
    pub fn rulebook_path(workspace_root: &str) -> (p: String)
        ensures
            p@ == path_join(workspace_root@, RULEBOOK_RELATIVE_PATH@),
    {
        join_path(workspace_root, RULEBOOK_RELATIVE_PATH)
    }

    /// The file set declarations.
    pub fn filesets(&self) -> (t: &FileSetTable)
        ensures
            *t == self.spec_filesets(),
    {
        &self.filesets
    }

    /// The perspective declarations.
    pub fn perspectives(&self) -> (t: &PerspectiveTable)
        ensures
            *t == self.spec_perspectives(),
    {
        &self.perspectives
    }

    /// The check declarations.
    pub fn checks(&self) -> (t: &CheckTable)
        ensures
            *t == self.spec_checks(),
    {
        &self.checks
    }
}

impl Default for Rulebook {
    fn default() -> (r: Self)
        ensures
            r.wf(),
            r.spec_filesets().spec_definitions().len() == 0,
            r.spec_perspectives().spec_declarations().len() == 0,
            r.spec_checks().spec_pipeline().len() == 0,
            r.spec_checks().spec_declarations().len() == 0,
    {
        Rulebook { filesets: FileSetTable::new(), perspectives: PerspectiveTable::new(), checks: CheckTable::default() }
    }
}

} // verus!
