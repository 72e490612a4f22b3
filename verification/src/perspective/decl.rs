//! Perspective declarations: the `[perspectives]` table of a rulebook.

use vstd::prelude::*;

use super::error::PerspectiveError;
use super::name::PerspectiveName;
use crate::fileset::expr::Expr;
use crate::fileset::parse::{parse_spec, ExprParser};
use crate::label::{has_key, inserted_in_order, key_index, Label, LabelMap};

verus! {

/// One perspective: the expression for its read set and the expression
/// for its write set.
#[derive(Debug, Clone)]
pub struct PerspectiveDecl {
    read: Expr,
    write: Expr,
}

impl PerspectiveDecl {
    /// The read-set expression.
    pub closed spec fn spec_read(&self) -> Expr {
        self.read
    }

    /// The write-set expression.
    pub closed spec fn spec_write(&self) -> Expr {
        self.write
    }

    /// A declaration from already-parsed expressions.
    pub fn new(read: Expr, write: Expr) -> (d: Self)
        ensures
            d.spec_read() == read,
            d.spec_write() == write,
    {
        PerspectiveDecl { read, write }
    }

    /// A declaration from the expression strings of the rulebook: the
    /// read expression is parsed first, then the write expression; a
    /// parse failure names the perspective.
    pub fn parse(perspective: &PerspectiveName, read: &str, write: &str) -> (r: Result<
        Self,
        PerspectiveError,
    >)
        ensures
            match r {
                Ok(d) => parse_spec(read@, Ok(d.spec_read())) && parse_spec(write@, Ok(d.spec_write())),
                Err(PerspectiveError::Parse { perspective: p, source }) => p@ == perspective@ && (
                parse_spec(read@, Err(source)) || (exists|e: Expr|
                    parse_spec(read@, Ok(e))) && parse_spec(write@, Err(source))),
                Err(_) => false,
            },
    {
        let r = match ExprParser::new(read).parse() {
            Ok(e) => e,
            Err(source) => return Err(PerspectiveError::Parse { perspective: perspective.dup(), source }),
        };
        let w = match ExprParser::new(write).parse() {
            Ok(e) => e,
            Err(source) => return Err(PerspectiveError::Parse { perspective: perspective.dup(), source }),
        };
        Ok(PerspectiveDecl { read: r, write: w })
    }

    /// The read-set expression.
    pub fn read(&self) -> (e: &Expr)
        ensures
            *e == self.spec_read(),
    {
        &self.read
    }

    /// The write-set expression.
    pub fn write(&self) -> (e: &Expr)
        ensures
            *e == self.spec_write(),
    {
        &self.write
    }
}

/// The `[perspectives]` table: declarations keyed by unique names, in
/// name order.
#[derive(Debug)]
pub struct PerspectiveTable {
    declarations: LabelMap<PerspectiveName, PerspectiveDecl>,
}

impl PerspectiveTable {
    /// The declarations, in name order.
    pub closed spec fn spec_declarations(&self) -> Seq<(PerspectiveName, PerspectiveDecl)> {
        self.declarations.spec_entries()
    }

    /// Well-formedness: names are unique.
    pub closed spec fn wf(&self) -> bool {
        self.declarations.wf()
    }

    /// An empty table.
    pub fn new() -> (t: Self)
        ensures
            t.wf(),
            t.spec_declarations() == Seq::<(PerspectiveName, PerspectiveDecl)>::empty(),
    {
        PerspectiveTable { declarations: LabelMap::new() }
    }

    /// Add or replace the declaration for `name`.
    pub fn insert(&mut self, name: PerspectiveName, decl: PerspectiveDecl)
        requires
            old(self).wf(),
        ensures
            final(self).wf(),
            has_key(old(self).spec_declarations(), name@)
                ==> final(self).spec_declarations() == old(self).spec_declarations().update(
                key_index(old(self).spec_declarations(), name@),
                (name, decl),
            ),
            !has_key(old(self).spec_declarations(), name@) ==> inserted_in_order(
                old(self).spec_declarations(),
                (name, decl),
                final(self).spec_declarations(),
            ),
    {
        self.declarations.insert(name, decl);
    }

    /// The declarations keyed by name.
    pub fn declarations(&self) -> (d: &LabelMap<PerspectiveName, PerspectiveDecl>)
        ensures
            d.spec_entries() == self.spec_declarations(),
            self.wf() ==> d.wf(),
    {
        &self.declarations
    }
}

impl Default for PerspectiveTable {
    fn default() -> (t: Self)
        ensures
            t.wf(),
            t.spec_declarations() == Seq::<(PerspectiveName, PerspectiveDecl)>::empty(),
    {
        PerspectiveTable::new()
    }
}

} // verus!
