//! Content bundles: a `body.md` file plus an `artifacts/` directory,
//! shared by the mailbox protocol and audit entries.

use vstd::prelude::*;

use crate::text::{chars_of, count_before, find_char, string_of_range};

verus! {

/// Errors produced by the bundle content layer.
#[derive(Debug)]
pub enum BundleError {
    /// Both inline text and a file path were given for the body.
    ConflictingBody,
    /// An artifact path does not name a file.
    InvalidArtifactPath,
    /// Two artifacts share the same file name.
    DuplicateArtifactName,
    /// Filesystem I/O failure within the bundle layer.
    Io { reason: String },
}

/// Content to place into a bundle: inline body text or a body file
/// (mutually exclusive), plus artifact files.
#[derive(Debug, Clone, PartialEq, Eq)]
pub struct BundlePayload {
    /// Inline Markdown content for `body.md`.
    pub body_text: Option<String>,
    /// Existing file to move into `body.md`.
    pub body_path: Option<String>,
    /// Existing files to move into `artifacts/`.
    pub artifacts: Vec<String>,
}

impl Default for BundlePayload {
    fn default() -> (p: Self)
        ensures
            p.body_text is None,
            p.body_path is None,
            p.artifacts@.len() == 0,
    {
        BundlePayload { body_text: None, body_path: None, artifacts: Vec::new() }
    }
}

impl BundlePayload {
    /// Whether the payload carries no body or artifacts.
    pub fn is_empty(&self) -> (b: bool)
        ensures
            b == (self.body_text is None && self.body_path is None && self.artifacts@.len() == 0),
    {
        self.body_text.is_none() && self.body_path.is_none() && self.artifacts.len() == 0
    }
}

/// What a [`BundleError`] says.
pub open spec fn bundle_error_text(e: BundleError) -> Seq<char> {
    match e {
        BundleError::ConflictingBody => "body_text and body_path are mutually exclusive"@,
        BundleError::InvalidArtifactPath => "artifact path must name a file"@,
        BundleError::DuplicateArtifactName => "artifact names must be unique"@,
        BundleError::Io { reason } => reason@,
    }
}

impl BundleError {
    /// The message of this error.
    pub fn message(&self) -> (r: String)
        ensures
            r@ == bundle_error_text(*self),
    {
        match self {
            BundleError::ConflictingBody => String::from_str(
                "body_text and body_path are mutually exclusive",
            ),
            BundleError::InvalidArtifactPath => String::from_str("artifact path must name a file"),
            BundleError::DuplicateArtifactName => String::from_str("artifact names must be unique"),
            BundleError::Io { reason } => reason.clone(),
        }
    }
}

/// Canonical body file name within a bundle directory.
pub const BODY_FILE_NAME: &'static str = "body.md";

/// Canonical artifacts subdirectory name within a bundle directory.
pub const ARTIFACTS_DIR_NAME: &'static str = "artifacts";

/// Whether a path component is skipped when naming the file a path
/// ends in: an empty component or `.`.
pub open spec fn skipped_component(c: Seq<char>) -> bool {
    c.len() == 0 || c == seq!['.']
}

/// The last component of path `p` that is neither empty nor `.`.
pub open spec fn last_component(p: Seq<char>) -> Option<Seq<char>>
    decreases p.len(),
{
    if p.len() == 0 {
        None
    } else {
        let n = count_before(p, '/');
        let head = p.take(n as int);
        let later = if n < p.len() {
            last_component(p.skip(n as int + 1))
        } else {
            None
        };
        match later {
            Some(x) => Some(x),
            None => if skipped_component(head) {
                None
            } else {
                Some(head)
            },
        }
    }
}

/// The final component of path `p`, as `Path::file_name` names it on
/// Unix: none when the path has no component or ends in `..`.
pub open spec fn file_name_of(p: Seq<char>) -> Option<Seq<char>> {
    match last_component(p) {
        Some(x) => if x == seq!['.', '.'] {
            None
        } else {
            Some(x)
        },
        None => None,
    }
}

/// The final component of a path, if it names one.
pub fn path_file_name(p: &str) -> (r: Option<String>)
    ensures
        match r {
            Some(s) => file_name_of(p@) == Some(s@),
            None => file_name_of(p@) is None,
        },
{
    let cs = chars_of(p);
    let mut found: Option<(usize, usize)> = None;
    let mut start: usize = 0;
    let mut done = cs.len() == 0;
    assert(cs@.skip(0) =~= cs@);
    while !done
        invariant
            cs@ == p@,
            start <= cs.len(),
            done ==> last_component(p@) == (match found {
                Some((a, b)) => Some(cs@.subrange(a as int, b as int)),
                None => None::<Seq<char>>,
            }),
            !done ==> start < cs.len() || start == cs.len(),
            !done ==> last_component(p@) == (match last_component(cs@.skip(start as int)) {
                Some(x) => Some(x),
                None => match found {
                    Some((a, b)) => Some(cs@.subrange(a as int, b as int)),
                    None => None::<Seq<char>>,
                },
            }),
            match found {
                Some((a, b)) => a <= b <= cs.len(),
                None => true,
            },
        decreases cs.len() - start + (if done { 0int } else { 1int }),
    {
        if start == cs.len() {
            assert(cs@.skip(start as int) =~= Seq::<char>::empty());
            done = true;
        } else {
            let ghost rest = cs@.skip(start as int);
            let j = find_char(&cs, start, '/');
            let ghost head = rest.take(j - start);
            assert(head =~= cs@.subrange(start as int, j as int));
            let skip = j == start || (j - start == 1 && cs[start] == '.');
            assert(skip == skipped_component(head)) by {
                if j - start == 1 {
                    assert(head.len() == 1 && head[0] == cs@[start as int]);
                    if cs@[start as int] == '.' {
                        assert(head =~= seq!['.']);
                    }
                }
            }
            if !skip {
                found = Some((start, j));
            }
            if j < cs.len() {
                assert(rest.skip(j - start + 1) =~= cs@.skip(j + 1));
                start = j + 1;
            } else {
                done = true;
            }
        }
    }
    match found {
        Some((a, b)) => {
            let name = string_of_range(&cs, a, b);
            let dots = b - a == 2 && cs[a] == '.' && cs[a + 1] == '.';
            assert(dots == (cs@.subrange(a as int, b as int) == seq!['.', '.'])) by {
                if b - a == 2 {
                    if cs@.subrange(a as int, b as int) == seq!['.', '.'] {
                        assert(cs@.subrange(a as int, b as int)[0] == cs@[a as int]);
                        assert(cs@.subrange(a as int, b as int)[1] == cs@[a + 1]);
                    }
                    if dots {
                        assert(cs@.subrange(a as int, b as int) =~= seq!['.', '.']);
                    }
                }
            }
            if dots {
                None
            } else {
                Some(name)
            }
        },
        None => None,
    }
}

/// Artifact `i` of `arts` names no file, repeats the file name of an
/// earlier artifact, or is not an existing file.
pub open spec fn artifact_bad(arts: Seq<String>, files: Seq<bool>, i: int) -> bool {
    ||| file_name_of(arts[i]@) is None
    ||| exists|j: int| 0 <= j < i && file_name_of(#[trigger] arts[j]@) == file_name_of(arts[i]@)
    ||| !files[i]
}

/// Index `i` holds the first bad artifact.
pub open spec fn first_bad_artifact(arts: Seq<String>, files: Seq<bool>, i: int) -> bool {
    &&& 0 <= i < arts.len()
    &&& artifact_bad(arts, files, i)
    &&& forall|j: int| 0 <= j < i ==> !#[trigger] artifact_bad(arts, files, j)
}

/// Whether `e` is the error for bad artifact `i`.
pub open spec fn artifact_error(arts: Seq<String>, files: Seq<bool>, i: int, e: BundleError) -> bool {
    if file_name_of(arts[i]@) is None {
        e is InvalidArtifactPath
    } else if exists|j: int| 0 <= j < i && file_name_of(#[trigger] arts[j]@) == file_name_of(arts[i]@) {
        e is DuplicateArtifactName
    } else {
        e matches BundleError::Io { reason } && reason@ == "bundle artifact path is not a file: "@
            + arts[i]@
    }
}

impl BundlePayload {
    /// Check that the payload is well formed before any path-backed input
    /// is moved into managed storage. `body_is_file` tells whether the
    /// body path names an existing file, and `artifacts_are_files`
    /// whether each artifact path does.
    ///
    /// Fails when both a body text and a body path are given, when the
    /// body path is not a file, or at the first artifact that names no
    /// file, repeats the file name of an earlier artifact, or is not a
    /// file.
    pub fn validate(&self, body_is_file: bool, artifacts_are_files: &Vec<bool>) -> (r: Result<
        (),
        BundleError,
    >)
        requires
            artifacts_are_files@.len() == self.artifacts@.len(),
        ensures
            r is Ok <==> !(self.body_text is Some && self.body_path is Some) && (self.body_path is Some
                ==> body_is_file) && forall|i: int|
                0 <= i < self.artifacts@.len() ==> !#[trigger] artifact_bad(
                    self.artifacts@,
                    artifacts_are_files@,
                    i,
                ),
            r matches Err(e) ==> if self.body_text is Some && self.body_path is Some {
                e is ConflictingBody
            } else if self.body_path is Some && !body_is_file {
                e matches BundleError::Io { reason } && reason@ == "bundle body path is not a file: "@
                    + self.body_path->0@
            } else {
                exists|i: int|
                    first_bad_artifact(self.artifacts@, artifacts_are_files@, i) && artifact_error(
                        self.artifacts@,
                        artifacts_are_files@,
                        i,
                        e,
                    )
            },
    {
        if self.body_text.is_some() && self.body_path.is_some() {
            return Err(BundleError::ConflictingBody);
        }
        match &self.body_path {
            Some(path) => {
                if !body_is_file {
                    let mut reason = String::from_str("bundle body path is not a file: ");
                    reason.append(path.as_str());
                    return Err(BundleError::Io { reason });
                }
            },
            None => {},
        }
        let ghost arts = self.artifacts@;
        let ghost files = artifacts_are_files@;
        let mut names: Vec<String> = Vec::new();
        let mut i: usize = 0;
        while i < self.artifacts.len()
            invariant
                arts == self.artifacts@,
                files == artifacts_are_files@,
                files.len() == arts.len(),
                !(self.body_text is Some && self.body_path is Some),
                self.body_path is Some ==> body_is_file,
                i <= arts.len(),
                names@.len() == i,
                forall|j: int| 0 <= j < i ==> file_name_of(arts[j]@) == Some(#[trigger] names@[j]@),
                forall|j: int| 0 <= j < i ==> !#[trigger] artifact_bad(arts, files, j),
            decreases arts.len() - i,
        {
            let name = match path_file_name(self.artifacts[i].as_str()) {
                Some(n) => n,
                None => {
                    assert(artifact_bad(arts, files, i as int));
                    assert(first_bad_artifact(arts, files, i as int));
                    return Err(BundleError::InvalidArtifactPath);
                },
            };
            let mut k: usize = 0;
            while k < names.len()
                invariant
                    k <= names@.len(),
                    names@.len() == i,
                    i < arts.len(),
                    arts == self.artifacts@,
                    files == artifacts_are_files@,
                    !(self.body_text is Some && self.body_path is Some),
                    self.body_path is Some ==> body_is_file,
                    forall|j: int| 0 <= j < i ==> !#[trigger] artifact_bad(arts, files, j),
                    file_name_of(arts[i as int]@) == Some(name@),
                    forall|j: int| 0 <= j < i ==> file_name_of(arts[j]@) == Some(#[trigger] names@[j]@),
                    forall|j: int| 0 <= j < k ==> (#[trigger] names@[j])@ != name@,
                decreases names@.len() - k,
            {
                if crate::text::text_eq(names[k].as_str(), name.as_str()) {
                    proof {
                        assert(file_name_of(arts[k as int]@) == file_name_of(arts[i as int]@));
                        assert(artifact_bad(arts, files, i as int));
                        assert(first_bad_artifact(arts, files, i as int));
                    }
                    return Err(BundleError::DuplicateArtifactName);
                }
                k = k + 1;
            }
            assert(!exists|j: int| 0 <= j < i && file_name_of(#[trigger] arts[j]@) == file_name_of(arts[i as int]@)) by {
                assert forall|j: int| 0 <= j < i implies file_name_of(#[trigger] arts[j]@) != file_name_of(arts[i as int]@) by {
                    assert(names@[j]@ != name@);
                }
            }
            if !artifacts_are_files[i] {
                let mut reason = String::from_str("bundle artifact path is not a file: ");
                reason.append(self.artifacts[i].as_str());
                proof {
                    assert(artifact_bad(arts, files, i as int));
                    assert(first_bad_artifact(arts, files, i as int));
                }
                return Err(BundleError::Io { reason });
            }
            names.push(name);
            i = i + 1;
        }
        Ok(())
    }
}

} // verus!
