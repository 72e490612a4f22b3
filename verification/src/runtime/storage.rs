//! Naming rules of the runtime's files: mailbox bundle directories and
//! acknowledgement files, the next sequence number of a mailbox, the
//! summary line of a bundle, and the entries of `.multorum/.gitignore`.

use vstd::prelude::*;

use super::mailbox::{kind_slug, MessageKind, ProtocolVersion, Sequence};
use crate::bundle::{file_name_of, path_file_name, ARTIFACTS_DIR_NAME, BODY_FILE_NAME};
use crate::text::{join_path, path_join};
use crate::num::{decimal, decimal_text, parse_u64, parse_u64_spec, zeros};
use crate::path_set::strings_view;
use crate::text::{
    join_strings, join_with, chars_of, count_before, find_char, lines_of, push_char, split_lines, string_from_chars,
    string_of_range, trim_range, trimmed,
};

verus! {

/// Canonical envelope file name within one bundle directory.
pub const ENVELOPE_FILE_NAME: &'static str = "envelope.toml";

/// File extension of acknowledgement files.
pub const ACK_EXTENSION: &'static str = "ack";

/// Prefix of a bundle directory that is still being written.
pub const TEMP_BUNDLE_PREFIX: &'static str = ".tmp-";

/// Entry of `.multorum/.gitignore` for the orchestrator's runtime state.
pub const ORCHESTRATOR_IGNORE_ENTRY: &'static str = "orchestrator/";

/// Entry of `.multorum/.gitignore` for transient runtime files.
pub const TRANSIENT_IGNORE_ENTRY: &'static str = "tr/";

/// The protocol version written into mailbox envelopes.
pub fn protocol_version() -> (v: ProtocolVersion)
    ensures
        v.0 == 1,
{
    ProtocolVersion(1)
}

/// `n` in decimal, with leading zeros up to four digits.
pub open spec fn padded4(n: nat) -> Seq<char> {
    if decimal(n).len() >= 4 {
        decimal(n)
    } else {
        Seq::new((4 - decimal(n).len()) as nat, |i: int| '0') + decimal(n)
    }
}

/// `n` in decimal, with leading zeros up to four digits (`{:04}`).
pub fn padded_sequence(n: u64) -> (s: String)
    ensures
        s@ == padded4(n as nat),
{
    let d = decimal_text(n);
    let len = chars_of(d.as_str()).len();
    if len >= 4 {
        return d;
    }
    let mut s = String::new();
    let mut k = len;
    while k < 4
        invariant
            len <= k <= 4,
            len == decimal(n as nat).len(),
            s@ == Seq::new((k - len) as nat, |i: int| '0'),
        decreases 4 - k,
    {
        push_char(&mut s, '0');
        assert(s@ =~= Seq::new((k + 1 - len) as nat, |i: int| '0'));
        k = k + 1;
    }
    s.append(d.as_str());
    s
}

/// The directory name of a published bundle.
pub open spec fn bundle_dir_text(seq: Sequence, kind: MessageKind) -> Seq<char> {
    padded4(seq.0 as nat) + "-"@ + kind_slug(kind)
}

/// The directory name of a published bundle: its sequence number with
/// four digits, a hyphen and its kind.
pub fn bundle_dir_name(seq: Sequence, kind: MessageKind) -> (s: String)
    ensures
        s@ == bundle_dir_text(seq, kind),
{
    let mut s = padded_sequence(seq.0);
    s.append("-");
    s.append(kind.slug());
    s
}

/// The directory name of a bundle while it is being written.
pub open spec fn temp_bundle_dir_text(kind: MessageKind, seq: Sequence) -> Seq<char> {
    ".tmp-"@ + kind_slug(kind) + "-"@ + decimal(seq.0 as nat)
}

/// The directory name of a bundle while it is being written.
pub fn temp_bundle_dir_name(kind: MessageKind, seq: Sequence) -> (s: String)
    ensures
        s@ == temp_bundle_dir_text(kind, seq),
{
    let mut s = String::from_str(TEMP_BUNDLE_PREFIX);
    s.append(kind.slug());
    s.append("-");
    let d = decimal_text(seq.0);
    s.append(d.as_str());
    s
}

/// The acknowledgement file name of a sequence number.
pub open spec fn ack_file_text(seq: Sequence) -> Seq<char> {
    padded4(seq.0 as nat) + ".ack"@
}

/// The acknowledgement file name of a sequence number.
pub fn ack_file_name(seq: Sequence) -> (s: String)
    ensures
        s@ == ack_file_text(seq),
{
    let mut s = padded_sequence(seq.0);
    s.append(".");
    s.append(ACK_EXTENSION);
    proof {
        reveal_strlit(".");
        reveal_strlit("ack");
        reveal_strlit(".ack");
        assert("."@ + "ack"@ =~= ".ack"@);
        assert(s@ =~= padded4(seq.0 as nat) + ".ack"@);
    }
    s
}

/// The sequence number a bundle directory name starts with: the text
/// before its first hyphen, read as an unsigned integer.
pub open spec fn name_sequence(name: Seq<char>) -> Option<u64> {
    parse_u64_spec(name.take(count_before(name, '-') as int))
}

/// The sequence number a bundle directory name starts with.
pub fn sequence_of_name(name: &str) -> (r: Option<u64>)
    ensures
        r == name_sequence(name@),
{
    let cs = chars_of(name);
    let j = find_char(&cs, 0, '-');
    assert(cs@.skip(0) =~= name@);
    let prefix = string_of_range(&cs, 0, j);
    assert(prefix@ =~= name@.take(count_before(name@, '-') as int));
    parse_u64(prefix.as_str())
}

/// The largest sequence number the names start with, or 0 when none
/// starts with one.
pub open spec fn max_name_sequence(names: Seq<Seq<char>>) -> nat
    decreases names.len(),
{
    if names.len() == 0 {
        0
    } else {
        let m = max_name_sequence(names.drop_last());
        match name_sequence(names.last()) {
            Some(v) => if v > m {
                v as nat
            } else {
                m
            },
            None => m,
        }
    }
}

/// Whether no name starts with the largest `u64`.
pub open spec fn sequences_below_max(names: Seq<Seq<char>>) -> bool {
    forall|i: int|
        0 <= i < names.len() ==> match name_sequence(#[trigger] names[i]) {
            Some(v) => v < u64::MAX,
            None => true,
        }
}

/// The sequence number of the next bundle of a mailbox whose bundle
/// directories have the names `names`: one more than the largest number
/// they start with.
pub fn next_sequence(names: &Vec<String>) -> (r: Sequence)
    requires
        sequences_below_max(strings_view(names@)),
    ensures
        r.0 == max_name_sequence(strings_view(names@)) + 1,
{
    let ghost all = strings_view(names@);
    let mut max: u64 = 0;
    let mut i: usize = 0;
    while i < names.len()
        invariant
            all == strings_view(names@),
            sequences_below_max(all),
            i <= names.len(),
            max == max_name_sequence(all.take(i as int)),
            max < u64::MAX,
        decreases names.len() - i,
    {
        let v = sequence_of_name(names[i].as_str());
        assert(all[i as int] == names@[i as int]@);
        assert(all.take(i + 1).drop_last() =~= all.take(i as int));
        assert(all.take(i + 1).last() == all[i as int]);
        match v {
            Some(x) => {
                if x > max {
                    max = x;
                }
            },
            None => {},
        }
        i = i + 1;
    }
    assert(all.take(names.len() as int) =~= all);
    Sequence(max + 1)
}

/// The first line of `ls` that is not blank, trimmed.
pub open spec fn first_content_line(ls: Seq<Seq<char>>) -> Option<Seq<char>>
    decreases ls.len(),
{
    if ls.len() == 0 {
        None
    } else if trimmed(ls[0]).len() > 0 {
        Some(trimmed(ls[0]))
    } else {
        first_content_line(ls.drop_first())
    }
}

/// The summary of a bundle with body `body` (if it could be read) and
/// kind `kind`: the first non-blank line of the body, trimmed, or else
/// the kind's slug.
pub open spec fn summary_text(body: Option<Seq<char>>, kind: MessageKind) -> Seq<char> {
    match body {
        Some(b) => match first_content_line(lines_of(b)) {
            Some(l) => l,
            None => kind_slug(kind),
        },
        None => kind_slug(kind),
    }
}

/// The summary line of a bundle for compact listings.
pub fn bundle_summary(body: Option<&str>, kind: MessageKind) -> (r: String)
    ensures
        r@ == summary_text(
            match body {
                Some(b) => Some(b@),
                None => None,
            },
            kind,
        ),
{
    match body {
        Some(b) => {
            let lines = split_lines(b);
            let ghost ls = lines@.map_values(|l: String| l@);
            let mut i: usize = 0;
            assert(ls.skip(0) =~= ls);
            while i < lines.len()
                invariant
                    ls == lines@.map_values(|l: String| l@),
                    ls == lines_of(b@),
                    (match body {
                        Some(x) => Some(x@),
                        None => None,
                    }) == Some(b@),
                    i <= lines.len(),
                    first_content_line(ls) == first_content_line(ls.skip(i as int)),
                decreases lines.len() - i,
            {
                let cs = chars_of(lines[i].as_str());
                let t = trim_range(&cs, 0, cs.len());
                assert(cs@.subrange(0, cs@.len() as int) =~= ls[i as int]);
                assert(ls.skip(i as int)[0] == ls[i as int]);
                if t.len() > 0 {
                    assert(first_content_line(ls.skip(i as int)) == Some(trimmed(ls[i as int])));
                    assert(t@ == trimmed(ls[i as int]));
                    assert(summary_text(Some(b@), kind) == trimmed(ls[i as int]));
                    let r = string_from_chars(&t);
                    return r;
                }
                assert(ls.skip(i as int).drop_first() =~= ls.skip(i + 1));
                i = i + 1;
            }
            assert(ls.skip(i as int) =~= Seq::<Seq<char>>::empty());
            String::from_str(kind.slug())
        },
        None => String::from_str(kind.slug()),
    }
}

/// `ls` with the line `e` added at the end unless some line already is
/// `e`.
pub open spec fn with_entry(ls: Seq<Seq<char>>, e: Seq<char>) -> Seq<Seq<char>> {
    if ls.contains(e) {
        ls
    } else {
        ls.push(e)
    }
}

/// The lines of `.multorum/.gitignore` after repair: the existing lines,
/// then each required entry that no line holds yet.
pub open spec fn gitignore_lines(existing: Option<Seq<char>>) -> Seq<Seq<char>> {
    let base = match existing {
        Some(t) => lines_of(t),
        None => Seq::empty(),
    };
    with_entry(with_entry(base, "orchestrator/"@), "tr/"@)
}

/// The required entries that an existing `.multorum/.gitignore` lacked.
pub open spec fn gitignore_added(existing: Option<Seq<char>>) -> Seq<Seq<char>> {
    match existing {
        None => Seq::empty(),
        Some(t) => {
            let base = lines_of(t);
            (if base.contains("orchestrator/"@) {
                Seq::<Seq<char>>::empty()
            } else {
                seq!["orchestrator/"@]
            }) + (if with_entry(base, "orchestrator/"@).contains("tr/"@) {
                Seq::<Seq<char>>::empty()
            } else {
                seq!["tr/"@]
            })
        },
    }
}

/// Whether some line of `lines` holds the text `e`.
fn has_line(lines: &Vec<String>, e: &str) -> (b: bool)
    ensures
        b == lines@.map_values(|l: String| l@).contains(e@),
{
    let ghost ls = lines@.map_values(|l: String| l@);
    let mut i: usize = 0;
    while i < lines.len()
        invariant
            ls == lines@.map_values(|l: String| l@),
            i <= lines.len(),
            forall|j: int| 0 <= j < i ==> ls[j] != e@,
        decreases lines.len() - i,
    {
        if crate::text::text_eq(lines[i].as_str(), e) {
            assert(ls[i as int] == e@);
            return true;
        }
        i = i + 1;
    }
    false
}

/// The warning that repairing `.multorum/.gitignore` gives when required
/// entries were missing: `added missing entries to ...` and the entries,
/// comma-separated; none when nothing was added.
pub fn gitignore_warning(added: &Vec<&'static str>) -> (r: Option<String>)
    ensures
        match r {
            None => added.len() == 0,
            Some(w) => added.len() > 0 && w@ == "added missing entries to `.multorum/.gitignore`: "@
                + join_with(added@.map_values(|a: &str| a@), ", "@),
        },
{
    if added.len() == 0 {
        return None;
    }
    let mut parts: Vec<String> = Vec::new();
    let mut i: usize = 0;
    while i < added.len()
        invariant
            i <= added.len(),
            parts.len() == i,
            forall|j: int| 0 <= j < i ==> #[trigger] parts@[j]@ == added@[j]@,
        decreases added.len() - i,
    {
        let part = String::from_str(added[i]);
        parts.push(part);
        i = i + 1;
    }
    assert(parts@.map_values(|p: String| p@) =~= added@.map_values(|a: &str| a@));
    let mut w = String::from_str("added missing entries to `.multorum/.gitignore`: ");
    w.append(join_strings(&parts, ", ").as_str());
    Some(w)
}

/// The repaired content of `.multorum/.gitignore`, given its current
/// content when the file exists, and the required entries that an
/// existing file lacked.
pub fn update_gitignore(existing: Option<&str>) -> (r: (String, Vec<&'static str>))
    ensures
        r.0@ == join_with(
            gitignore_lines(
                match existing {
                    Some(t) => Some(t@),
                    None => None,
                },
            ),
            "\n"@,
        ) + "\n"@,
        r.1@.map_values(|s: &str| s@) == gitignore_added(
            match existing {
                Some(t) => Some(t@),
                None => None,
            },
        ),
{
    let ghost ex = match existing {
        Some(t) => Some(t@),
        None => None,
    };
    let mut lines: Vec<String> = match existing {
        Some(t) => split_lines(t),
        None => Vec::new(),
    };
    let ghost base = lines@.map_values(|l: String| l@);
    assert(base == match ex {
        Some(t) => lines_of(t),
        None => Seq::<Seq<char>>::empty(),
    });
    let mut added: Vec<&'static str> = Vec::new();
    if !has_line(&lines, ORCHESTRATOR_IGNORE_ENTRY) {
        lines.push(String::from_str(ORCHESTRATOR_IGNORE_ENTRY));
        if existing.is_some() {
            added.push(ORCHESTRATOR_IGNORE_ENTRY);
        }
    }
    assert(lines@.map_values(|l: String| l@) =~= with_entry(base, "orchestrator/"@));
    let ghost mid = lines@.map_values(|l: String| l@);
    if !has_line(&lines, TRANSIENT_IGNORE_ENTRY) {
        lines.push(String::from_str(TRANSIENT_IGNORE_ENTRY));
        if existing.is_some() {
            added.push(TRANSIENT_IGNORE_ENTRY);
        }
    }
    let ghost ls = lines@.map_values(|l: String| l@);
    assert(ls =~= with_entry(mid, "tr/"@));
    assert(ls == gitignore_lines(ex));
    assert(added@.map_values(|s: &str| s@) =~= gitignore_added(ex));
    let mut out = crate::text::join_strings(&lines, "\n");
    out.append("\n");
    (out, added)
}

/// Where the audit record of a merge finds its rationale once the
/// staged bundle sits at `root`: the body file when a body was written,
/// and `artifacts/` joined with the file name of each written artifact.
pub fn rationale_paths(root: &str, body_written: bool, artifact_paths: &Vec<String>) -> (r: (
    Option<String>,
    Vec<String>,
))
    requires
        forall|i: int| 0 <= i < artifact_paths@.len() ==> file_name_of(#[trigger] artifact_paths@[i]@) is Some,
    ensures
        match r.0 {
            Some(b) => body_written && b@ == path_join(root@, "body.md"@),
            None => !body_written,
        },
        r.1@.len() == artifact_paths@.len(),
        forall|i: int|
            0 <= i < artifact_paths@.len() ==> (#[trigger] r.1@[i])@ == path_join(
                path_join(root@, "artifacts"@),
                file_name_of(artifact_paths@[i]@)->0,
            ),
{
    let body = if body_written {
        Some(join_path(root, BODY_FILE_NAME))
    } else {
        None
    };
    let dir = join_path(root, ARTIFACTS_DIR_NAME);
    let mut out: Vec<String> = Vec::new();
    let mut i: usize = 0;
    while i < artifact_paths.len()
        invariant
            i <= artifact_paths@.len(),
            dir@ == path_join(root@, "artifacts"@),
            forall|j: int| 0 <= j < artifact_paths@.len() ==> file_name_of(#[trigger] artifact_paths@[j]@) is Some,
            out@.len() == i,
            forall|j: int|
                0 <= j < i ==> (#[trigger] out@[j])@ == path_join(
                    dir@,
                    file_name_of(artifact_paths@[j]@)->0,
                ),
        decreases artifact_paths@.len() - i,
    {
        let name = match path_file_name(artifact_paths[i].as_str()) {
            Some(n) => n,
            None => {
                assert(file_name_of(artifact_paths@[i as int]@) is Some);
                String::new()
            },
        };
        out.push(join_path(dir.as_str(), name.as_str()));
        i = i + 1;
    }
    (body, out)
}

/// Before a first `c` that follows a run without `c`, `count_before`
/// counts that run.
proof fn lemma_count_before_concat(a: Seq<char>, b: Seq<char>, c: char)
    requires
        forall|i: int| 0 <= i < a.len() ==> a[i] != c,
        b.len() > 0,
        b[0] == c,
    ensures
        count_before(a + b, c) == a.len(),
    decreases a.len(),
{
    if a.len() > 0 {
        assert((a + b).drop_first() =~= a.drop_first() + b);
        lemma_count_before_concat(a.drop_first(), b, c);
    } else {
        assert(a + b =~= b);
    }
}

/// A padded sequence number is zeros followed by the decimal rendering.
proof fn lemma_padded_is_zeros_then_decimal(n: nat)
    ensures
        exists|k: nat| padded4(n) == #[trigger] zeros(k) + decimal(n),
{
    if decimal(n).len() >= 4 {
        assert(zeros(0) + decimal(n) =~= decimal(n));
    } else {
        let k = (4 - decimal(n).len()) as nat;
        assert(padded4(n) =~= zeros(k) + decimal(n));
    }
}

/// The name of a published bundle starts with its sequence number: the
/// number the next-sequence scan reads from the name is the one the
/// bundle was published with.
pub proof fn lemma_bundle_name_sequence(seq: Sequence, kind: MessageKind)
    ensures
        name_sequence(bundle_dir_text(seq, kind)) == Some(seq.0),
{
    reveal_strlit("-");
    let p = padded4(seq.0 as nat);
    lemma_padded_is_zeros_then_decimal(seq.0 as nat);
    let k = choose|k: nat| p == #[trigger] zeros(k) + decimal(seq.0 as nat);
    crate::num::lemma_parse_padded_decimal(k, seq.0);
    crate::num::lemma_decimal_digits(seq.0 as nat);
    let name = bundle_dir_text(seq, kind);
    let rest = "-"@ + kind_slug(kind);
    assert(name =~= p + rest);
    assert forall|i: int| 0 <= i < p.len() implies p[i] != '-' by {
        if i < k {
            assert(p[i] == '0');
        } else {
            assert(p[i] == decimal(seq.0 as nat)[i - k]);
            assert(crate::text::is_digit(decimal(seq.0 as nat)[i - k]));
        }
    }
    lemma_count_before_concat(p, rest, '-');
    assert(name.take(p.len() as int) =~= p);
}

/// No name starts with a number above the largest one.
pub proof fn lemma_max_name_sequence_bounds(names: Seq<Seq<char>>)
    ensures
        forall|i: int|
            0 <= i < names.len() ==> match name_sequence(#[trigger] names[i]) {
                Some(v) => v <= max_name_sequence(names),
                None => true,
            },
    decreases names.len(),
{
    if names.len() > 0 {
        let rest = names.drop_last();
        lemma_max_name_sequence_bounds(rest);
        assert forall|i: int| 0 <= i < names.len() implies match name_sequence(#[trigger] names[i]) {
            Some(v) => v <= max_name_sequence(names),
            None => true,
        } by {
            if i < names.len() - 1 {
                assert(names[i] == rest[i]);
            }
        }
    }
}

/// The next sequence number of a mailbox is fresh: every bundle already
/// there has a smaller number.
pub proof fn lemma_next_sequence_is_fresh(names: Seq<Seq<char>>)
    ensures
        forall|i: int|
            0 <= i < names.len() ==> match name_sequence(#[trigger] names[i]) {
                Some(v) => v < max_name_sequence(names) + 1,
                None => true,
            },
{
    lemma_max_name_sequence_bounds(names);
}

/// Publishing the bundle with the next sequence number makes that number
/// the largest, so the mailbox's next number is one more: numbers grow by
/// one with each published bundle.
pub proof fn lemma_sequence_advances(names: Seq<Seq<char>>, kind: MessageKind)
    requires
        max_name_sequence(names) + 1 <= u64::MAX,
    ensures
        max_name_sequence(
            names.push(bundle_dir_text(Sequence((max_name_sequence(names) + 1) as u64), kind)),
        ) == max_name_sequence(names) + 1,
{
    let m = max_name_sequence(names);
    let x = bundle_dir_text(Sequence((m + 1) as u64), kind);
    lemma_bundle_name_sequence(Sequence((m + 1) as u64), kind);
    assert(names.push(x).drop_last() =~= names);
    assert(names.push(x).last() == x);
}

} // verus!
