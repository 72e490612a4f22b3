//! Mailbox protocol types for orchestrator-worker communication.
//!
//! Bundles are directories with an `envelope.toml` that carries routing
//! metadata. These types describe the envelope, message classification,
//! sequencing, acknowledgement and routing direction.

use vstd::prelude::*;

use super::commit::CanonicalCommitHash;
use super::state::{MailboxMessageView, WorkerState};
use super::timestamp::Timestamp;
use super::worker_id::WorkerId;
use crate::num::{decimal, decimal_text, parse_u64, parse_u64_spec};
use crate::perspective::name::PerspectiveName;
use crate::text::{chars_of, string_of_range};

verus! {

/// Monotonic per-mailbox sequence number, local to one mailbox
/// direction of one worker.
#[derive(Debug, Clone, Copy, PartialEq, Eq, Hash, Structural)]
pub struct Sequence(pub u64);

/// Kind of message bundle recognized by the mailbox protocol.
#[derive(Debug, Clone, Copy, PartialEq, Eq, Hash, Structural)]
pub enum MessageKind {
    /// Initial task assignment published during worker creation.
    Task,
    /// Advisory orchestrator context for an active worker.
    Hint,
    /// Worker blocker report.
    Report,
    /// Orchestrator response to a blocker.
    Resolve,
    /// Orchestrator revision request for a committed worker.
    Revise,
    /// Worker submission of a completed commit.
    Commit,
}

/// The storage slug of a message kind.
pub open spec fn kind_slug(k: MessageKind) -> Seq<char> {
    match k {
        MessageKind::Task => "task"@,
        MessageKind::Hint => "hint"@,
        MessageKind::Report => "report"@,
        MessageKind::Resolve => "resolve"@,
        MessageKind::Revise => "revise"@,
        MessageKind::Commit => "commit"@,
    }
}

/// The worker state an orchestrator-authored inbox bundle of kind `k`
/// requires: a hint goes to an active worker, a resolve to a blocked one,
/// a revise to a committed one; other kinds are not follow-ups.
pub open spec fn inbox_required_state(k: MessageKind) -> Option<WorkerState> {
    match k {
        MessageKind::Hint => Some(WorkerState::Active),
        MessageKind::Resolve => Some(WorkerState::Blocked),
        MessageKind::Revise => Some(WorkerState::Committed),
        _ => None,
    }
}

/// Which follow-up may go to which worker: a hint only to an `ACTIVE`
/// worker, a resolve only to a `BLOCKED` one, a revise only to a
/// `COMMITTED` one; tasks, reports and commits are not follow-ups and
/// require no state.
pub proof fn law_follow_up_targets(k: MessageKind, s: WorkerState)
    ensures
        k is Hint ==> (inbox_required_state(k) == Some(s) <==> s is Active),
        k is Resolve ==> (inbox_required_state(k) == Some(s) <==> s is Blocked),
        k is Revise ==> (inbox_required_state(k) == Some(s) <==> s is Committed),
        (k is Task || k is Report || k is Commit) ==> inbox_required_state(k) is None,
{
}

impl MessageKind {
    /// The storage slug for bundle directory names.
    pub fn slug(self) -> (s: &'static str)
        ensures
            s@ == kind_slug(self),
    {
        match self {
            MessageKind::Task => "task",
            MessageKind::Hint => "hint",
            MessageKind::Report => "report",
            MessageKind::Resolve => "resolve",
            MessageKind::Revise => "revise",
            MessageKind::Commit => "commit",
        }
    }

    /// The worker state required before the orchestrator may publish a
    /// follow-up bundle of this kind to a worker inbox.
    pub fn required_worker_state_for_inbox_publication(self) -> (r: Option<WorkerState>)
        ensures
            r == inbox_required_state(self),
            self is Hint ==> r == Some(WorkerState::Active),
            self is Resolve ==> r == Some(WorkerState::Blocked),
            self is Revise ==> r == Some(WorkerState::Committed),
            self is Task || self is Report || self is Commit ==> r is None,
    {
        match self {
            MessageKind::Hint => Some(WorkerState::Active),
            MessageKind::Resolve => Some(WorkerState::Blocked),
            MessageKind::Revise => Some(WorkerState::Committed),
            _ => None,
        }
    }
}

/// Stable reference to a published mailbox bundle.
#[derive(Debug, Clone, PartialEq, Eq, Hash)]
pub struct MessageRef {
    /// Worker that owns the mailbox where the bundle was published.
    pub worker_id: WorkerId,
    /// Kind of published bundle.
    pub kind: MessageKind,
    /// Monotonic mailbox-local sequence number.
    pub sequence: Sequence,
}

/// Reply metadata for bundles that answer an earlier message.
#[derive(Debug, Clone, PartialEq, Eq)]
pub struct ReplyReference {
    /// Sequence number of the message this bundle answers.
    pub in_reply_to: Option<Sequence>,
}

impl Default for ReplyReference {
    fn default() -> (r: Self)
        ensures
            r.in_reply_to is None,
    {
        ReplyReference { in_reply_to: None }
    }
}

/// Mailbox protocol version tag, written as `multorum/v{n}`.
#[derive(Debug, Clone, Copy, PartialEq, Eq, Hash, Structural)]
pub struct ProtocolVersion(pub u32);

/// Envelope persisted in `envelope.toml` inside a mailbox bundle.
#[derive(Debug, Clone, PartialEq, Eq)]
pub struct BundleEnvelope {
    /// Mailbox protocol version.
    pub protocol: ProtocolVersion,
    /// Worker identity.
    pub worker_id: WorkerId,
    /// Perspective instantiated by the worker.
    pub perspective: PerspectiveName,
    /// Kind of bundle.
    pub kind: MessageKind,
    /// Monotonic mailbox-local sequence number.
    pub sequence: Sequence,
    /// Timestamp recorded by the publisher.
    pub created_at: Timestamp,
    /// Optional answered message sequence number.
    pub in_reply_to: Option<Sequence>,
    /// Optional canonical commit hash relevant to the message.
    pub head_commit: Option<CanonicalCommitHash>,
}

/// Result of publishing a mailbox bundle.
#[derive(Debug, Clone, PartialEq, Eq)]
pub struct PublishedBundle {
    /// Stable reference to the published bundle.
    pub message: MessageRef,
    /// Filesystem path to the published bundle directory.
    pub bundle_path: String,
}

/// Direction of a mailbox relative to the worker.
#[derive(Debug, Clone, Copy, PartialEq, Eq, Hash, Structural)]
pub enum MailboxDirection {
    /// Messages authored by the orchestrator and consumed by the worker.
    Inbox,
    /// Messages authored by the worker and consumed by the orchestrator.
    Outbox,
}

/// Acknowledgement reference for a consumed mailbox bundle.
#[derive(Debug, Clone, PartialEq, Eq, Hash)]
pub struct AckRef {
    /// Message being acknowledged.
    pub message: MessageRef,
}

/// Filter for mailbox message listing: an inclusive range with optional
/// bounds, or an exact sequence number.
#[derive(Debug, Clone, Copy, PartialEq, Eq, Structural)]
pub enum SequenceFilter {
    /// Messages whose sequence lies within `[from, to]`; a missing bound
    /// is unbounded.
    Range { from: Option<Sequence>, to: Option<Sequence> },
    /// Exactly the message with this sequence number.
    Exact(Sequence),
}

/// Whether `seq` passes the filter `f`.
pub open spec fn filter_matches(f: SequenceFilter, seq: Sequence) -> bool {
    match f {
        SequenceFilter::Range { from, to } => {
            &&& (from matches Some(lo) ==> lo.0 <= seq.0)
            &&& (to matches Some(hi) ==> seq.0 <= hi.0)
        },
        SequenceFilter::Exact(target) => seq.0 == target.0,
    }
}

impl Default for SequenceFilter {
    fn default() -> (f: Self)
        ensures
            f == (SequenceFilter::Range { from: None, to: None }),
    {
        SequenceFilter::Range { from: None, to: None }
    }
}

impl SequenceFilter {
    /// Test whether a sequence passes this filter.
    pub fn matches(self, seq: Sequence) -> (b: bool)
        ensures
            b == filter_matches(self, seq),
    {
        match self {
            SequenceFilter::Range { from, to } => {
                if let Some(lo) = from {
                    if seq.0 < lo.0 {
                        return false;
                    }
                }
                if let Some(hi) = to {
                    if seq.0 > hi.0 {
                        return false;
                    }
                }
                true
            },
            SequenceFilter::Exact(target) => seq.0 == target.0,
        }
    }

    /// The filter for the messages after `after`: every message when it
    /// is `None`, else those with a greater sequence number.
    pub fn after(after: Option<Sequence>) -> (f: SequenceFilter)
        ensures
            forall|s: Sequence|
                #[trigger] filter_matches(f, s) <==> (after matches Some(a) ==> a.0 < s.0),
    {
        match after {
            None => SequenceFilter::Range { from: None, to: None },
            Some(a) => {
                if a.0 < u64::MAX {
                    SequenceFilter::Range { from: Some(Sequence(a.0 + 1)), to: None }
                } else {
                    SequenceFilter::Range { from: Some(Sequence(1)), to: Some(Sequence(0)) }
                }
            },
        }
    }
}

/// Whether a listed message passes `filter`.
pub open spec fn passes(filter: SequenceFilter) -> spec_fn(MailboxMessageView) -> bool {
    |m: MailboxMessageView| filter_matches(filter, m.sequence)
}

/// Whether a listed message has the sequence number `k`.
pub open spec fn numbered(k: u64) -> spec_fn(MailboxMessageView) -> bool {
    |m: MailboxMessageView| m.sequence.0 == k
}

/// Whether the messages of `s` come in order of sequence number.
pub open spec fn by_sequence(s: Seq<MailboxMessageView>) -> bool {
    forall|i: int, j: int|
        0 <= i < j < s.len() ==> (#[trigger] s[i]).sequence.0 <= (#[trigger] s[j]).sequence.0
}

/// The messages of one mailbox that pass `filter`, in order of sequence
/// number; those with one number keep the order they were met in.
pub fn select_messages(messages: Vec<MailboxMessageView>, filter: SequenceFilter) -> (r: Vec<
    MailboxMessageView,
>)
    ensures
        r@.to_multiset() == messages@.filter(passes(filter)).to_multiset(),
        by_sequence(r@),
        forall|k: u64|
            #[trigger] r@.filter(numbered(k)) == messages@.filter(passes(filter)).filter(numbered(k)),
{
    broadcast use vstd::seq_lib::group_to_multiset_ensures;

    let ghost orig = messages@;
    assert(orig.len() == messages.len());
    let mut rest = messages;
    let mut r: Vec<MailboxMessageView> = Vec::new();
    let mut taken: usize = 0;
    while rest.len() > 0
        invariant
            rest@ == orig.skip(taken as int),
            taken <= orig.len(),
            orig.len() <= usize::MAX,
            r@.to_multiset() == orig.take(taken as int).filter(passes(filter)).to_multiset(),
            by_sequence(r@),
            forall|k: u64|
                #[trigger] r@.filter(numbered(k)) == orig.take(taken as int).filter(
                    passes(filter),
                ).filter(numbered(k)),
        decreases rest.len(),
    {
        let ghost done = orig.take(taken as int);
        let x = rest.remove(0);
        proof {
            assert(x == orig[taken as int]);
            orig.lemma_take_succ_push(taken as int);
            done.lemma_filter_push(x, passes(filter));
            assert(rest@ =~= orig.skip(taken + 1));
        }
        if filter.matches(x.sequence) {
            let mut pos: usize = 0;
            while pos < r.len() && r[pos].sequence.0 <= x.sequence.0
                invariant
                    pos <= r.len(),
                    forall|j: int| 0 <= j < pos ==> (#[trigger] r@[j]).sequence.0 <= x.sequence.0,
                decreases r.len() - pos,
            {
                pos = pos + 1;
            }
            let ghost before = r@;
            r.insert(pos, x);
            proof {
                vstd::seq_lib::to_multiset_insert(before, pos as int, x);
                vstd::seq_lib::to_multiset_build(done.filter(passes(filter)), x);
                let head = before.take(pos as int);
                let tail = before.skip(pos as int);
                assert(r@ =~= head + seq![x] + tail);
                assert(before =~= head + tail);
                assert forall|k: u64| #[trigger] r@.filter(numbered(k)) == done.push(x).filter(
                    passes(filter),
                ).filter(numbered(k)) by {
                    let f = numbered(k);
                    Seq::filter_distributes_over_add(head + seq![x], tail, f);
                    Seq::filter_distributes_over_add(head, seq![x], f);
                    Seq::filter_distributes_over_add(head, tail, f);
                    done.filter(passes(filter)).lemma_filter_push(x, f);
                    seq![x].lemma_filter_push(x, f);
                    assert(seq![x] =~= Seq::<MailboxMessageView>::empty().push(x));
                    Seq::<MailboxMessageView>::empty().lemma_filter_push(x, f);
                    assert(Seq::<MailboxMessageView>::empty().filter(f) =~= Seq::<MailboxMessageView>::empty()) by {
                        Seq::<MailboxMessageView>::empty().lemma_all_neg_filter_empty(f);
                    }
                    if x.sequence.0 == k {
                        assert(tail.all(|m: MailboxMessageView| !f(m))) by {
                            assert forall|i: int| 0 <= i < tail.len() implies !f(#[trigger] tail[i]) by {
                                assert(tail[i] == before[pos + i]);
                                assert(before[pos as int].sequence.0 > x.sequence.0);
                                if i > 0 {
                                    assert(before[pos as int].sequence.0 <= before[pos + i].sequence.0);
                                }
                            }
                        }
                        tail.lemma_all_neg_filter_empty(f);
                        assert(tail.filter(f) =~= Seq::<MailboxMessageView>::empty());
                        assert(r@.filter(f) =~= before.filter(f).push(x));
                    } else {
                        assert(r@.filter(f) =~= before.filter(f));
                    }
                }
                assert forall|a: int, b: int| 0 <= a < b < r@.len() implies (
                #[trigger] r@[a]).sequence.0 <= (#[trigger] r@[b]).sequence.0 by {
                    if b < pos {
                        assert(r@[a] == before[a] && r@[b] == before[b]);
                    } else if b == pos {
                        assert(r@[a] == before[a]);
                    } else if a == pos {
                        assert(r@[b] == before[b - 1]);
                        assert(before[pos as int].sequence.0 > x.sequence.0);
                        if b - 1 > pos {
                            assert(before[pos as int].sequence.0 <= before[b - 1].sequence.0);
                        }
                    } else if a < pos {
                        assert(r@[a] == before[a] && r@[b] == before[b - 1]);
                    } else {
                        assert(r@[a] == before[a - 1] && r@[b] == before[b - 1]);
                    }
                }
            }
        }
        taken = taken + 1;
    }
    assert(orig.take(taken as int) =~= orig);
    r
}

/// Why a protocol version text was refused.
#[derive(Debug, Clone, PartialEq, Eq)]
pub enum ProtocolVersionError {
    /// The text does not start with `multorum/v`.
    MissingPrefix,
    /// What follows the prefix is not a non-negative integer that fits
    /// in 32 bits.
    InvalidNumber { text: String },
}

/// The prefix of a serialized protocol version.
pub const PROTOCOL_VERSION_PREFIX: &'static str = "multorum/v";

/// The text of protocol version `n`.
pub open spec fn protocol_text(n: u32) -> Seq<char> {
    "multorum/v"@ + decimal(n as nat)
}

/// `s` read as an unsigned 32-bit integer, as `str::parse::<u32>` reads
/// it.
pub open spec fn parse_u32_spec(s: Seq<char>) -> Option<u32> {
    match parse_u64_spec(s) {
        Some(v) => if v <= u32::MAX {
            Some(v as u32)
        } else {
            None
        },
        None => None,
    }
}

/// The outcome of reading the text `s` as a protocol version.
pub open spec fn protocol_parse_spec(s: Seq<char>) -> Result<u32, Seq<char>> {
    if s.len() >= 10 && s.take(10) == "multorum/v"@ {
        match parse_u32_spec(s.skip(10)) {
            Some(n) => Ok(n),
            None => Err(s.skip(10)),
        }
    } else {
        Err(Seq::empty())
    }
}

impl ProtocolVersion {
    /// The serialized text, `multorum/v` followed by the number.
    pub fn to_text(&self) -> (r: String)
        ensures
            r@ == protocol_text(self.0),
    {
        let mut s = String::from_str(PROTOCOL_VERSION_PREFIX);
        let d = decimal_text(self.0 as u64);
        s.append(d.as_str());
        s
    }

    /// Read a serialized protocol version.
    pub fn parse(s: &str) -> (r: Result<Self, ProtocolVersionError>)
        ensures
            match r {
                Ok(v) => protocol_parse_spec(s@) == Ok::<u32, Seq<char>>(v.0),
                Err(ProtocolVersionError::MissingPrefix) => !(s@.len() >= 10 && s@.take(10)
                    == "multorum/v"@),
                Err(ProtocolVersionError::InvalidNumber { text }) => s@.len() >= 10 && s@.take(10)
                    == "multorum/v"@ && protocol_parse_spec(s@) == Err::<u32, Seq<char>>(text@),
            },
    {
        proof {
            reveal_strlit("multorum/v");
        }
        let cs = chars_of(s);
        let p = chars_of(PROTOCOL_VERSION_PREFIX);
        assert(p@ == "multorum/v"@);
        assert(p@.len() == 10);
        if cs.len() < 10 {
            return Err(ProtocolVersionError::MissingPrefix);
        }
        let mut i: usize = 0;
        while i < 10
            invariant
                i <= 10,
                cs@ == s@,
                p@ == "multorum/v"@,
                p@.len() == 10,
                cs@.len() >= 10,
                forall|j: int| 0 <= j < i ==> cs@[j] == p@[j],
            decreases 10 - i,
        {
            if cs[i] != p[i] {
                assert(s@.take(10)[i as int] != "multorum/v"@[i as int]);
                return Err(ProtocolVersionError::MissingPrefix);
            }
            i = i + 1;
        }
        assert(s@.take(10) =~= "multorum/v"@);
        let rest = string_of_range(&cs, 10, cs.len());
        assert(rest@ =~= s@.skip(10));
        match parse_u64(rest.as_str()) {
            Some(v) => {
                if v <= 4294967295u64 {
                    Ok(ProtocolVersion(v as u32))
                } else {
                    Err(ProtocolVersionError::InvalidNumber { text: rest })
                }
            },
            None => Err(ProtocolVersionError::InvalidNumber { text: rest }),
        }
    }
}

/// Reading the text of a protocol version gives the version back.
pub proof fn lemma_protocol_round_trip(n: u32)
    ensures
        protocol_parse_spec(protocol_text(n)) == Ok::<u32, Seq<char>>(n),
{
    reveal_strlit("multorum/v");
    let t = protocol_text(n);
    assert(t.take(10) =~= "multorum/v"@);
    assert(t.skip(10) =~= decimal(n as nat));
    crate::num::lemma_parse_padded_decimal(0, n as u64);
    assert(crate::num::zeros(0) + decimal(n as nat) =~= decimal(n as nat));
}

} // verus!
