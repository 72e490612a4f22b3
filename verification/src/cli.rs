//! Command-line options shared by the commands that publish mailbox
//! bundles, and their conversion into runtime values.

use vstd::prelude::*;

use crate::bundle::BundlePayload;
use crate::runtime::mailbox::{ReplyReference, Sequence};

verus! {

/// Payload options of a command that publishes a bundle. The body text
/// and the body path are mutually exclusive.
#[derive(Debug, Clone)]
pub struct BundlePayloadArgs {
    /// Inline Markdown body text.
    pub body_text: Option<String>,
    /// Existing Markdown file to move into the bundle's `body.md`.
    pub body_path: Option<String>,
    /// Files to move under the bundle's `artifacts/` directory.
    pub artifacts: Vec<String>,
}

impl BundlePayloadArgs {
    /// The runtime payload these options describe.
    pub fn into_runtime(self) -> (p: BundlePayload)
        ensures
            p.body_text == self.body_text,
            p.body_path == self.body_path,
            p.artifacts == self.artifacts,
    {
        BundlePayload {
            body_text: self.body_text,
            body_path: self.body_path,
            artifacts: self.artifacts,
        }
    }
}

/// Reply option of a bundle that answers an earlier message.
#[derive(Debug, Clone)]
pub struct ReplyReferenceArgs {
    /// Sequence number of the message this bundle answers.
    pub in_reply_to: Option<u64>,
}

impl ReplyReferenceArgs {
    /// The runtime reply reference these options describe.
    pub fn into_runtime(self) -> (r: ReplyReference)
        ensures
            r.in_reply_to == (match self.in_reply_to {
                Some(n) => Some(Sequence(n)),
                None => None,
            }),
    {
        ReplyReference {
            in_reply_to: match self.in_reply_to {
                Some(n) => Some(Sequence(n)),
                None => None,
            },
        }
    }
}

} // verus!
