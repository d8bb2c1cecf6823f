//! Units of work: channel-like things discovered by enumeration and
//! consumed by the orchestrator.

use vstd::prelude::*;

verus! {

/// The kind of a channel-like unit.  Only plain text channels and
/// public/private threads are eligible for message extraction; every other
/// kind (voice, category, forum, ...) maps to `Other` and is skipped.
#[derive(Clone, Copy, PartialEq, Eq, Structural, Debug)]
pub enum ChannelKind {
    Text,
    PublicThread,
    PrivateThread,
    Other,
}

/// One unit of work: a channel or thread awaiting message extraction.
#[derive(Clone, Copy, Debug)]
pub struct WorkItem {
    /// Stable identifier of the channel or thread.
    pub id: u64,
    /// What kind of unit this is.
    pub kind: ChannelKind,
    /// The parent channel, for threads that have one.
    pub parent: Option<u64>,
}

/// One fetched message: a stable identifier usable as a pagination
/// cursor, and the message's serialized record, opaque to this library.
#[derive(Debug)]
pub struct MessageRecord {
    /// Stable identifier; identifiers order messages from older to newer.
    pub id: u64,
    /// The message's serialized record, written verbatim to output.
    pub payload: Vec<u8>,
}

/// An item is eligible exactly when messages can be extracted from it.
pub open spec fn eligible(kind: ChannelKind) -> bool {
    kind is Text || kind is PublicThread || kind is PrivateThread
}

impl WorkItem {
    /// Decides eligibility of this item's kind.
    pub fn is_eligible(&self) -> (r: bool)
        ensures
            r == eligible(self.kind),
    {
        match self.kind {
            ChannelKind::Text => true,
            ChannelKind::PublicThread => true,
            ChannelKind::PrivateThread => true,
            ChannelKind::Other => false,
        }
    }
}

} // verus!
