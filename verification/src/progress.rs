//! The progress record: the single durable signal of how far a run got.

use vstd::prelude::*;

verus! {

/// The checkpoint record.  It is the only durable source of truth for
/// resumption: `completed_channels` holds every channel whose output file
/// is a complete array, `current_channel` the one channel whose output is
/// open and possibly partial, and `last_seen_message_id` the cursor (the
/// oldest message already written) within that channel.
#[derive(Debug)]
pub struct ProgressRecord {
    /// Identifier of the guild this record describes.
    pub guild_id: u64,
    /// The channel currently in flight, if any.
    pub current_channel: Option<u64>,
    /// Cursor within `current_channel`: the oldest message fetched so far,
    /// absent while no page has been fetched yet for this channel.
    pub last_seen_message_id: Option<u64>,
    /// Channels whose extraction is finished.
    pub completed_channels: Vec<u64>,
}

impl ProgressRecord {
    /// The set of completed channel identifiers.
    pub open spec fn completed_set(self) -> Set<u64> {
        self.completed_channels@.to_set()
    }

    /// What a record looks like before any work was done for `guild`.
    pub open spec fn is_fresh_for(self, guild: u64) -> bool {
        &&& self.guild_id == guild
        &&& self.current_channel is None
        &&& self.last_seen_message_id is None
        &&& self.completed_channels@ == Seq::<u64>::empty()
    }

    /// Structural invariant: no channel is recorded complete twice, the
    /// in-flight channel is never also complete, and a cursor is only
    /// meaningful while some channel is in flight.
    pub open spec fn wf(self) -> bool {
        &&& self.completed_channels@.no_duplicates()
        &&& (self.current_channel matches Some(c) ==> !self.completed_set().contains(c))
        &&& (self.last_seen_message_id is Some ==> self.current_channel is Some)
    }

    /// A fresh record for a run with no prior checkpoint.
    pub fn new(guild_id: u64) -> (r: ProgressRecord)
        ensures
            r.guild_id == guild_id,
            r.current_channel is None,
            r.last_seen_message_id is None,
            r.completed_set() == Set::<u64>::empty(),
            r.completed_channels@ == Seq::<u64>::empty(),
            r.is_fresh_for(guild_id),
            r.wf(),
    {
        let r = ProgressRecord {
            guild_id,
            current_channel: None,
            last_seen_message_id: None,
            completed_channels: Vec::new(),
        };
        proof {
            assert(r.completed_set() =~= Set::<u64>::empty());
        }
        r
    }

    /// Whether `id` is already recorded as completed.
    pub fn is_completed(&self, id: u64) -> (r: bool)
        ensures
            r == self.completed_set().contains(id),
    {
        let n = self.completed_channels.len();
        let mut i: usize = 0;
        while i < n
            invariant
                0 <= i <= n,
                n == self.completed_channels@.len(),
                forall|j: int| 0 <= j < i ==> self.completed_channels@[j] != id,
            decreases n - i,
        {
            if self.completed_channels[i] == id {
                proof {
                    assert(self.completed_channels@.contains(id));
                }
                return true;
            }
            i = i + 1;
        }
        proof {
            assert(!self.completed_channels@.contains(id));
        }
        false
    }

    /// Runtime check of the structural invariant, for records read back
    /// from storage.
    pub fn validate(&self) -> (r: bool)
        ensures
            r == self.wf(),
    {
        let n = self.completed_channels.len();
        let mut i: usize = 0;
        while i < n
            invariant
                0 <= i <= n,
                n == self.completed_channels@.len(),
                forall|j: int, k: int|
                    0 <= j < k < i ==> self.completed_channels@[j] != self.completed_channels@[k],
            decreases n - i,
        {
            let mut j: usize = 0;
            while j < i
                invariant
                    0 <= j <= i < n,
                    n == self.completed_channels@.len(),
                    forall|k: int| 0 <= k < j ==> self.completed_channels@[k] != self.completed_channels@[i as int],
                decreases i - j,
            {
                if self.completed_channels[j] == self.completed_channels[i] {
                    proof {
                        assert(!self.completed_channels@.no_duplicates());
                    }
                    return false;
                }
                j = j + 1;
            }
            i = i + 1;
        }
        assert(self.completed_channels@.no_duplicates());
        let cur_ok = match self.current_channel {
            Some(c) => !self.is_completed(c),
            None => true,
        };
        let cursor_ok = match self.last_seen_message_id {
            Some(_) => self.current_channel.is_some(),
            None => true,
        };
        cur_ok && cursor_ok
    }

    /// An exact copy, for handing a snapshot of the record outward.
    pub fn snapshot(&self) -> (r: ProgressRecord)
        ensures
            r.guild_id == self.guild_id,
            r.current_channel == self.current_channel,
            r.last_seen_message_id == self.last_seen_message_id,
            r.completed_channels@ == self.completed_channels@,
    {
        let n = self.completed_channels.len();
        let mut done: Vec<u64> = Vec::new();
        let mut i: usize = 0;
        while i < n
            invariant
                0 <= i <= n,
                n == self.completed_channels@.len(),
                done@ == self.completed_channels@.subrange(0, i as int),
            decreases n - i,
        {
            done.push(self.completed_channels[i]);
            i = i + 1;
        }
        proof {
            assert(done@ =~= self.completed_channels@);
        }
        ProgressRecord {
            guild_id: self.guild_id,
            current_channel: self.current_channel,
            last_seen_message_id: self.last_seen_message_id,
            completed_channels: done,
        }
    }

    /// Make `id` the in-flight channel and discard any cursor: the cursor
    /// is meaningful only relative to the channel it was saved for.
    pub fn begin_channel(&mut self, id: u64)
        requires
            old(self).wf(),
            !old(self).completed_set().contains(id),
        ensures
            final(self).guild_id == old(self).guild_id,
            final(self).current_channel == Some(id),
            final(self).last_seen_message_id is None,
            final(self).completed_channels@ == old(self).completed_channels@,
            final(self).wf(),
    {
        self.current_channel = Some(id);
        self.last_seen_message_id = None;
    }

    /// Advance the cursor to the oldest message just written.
    pub fn advance_cursor(&mut self, message_id: u64)
        requires
            old(self).wf(),
            old(self).current_channel is Some,
        ensures
            final(self).guild_id == old(self).guild_id,
            final(self).current_channel == old(self).current_channel,
            final(self).last_seen_message_id == Some(message_id),
            final(self).completed_channels@ == old(self).completed_channels@,
            final(self).wf(),
    {
        self.last_seen_message_id = Some(message_id);
    }

    /// Record the in-flight channel as completed and clear the in-flight
    /// state together with its cursor.
    pub fn complete_current(&mut self) -> (done: u64)
        requires
            old(self).wf(),
            old(self).current_channel is Some,
        ensures
            done == old(self).current_channel->0,
            final(self).guild_id == old(self).guild_id,
            final(self).current_channel is None,
            final(self).last_seen_message_id is None,
            final(self).completed_channels@ == old(self).completed_channels@.push(done),
            final(self).completed_set() == old(self).completed_set().insert(done),
            final(self).wf(),
    {
        let done = match self.current_channel {
            Some(c) => c,
            None => 0,  // unreachable under the precondition
        };
        self.completed_channels.push(done);
        self.current_channel = None;
        self.last_seen_message_id = None;
        proof {
            lemma_push_to_set(old(self).completed_channels@, done);
        }
        done
    }
}

/// Field-for-field agreement of two records, up to the allocation of the
/// completed list.
pub open spec fn same_record(a: ProgressRecord, b: ProgressRecord) -> bool {
    &&& a.guild_id == b.guild_id
    &&& a.current_channel == b.current_channel
    &&& a.last_seen_message_id == b.last_seen_message_id
    &&& a.completed_channels@ == b.completed_channels@
}

/// Pushing an element onto a sequence inserts it into the sequence's set.
pub proof fn lemma_push_to_set(s: Seq<u64>, x: u64)
    ensures
        s.push(x).to_set() == s.to_set().insert(x),
{
    assert forall|e: u64| #[trigger] s.push(x).contains(e) implies s.to_set().insert(x).contains(
        e,
    ) by {
        let i = choose|i: int| 0 <= i < s.push(x).len() && s.push(x)[i] == e;
        if i < s.len() {
            assert(s[i] == e);
            assert(s.contains(e));
        } else {
            assert(e == x);
        }
    }
    assert forall|e: u64| s.to_set().insert(x).contains(e) implies #[trigger] s.push(x).contains(
        e,
    ) by {
        if e == x {
            assert(s.push(x)[s.len() as int] == e);
        } else {
            let i = choose|i: int| 0 <= i < s.len() && s[i] == e;
            assert(s.push(x)[i] == e);
        }
    }
    assert(s.push(x).to_set() =~= s.to_set().insert(x));
}

/// Reconcile a loaded checkpoint with the guild requested for this run.
///
/// A missing record means "no prior run" and yields a fresh record.  A
/// record for a different guild is a fatal configuration error: the run
/// must not scrape into the wrong progress record.  A record for the right
/// guild that fails its structural invariant is treated as corrupt, hence
/// also as "no prior run".
pub fn reconcile(requested_guild: u64, loaded: Option<ProgressRecord>) -> (r: Result<
    ProgressRecord,
    crate::FatalError,
>)
    ensures
        match r {
            Ok(p) => {
                &&& p.wf()
                &&& p.guild_id == requested_guild
                &&& match loaded {
                    Some(l) => {
                        &&& l.guild_id == requested_guild
                        &&& if l.wf() {
                            p == l
                        } else {
                            p.is_fresh_for(requested_guild)
                        }
                    },
                    None => p.is_fresh_for(requested_guild),
                }
            },
            Err(e) => {
                &&& e is GuildMismatch
                &&& loaded matches Some(l) && l.guild_id != requested_guild
            },
        },
{
    match loaded {
        None => Ok(ProgressRecord::new(requested_guild)),
        Some(l) => {
            if l.guild_id != requested_guild {
                Err(crate::FatalError::GuildMismatch)
            } else if l.validate() {
                Ok(l)
            } else {
                Ok(ProgressRecord::new(requested_guild))
            }
        },
    }
}

} // verus!
