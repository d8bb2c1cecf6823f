//! The traversal orchestrator: a state machine that decides, one step at
//! a time, which outside effect to perform next, and that keeps the
//! progress record truthful across those effects.
//!
//! The engine performs no I/O itself.  Each transition returns a list of
//! [`Action`]s for the caller to perform, in order; the caller then
//! reports the outcome of the one requested fetch back through the typed
//! handler for it.  The checkpoint snapshots handed out in
//! `Action::SaveCheckpoint` always describe the output state reached by
//! the actions before them, never ahead of it.

use vstd::prelude::*;
use crate::ErrorKind;
use crate::FatalError;
use crate::framing;
use crate::framing::array_body;
use crate::framing::array_encoding;
use crate::framing::batch_encoding;
use crate::framing::payload_views;
use crate::progress::ProgressRecord;
use crate::progress::reconcile;
use crate::progress::same_record;
use crate::work::ChannelKind;
use crate::work::MessageRecord;
use crate::work::WorkItem;
use crate::work::eligible;

verus! {

/// Fixed page size of the message pager: a page shorter than this —
/// including an empty one — signals exhaustion of a channel's history.
pub const PAGE_SIZE: usize = 100;

/// Where the engine stands, and which outcome it is waiting for.
#[derive(Clone, Copy, PartialEq, Eq, Structural, Debug)]
pub enum Phase {
    /// Created; `start` has not run yet.
    Starting,
    /// Waiting for the one-time enumeration of top-level channels and
    /// guild-wide active threads.
    Enumerating,
    /// Ready to take the next item off the work list.
    Selecting,
    /// Waiting for the archived threads of the named text channel.
    Discovering(u64),
    /// Waiting for one page of messages of the named channel.
    Paging(u64),
    /// The work list drained and the checkpoint was deleted: terminal
    /// success.
    Finished,
    /// A page fetch of the named channel failed: the run ends here, the
    /// checkpoint still names that channel, and a later run resumes it
    /// from its saved cursor.
    Stalled(u64, ErrorKind),
}

/// Why a popped work item was passed over.
#[derive(Clone, Copy, PartialEq, Eq, Structural, Debug)]
pub enum SkipReason {
    /// The item's kind carries no extractable messages.
    Ineligible,
    /// The item is already recorded in the completed set.
    AlreadyCompleted,
}

/// One outside effect the caller must perform, in list order.
#[derive(Debug)]
pub enum Action {
    /// Durably save this snapshot of the progress record.
    SaveCheckpoint(ProgressRecord),
    /// Fetch the guild's top-level channels and active threads.
    Enumerate,
    /// Fetch the archived threads (public and private) of this channel.
    DiscoverThreads(u64),
    /// Write this channel's metadata file, exactly once, failing loudly
    /// if it already exists.
    WriteMeta(u64),
    /// Create this channel's messages file — failing loudly if it already
    /// exists — and write the given bytes to it.
    CreateOutput(u64, Vec<u8>),
    /// Reopen this channel's existing messages file for appending.
    ReopenOutput(u64),
    /// Append the given bytes to this channel's messages file.
    AppendOutput(u64, Vec<u8>),
    /// Append the given closing bytes to this channel's messages file and
    /// close it.
    CloseOutput(u64, Vec<u8>),
    /// Fetch one page of up to `PAGE_SIZE` messages of this channel,
    /// strictly older than the cursor when one is given, newest first.
    FetchPage(u64, Option<u64>),
    /// Log that this item was passed over; no effect is performed.
    Skip(u64, SkipReason),
    /// Delete the checkpoint: the terminal success signal.
    DeleteCheckpoint,
}

/// The resumable traversal engine.
pub struct Engine {
    /// The progress record, exactly as last handed out for saving.
    pub progress: ProgressRecord,
    /// The pending work, a last-in-first-out stack: freshly discovered
    /// threads are processed before older queued channels.
    pub work: Vec<WorkItem>,
    /// Where the engine stands.
    pub phase: Phase,
    /// Whether the in-flight channel's output was created by this run
    /// (as opposed to reopened from an interrupted earlier run).
    pub chan_fresh: Ghost<bool>,
    /// The record payloads appended to the in-flight channel's output by
    /// this run.
    pub chan_records: Ghost<Seq<Seq<u8>>>,
    /// The bytes this run has told the caller to write to the in-flight
    /// channel's output.
    pub chan_bytes: Ghost<Seq<u8>>,
}

impl Engine {
    /// Structural invariant, preserved by every transition.
    pub open spec fn wf(self) -> bool {
        &&& self.progress.wf()
        &&& match self.phase {
            Phase::Starting => self.work@.len() == 0,
            Phase::Enumerating => self.work@.len() == 0,
            Phase::Selecting => true,
            Phase::Discovering(c) => !self.progress.completed_set().contains(c),
            Phase::Paging(c) => {
                &&& self.progress.current_channel == Some(c)
                &&& (self.chan_fresh@ ==> {
                    &&& self.chan_bytes@ == array_body(self.chan_records@)
                    &&& (self.progress.last_seen_message_id is Some <==> self.chan_records@.len()
                        > 0)
                })
            },
            Phase::Finished => self.work@.len() == 0,
            Phase::Stalled(c, _) => self.progress.current_channel == Some(c),
        }
    }

    /// Build an engine for `requested_guild` from an optionally loaded
    /// checkpoint.  A missing or structurally corrupt checkpoint counts
    /// as no prior run; one naming a different guild is fatal.
    pub fn new(requested_guild: u64, loaded: Option<ProgressRecord>) -> (r: Result<
        Engine,
        FatalError,
    >)
        ensures
            match r {
                Ok(e) => {
                    &&& e.wf()
                    &&& e.phase is Starting
                    &&& e.work@.len() == 0
                    &&& e.progress.guild_id == requested_guild
                    &&& match loaded {
                        Some(l) => {
                            &&& l.guild_id == requested_guild
                            &&& if l.wf() {
                                e.progress == l
                            } else {
                                e.progress.is_fresh_for(requested_guild)
                            }
                        },
                        None => e.progress.is_fresh_for(requested_guild),
                    }
                },
                Err(err) => {
                    &&& err is GuildMismatch
                    &&& loaded matches Some(l) && l.guild_id != requested_guild
                },
            },
    {
        match reconcile(requested_guild, loaded) {
            Ok(p) => Ok(
                Engine {
                    progress: p,
                    work: Vec::new(),
                    phase: Phase::Starting,
                    chan_fresh: Ghost(false),
                    chan_records: Ghost(Seq::empty()),
                    chan_bytes: Ghost(Seq::empty()),
                },
            ),
            Err(e) => Err(e),
        }
    }

    /// The current phase.
    pub fn phase(&self) -> (p: Phase)
        ensures
            p == self.phase,
    {
        self.phase
    }

    /// First step of a run: persist the record immediately — so a fresh
    /// run is resumable from its very first step — and ask for the
    /// enumeration.
    pub fn start(&mut self) -> (actions: Vec<Action>)
        requires
            old(self).wf(),
            old(self).phase is Starting,
        ensures
            final(self).wf(),
            final(self).phase is Enumerating,
            final(self).work@ == old(self).work@,
            final(self).progress == old(self).progress,
            actions@.len() == 2,
            (actions@[0] matches Action::SaveCheckpoint(p) && same_record(p, old(self).progress)),
            actions@[1] == Action::Enumerate,
    {
        let mut actions: Vec<Action> = Vec::new();
        actions.push(Action::SaveCheckpoint(self.progress.snapshot()));
        actions.push(Action::Enumerate);
        self.phase = Phase::Enumerating;
        actions
    }

    /// What opening a channel's output looks like: `rest` is the work
    /// list after the transition, `c` the channel opened.  If `c` was
    /// already the in-flight channel of the loaded checkpoint, its
    /// existing file is reopened for appending with the cursor kept;
    /// otherwise the metadata file and a freshly primed messages file are
    /// created and the cursor is reset.  Either way the record naming `c`
    /// is saved before any page is fetched.
    pub open spec fn opened(
        pre: Engine,
        post: Engine,
        c: u64,
        rest: Seq<WorkItem>,
        actions: Seq<Action>,
    ) -> bool {
        &&& post.work@ == rest
        &&& post.phase == Phase::Paging(c)
        &&& post.progress.guild_id == pre.progress.guild_id
        &&& post.progress.completed_channels@ == pre.progress.completed_channels@
        &&& post.progress.current_channel == Some(c)
        &&& if pre.progress.current_channel == Some(c) {
            &&& post.progress.last_seen_message_id == pre.progress.last_seen_message_id
            &&& actions.len() == 3
            &&& actions[0] == Action::ReopenOutput(c)
            &&& (actions[1] matches Action::SaveCheckpoint(p) && same_record(p, post.progress))
            &&& actions[2] == Action::FetchPage(c, pre.progress.last_seen_message_id)
            &&& !post.chan_fresh@
        } else {
            &&& post.progress.last_seen_message_id is None
            &&& actions.len() == 4
            &&& actions[0] == Action::WriteMeta(c)
            &&& (actions[1] matches Action::CreateOutput(ch, bytes) && ch == c && bytes@ == seq![
                framing::OPEN_DELIM,
            ])
            &&& (actions[2] matches Action::SaveCheckpoint(p) && same_record(p, post.progress))
            &&& actions[3] == Action::FetchPage(c, None::<u64>)
            &&& post.chan_fresh@
            &&& post.chan_records@ == Seq::<Seq<u8>>::empty()
            &&& post.chan_bytes@ == seq![framing::OPEN_DELIM]
        }
    }

    /// Transition channel `c` to in-flight and open its output.
    fn open_output(&mut self, c: u64) -> (actions: Vec<Action>)
        requires
            old(self).progress.wf(),
            !old(self).progress.completed_set().contains(c),
        ensures
            final(self).wf(),
            Engine::opened(*old(self), *final(self), c, old(self).work@, actions@),
    {
        let resume = match self.progress.current_channel {
            Some(cur) => cur == c,
            None => false,
        };
        let mut actions: Vec<Action> = Vec::new();
        if resume {
            actions.push(Action::ReopenOutput(c));
            actions.push(Action::SaveCheckpoint(self.progress.snapshot()));
            actions.push(Action::FetchPage(c, self.progress.last_seen_message_id));
            self.chan_fresh = Ghost(false);
            self.chan_records = Ghost(Seq::empty());
            self.chan_bytes = Ghost(Seq::empty());
        } else {
            self.progress.begin_channel(c);
            actions.push(Action::WriteMeta(c));
            actions.push(Action::CreateOutput(c, framing::open_bytes()));
            actions.push(Action::SaveCheckpoint(self.progress.snapshot()));
            actions.push(Action::FetchPage(c, None));
            let ghost primed: Seq<u8> = seq![framing::OPEN_DELIM];
            self.chan_fresh = Ghost(true);
            self.chan_records = Ghost(Seq::empty());
            self.chan_bytes = Ghost(primed);
        }
        self.phase = Phase::Paging(c);
        actions
    }

    /// What taking the next item off the work list does.  Exactly one of
    /// four things happens: the work list is empty and the run finishes
    /// by deleting the checkpoint; the popped item is ineligible or
    /// already completed and is skipped, changing no durable state; the
    /// popped item is a text channel and its archived threads are asked
    /// for before its own extraction; or the popped item's output is
    /// opened and its first page fetch is requested.
    pub open spec fn advance_rel(pre: Engine, post: Engine, actions: Seq<Action>) -> bool {
        &&& post.progress.guild_id == pre.progress.guild_id
        &&& if pre.work@.len() == 0 {
            &&& post.phase is Finished
            &&& post.work@ == pre.work@
            &&& post.progress == pre.progress
            &&& actions =~= seq![Action::DeleteCheckpoint]
        } else {
            let item = pre.work@.last();
            let rest = pre.work@.drop_last();
            &&& !eligible(item.kind) ==> {
                &&& post.phase is Selecting
                &&& post.work@ == rest
                &&& post.progress == pre.progress
                &&& actions =~= seq![Action::Skip(item.id, SkipReason::Ineligible)]
            }
            &&& eligible(item.kind) && pre.progress.completed_set().contains(item.id) ==> {
                &&& post.phase is Selecting
                &&& post.work@ == rest
                &&& post.progress == pre.progress
                &&& actions =~= seq![Action::Skip(item.id, SkipReason::AlreadyCompleted)]
            }
            &&& eligible(item.kind) && !pre.progress.completed_set().contains(item.id)
                && item.kind is Text ==> {
                &&& post.phase == Phase::Discovering(item.id)
                &&& post.work@ == rest
                &&& post.progress == pre.progress
                &&& actions =~= seq![Action::DiscoverThreads(item.id)]
            }
            &&& eligible(item.kind) && !pre.progress.completed_set().contains(item.id) && !(
            item.kind is Text) ==> Engine::opened(pre, post, item.id, rest, actions)
        }
    }

    /// Take the next item off the work list, or finish; see
    /// [`Engine::advance_rel`] for the exact outcome.  A completed item
    /// is only ever skipped, never reprocessed.
    pub fn advance(&mut self) -> (actions: Vec<Action>)
        requires
            old(self).wf(),
            old(self).phase is Selecting,
        ensures
            final(self).wf(),
            Engine::advance_rel(*old(self), *final(self), actions@),
    {
        let popped = self.work.pop();
        match popped {
            None => {
                self.phase = Phase::Finished;
                let mut actions: Vec<Action> = Vec::new();
                actions.push(Action::DeleteCheckpoint);
                actions
            },
            Some(item) => {
                if !item.is_eligible() {
                    let mut actions: Vec<Action> = Vec::new();
                    actions.push(Action::Skip(item.id, SkipReason::Ineligible));
                    actions
                } else if self.progress.is_completed(item.id) {
                    let mut actions: Vec<Action> = Vec::new();
                    actions.push(Action::Skip(item.id, SkipReason::AlreadyCompleted));
                    actions
                } else {
                    match item.kind {
                        ChannelKind::Text => {
                            self.phase = Phase::Discovering(item.id);
                            let mut actions: Vec<Action> = Vec::new();
                            actions.push(Action::DiscoverThreads(item.id));
                            actions
                        },
                        _ => self.open_output(item.id),
                    }
                }
            },
        }
    }

    /// Receive the archived threads of the text channel being discovered:
    /// push them onto the work list — so they are processed depth-first,
    /// before older queued channels — then open the channel's own output.
    pub fn on_threads_discovered(&mut self, threads: Vec<WorkItem>) -> (actions: Vec<Action>)
        requires
            old(self).wf(),
            old(self).phase is Discovering,
        ensures
            final(self).wf(),
            old(self).phase matches Phase::Discovering(c) ==> Engine::opened(
                *old(self),
                *final(self),
                c,
                old(self).work@ + threads@,
                actions@,
            ),
    {
        let c = match self.phase {
            Phase::Discovering(c) => c,
            _ => 0,  // unreachable under the precondition
        };
        let mut incoming = threads;
        self.work.append(&mut incoming);
        self.open_output(c)
    }

    /// Archived-thread discovery failed: the failure is non-fatal and the
    /// channel's own extraction proceeds with no threads added.
    pub fn on_thread_discovery_failed(&mut self) -> (actions: Vec<Action>)
        requires
            old(self).wf(),
            old(self).phase is Discovering,
        ensures
            final(self).wf(),
            old(self).phase matches Phase::Discovering(c) ==> Engine::opened(
                *old(self),
                *final(self),
                c,
                old(self).work@,
                actions@,
            ),
    {
        let c = match self.phase {
            Phase::Discovering(c) => c,
            _ => 0,  // unreachable under the precondition
        };
        self.open_output(c)
    }

    /// What receiving one page for channel `c` does.  An empty page
    /// closes the channel; a short page appends its batch and then
    /// closes; a full page appends its batch and requests the next page,
    /// strictly older than the new cursor.  Every append is followed by a
    /// checkpoint naming the new cursor, and completion is followed by a
    /// checkpoint recording it — durable state never runs ahead of
    /// output.  When the channel's file was created by this run, the
    /// bytes handed out for it form, on completion, exactly the complete
    /// array encoding of every record appended.
    pub open spec fn page_rel(
        pre: Engine,
        post: Engine,
        c: u64,
        msgs: Seq<MessageRecord>,
        actions: Seq<Action>,
    ) -> bool {
        let views = payload_views(msgs);
        let had = pre.progress.last_seen_message_id is Some;
        &&& post.work@ == pre.work@
        &&& post.progress.guild_id == pre.progress.guild_id
        &&& if msgs.len() == 0 {
            &&& post.progress.completed_channels@ == pre.progress.completed_channels@.push(c)
            &&& post.progress.current_channel is None
            &&& post.progress.last_seen_message_id is None
            &&& post.phase is Selecting
            &&& actions.len() == 2
            &&& (actions[0] matches Action::CloseOutput(ch, b) && ch == c && b@ == seq![
                framing::CLOSE_DELIM,
            ])
            &&& (actions[1] matches Action::SaveCheckpoint(p) && same_record(p, post.progress))
            &&& post.chan_records@ == pre.chan_records@
            &&& post.chan_bytes@ == pre.chan_bytes@ + seq![framing::CLOSE_DELIM]
            &&& (pre.chan_fresh@ ==> post.chan_bytes@ == array_encoding(pre.chan_records@))
        } else if msgs.len() < PAGE_SIZE {
            &&& post.progress.completed_channels@ == pre.progress.completed_channels@.push(c)
            &&& post.progress.current_channel is None
            &&& post.progress.last_seen_message_id is None
            &&& post.phase is Selecting
            &&& actions.len() == 4
            &&& (actions[0] matches Action::AppendOutput(ch, b) && ch == c && b@ == batch_encoding(
                had,
                views,
            ))
            &&& (actions[1] matches Action::SaveCheckpoint(p) && {
                &&& p.guild_id == pre.progress.guild_id
                &&& p.current_channel == Some(c)
                &&& p.last_seen_message_id == Some(msgs.last().id)
                &&& p.completed_channels@ == pre.progress.completed_channels@
            })
            &&& (actions[2] matches Action::CloseOutput(ch, b) && ch == c && b@ == seq![
                framing::CLOSE_DELIM,
            ])
            &&& (actions[3] matches Action::SaveCheckpoint(p) && same_record(p, post.progress))
            &&& post.chan_records@ == pre.chan_records@ + views
            &&& post.chan_bytes@ == pre.chan_bytes@ + batch_encoding(had, views) + seq![
                framing::CLOSE_DELIM,
            ]
            &&& (pre.chan_fresh@ ==> post.chan_bytes@ == array_encoding(
                pre.chan_records@ + views,
            ))
        } else {
            &&& post.progress.completed_channels@ == pre.progress.completed_channels@
            &&& post.progress.current_channel == Some(c)
            &&& post.progress.last_seen_message_id == Some(msgs.last().id)
            &&& post.phase == Phase::Paging(c)
            &&& actions.len() == 3
            &&& (actions[0] matches Action::AppendOutput(ch, b) && ch == c && b@ == batch_encoding(
                had,
                views,
            ))
            &&& (actions[1] matches Action::SaveCheckpoint(p) && same_record(p, post.progress))
            &&& actions[2] == Action::FetchPage(c, Some(msgs.last().id))
            &&& post.chan_fresh@ == pre.chan_fresh@
            &&& post.chan_records@ == pre.chan_records@ + views
            &&& post.chan_bytes@ == pre.chan_bytes@ + batch_encoding(had, views)
        }
    }

    /// Receive one page of messages for the channel being paged, newest
    /// first; see [`Engine::page_rel`] for the exact outcome.
    pub fn on_page(&mut self, msgs: Vec<MessageRecord>) -> (actions: Vec<Action>)
        requires
            old(self).wf(),
            old(self).phase is Paging,
        ensures
            final(self).wf(),
            old(self).phase matches Phase::Paging(c) ==> Engine::page_rel(
                *old(self),
                *final(self),
                c,
                msgs@,
                actions@,
            ),
    {
        let c = match self.phase {
            Phase::Paging(ch) => ch,
            _ => 0,  // unreachable under the precondition
        };
        let ghost views = payload_views(msgs@);
        let mut actions: Vec<Action> = Vec::new();
        let n = msgs.len();
        if n == 0 {
            actions.push(Action::CloseOutput(c, framing::close_bytes()));
            let _done = self.progress.complete_current();
            actions.push(Action::SaveCheckpoint(self.progress.snapshot()));
            self.phase = Phase::Selecting;
            let ghost closed_bytes = self.chan_bytes@ + seq![framing::CLOSE_DELIM];
            self.chan_bytes = Ghost(closed_bytes);
            proof {
                assert(views =~= Seq::<Seq<u8>>::empty());
            }
        } else {
            let had = self.progress.last_seen_message_id.is_some();
            let batch = framing::batch_bytes(had, &msgs);
            let last_id = msgs[n - 1].id;
            proof {
                assert(msgs@.last().id == last_id);
                if old(self).chan_fresh@ {
                    framing::lemma_batch_extends_body(old(self).chan_records@, views);
                }
            }
            actions.push(Action::AppendOutput(c, batch));
            self.progress.advance_cursor(last_id);
            actions.push(Action::SaveCheckpoint(self.progress.snapshot()));
            let ghost appended_records = self.chan_records@ + views;
            let ghost appended_bytes = self.chan_bytes@ + batch_encoding(
                old(self).progress.last_seen_message_id is Some,
                views,
            );
            self.chan_records = Ghost(appended_records);
            self.chan_bytes = Ghost(appended_bytes);
            if n < PAGE_SIZE {
                actions.push(Action::CloseOutput(c, framing::close_bytes()));
                let _done = self.progress.complete_current();
                actions.push(Action::SaveCheckpoint(self.progress.snapshot()));
                self.phase = Phase::Selecting;
                let ghost closed_bytes = self.chan_bytes@ + seq![framing::CLOSE_DELIM];
                self.chan_bytes = Ghost(closed_bytes);
            } else {
                actions.push(Action::FetchPage(c, Some(last_id)));
            }
        }
        actions
    }

    /// A page fetch failed: end the run here without marking the channel
    /// complete.  The checkpoint still names the channel and its cursor,
    /// so the next run reopens its output and resumes where this one
    /// stopped; nothing fetched is refetched and nothing written is
    /// overwritten.
    pub fn on_page_failed(&mut self, kind: ErrorKind) -> (actions: Vec<Action>)
        requires
            old(self).wf(),
            old(self).phase is Paging,
        ensures
            final(self).wf(),
            final(self).work@ == old(self).work@,
            final(self).progress == old(self).progress,
            old(self).phase matches Phase::Paging(c) ==> final(self).phase == Phase::Stalled(
                c,
                kind,
            ),
            actions@.len() == 0,
    {
        let c = match self.phase {
            Phase::Paging(ch) => ch,
            _ => 0,  // unreachable under the precondition
        };
        self.phase = Phase::Stalled(c, kind);
        Vec::new()
    }

    /// The identifiers still queued on the work list.
    pub open spec fn work_ids(e: Engine) -> Set<u64> {
        e.work@.map_values(|w: WorkItem| w.id).to_set()
    }

    /// The identifiers the engine is actively holding outside the work
    /// list and the completed set: the channel named by the checkpoint
    /// and the one a pending request is about.
    pub open spec fn in_flight(e: Engine) -> Set<u64> {
        (match e.progress.current_channel {
            Some(c) => set![c],
            None => Set::<u64>::empty(),
        }) + (match e.phase {
            Phase::Discovering(c) => set![c],
            Phase::Paging(c) => set![c],
            Phase::Stalled(c, _) => set![c],
            _ => Set::<u64>::empty(),
        })
    }

    /// Every identifier the engine still answers for: completed, queued,
    /// or in flight.
    pub open spec fn accounted(e: Engine) -> Set<u64> {
        e.progress.completed_set() + Engine::work_ids(e) + Engine::in_flight(e)
    }

    /// Whether some item of `items` carries identifier `c`.
    pub open spec fn lists_id(items: Seq<WorkItem>, c: u64) -> bool {
        exists|i: int| 0 <= i < items.len() && items[i].id == c
    }

    /// The work item synthesized for a checkpoint's in-flight channel
    /// that the fresh enumeration no longer lists.  Only archived
    /// threads are invisible to enumeration — it returns top-level
    /// channels and active threads — so the item is given a thread
    /// kind, which pages the channel directly without re-running
    /// archived-thread discovery; paging needs nothing but the
    /// identifier.
    pub open spec fn resumed_work_item(c: u64) -> WorkItem {
        WorkItem { id: c, kind: ChannelKind::PublicThread, parent: None }
    }

    /// The startup work list: the enumeration, merged with the
    /// checkpoint's in-flight channel.  When that channel is absent from
    /// the enumeration, an item for it is pushed on top of the stack, so
    /// a restarted run resumes the interrupted channel first and never
    /// silently drops it.  When the enumeration still lists the channel,
    /// it keeps its enumerated position and its true kind — a text
    /// channel then re-runs its archived-thread discovery before its
    /// output is reopened.
    pub open spec fn merged_work(items: Seq<WorkItem>, current: Option<u64>) -> Seq<WorkItem> {
        match current {
            Some(c) => if Engine::lists_id(items, c) {
                items
            } else {
                items.push(Engine::resumed_work_item(c))
            },
            None => items,
        }
    }

    /// Receive the one-time enumeration, merged with any in-progress
    /// channel recorded in the checkpoint: the initial work list,
    /// processed from its end (last in, first out).
    pub fn on_enumerated(&mut self, items: Vec<WorkItem>) -> (actions: Vec<Action>)
        requires
            old(self).wf(),
            old(self).phase is Enumerating,
        ensures
            final(self).wf(),
            final(self).phase is Selecting,
            final(self).work@ == Engine::merged_work(items@, old(self).progress.current_channel),
            final(self).progress == old(self).progress,
            actions@.len() == 0,
    {
        self.work = items;
        if let Some(c) = self.progress.current_channel {
            let n = self.work.len();
            let mut found = false;
            let mut i: usize = 0;
            while i < n
                invariant
                    0 <= i <= n,
                    n == self.work@.len(),
                    found ==> Engine::lists_id(self.work@, c),
                    !found ==> forall|j: int| 0 <= j < i ==> self.work@[j].id != c,
                decreases n - i,
            {
                if self.work[i].id == c {
                    found = true;
                }
                i = i + 1;
            }
            if !found {
                proof {
                    assert(!Engine::lists_id(self.work@, c));
                }
                self.work.push(WorkItem { id: c, kind: ChannelKind::PublicThread, parent: None });
            }
        }
        self.phase = Phase::Selecting;
        Vec::new()
    }
}

/// Exhaustiveness, step preservation: a work-list step drops no eligible
/// work.  Every channel that was completed before the step, and every
/// eligible channel that was queued before it, is completed, queued, or
/// in flight after it.  An item leaves this accounting only by being
/// ineligible; together with `lemma_finished_work_drained`, a run that
/// reaches the terminal phase has completed every eligible channel that
/// ever entered its work list.
pub proof fn lemma_no_eligible_work_lost(pre: Engine, post: Engine, actions: Seq<Action>)
    requires
        pre.wf(),
        Engine::advance_rel(pre, post, actions),
    ensures
        forall|id: u64|
            pre.progress.completed_set().contains(id) ==> Engine::accounted(post).contains(id),
        forall|i: int|
            0 <= i < pre.work@.len() && eligible(pre.work@[i].kind) ==> Engine::accounted(
                post,
            ).contains(pre.work@[i].id),
{
    assert forall|id: u64| pre.progress.completed_set().contains(id) implies Engine::accounted(
        post,
    ).contains(id) by {
        assert(post.progress.completed_channels@ == pre.progress.completed_channels@);
        assert(post.progress.completed_set().contains(id));
    }
    assert forall|i: int|
        0 <= i < pre.work@.len() && eligible(pre.work@[i].kind) implies Engine::accounted(
        post,
    ).contains(pre.work@[i].id) by {
        let id = pre.work@[i].id;
        let item = pre.work@.last();
        let rest = pre.work@.drop_last();
        if i < pre.work@.len() - 1 {
            assert(post.work@[i] == pre.work@[i]);
            assert(post.work@.map_values(|w: WorkItem| w.id)[i] == id);
            assert(post.work@.map_values(|w: WorkItem| w.id).contains(id));
            assert(Engine::work_ids(post).contains(id));
        } else {
            assert(item == pre.work@[i]);
            if pre.progress.completed_set().contains(item.id) {
                assert(post.progress.completed_set().contains(id));
            } else if item.kind is Text {
                assert(post.phase == Phase::Discovering(item.id));
                assert(Engine::in_flight(post).contains(id));
            } else {
                assert(post.progress.current_channel == Some(item.id));
                assert(Engine::in_flight(post).contains(id));
            }
        }
    }
}

/// Exhaustiveness at the terminal phase: nothing remains queued, so the
/// accounted set has collapsed into the completed set (plus, at most, a
/// channel still named in flight by a checkpoint the terminal step just
/// deleted).
pub proof fn lemma_finished_work_drained(e: Engine)
    requires
        e.wf(),
        e.phase is Finished,
    ensures
        e.work@.len() == 0,
        Engine::accounted(e) == e.progress.completed_set() + Engine::in_flight(e),
{
    assert(e.work@.map_values(|w: WorkItem| w.id).len() == 0);
    assert forall|id: u64| Engine::accounted(e).contains(id) implies (e.progress.completed_set()
        + Engine::in_flight(e)).contains(id) by {
        if Engine::work_ids(e).contains(id) {
            assert(e.work@.map_values(|w: WorkItem| w.id).contains(id));
        }
    }
    assert(Engine::accounted(e) =~= e.progress.completed_set() + Engine::in_flight(e));
}

/// No double completion: the completed list never holds an identifier
/// twice.
pub proof fn lemma_no_double_completion(e: Engine)
    requires
        e.wf(),
    ensures
        e.progress.completed_channels@.no_duplicates(),
{
}

/// No re-enqueueing: once an identifier is completed, taking it off
/// the work list only skips it — no state changes, no
/// request is made, and nothing is re-enqueued.
pub proof fn lemma_completed_never_reprocessed(pre: Engine, post: Engine, actions: Seq<Action>)
    requires
        pre.wf(),
        Engine::advance_rel(pre, post, actions),
        pre.work@.len() > 0,
        pre.progress.completed_set().contains(pre.work@.last().id),
    ensures
        post.work@ == pre.work@.drop_last(),
        post.progress == pre.progress,
        post.phase is Selecting,
        actions.len() == 1,
        (actions[0] matches Action::Skip(id, _) && id == pre.work@.last().id),
{
}

/// Completion only grows: receiving a page never removes a
/// completion, and records at most one — the paged channel's, exactly
/// when the page ends the channel — so the completed set only grows, one
/// distinct identifier at a time.
pub proof fn lemma_completion_grows_one_at_a_time(
    pre: Engine,
    post: Engine,
    c: u64,
    msgs: Seq<MessageRecord>,
    actions: Seq<Action>,
)
    requires
        pre.wf(),
        pre.phase == Phase::Paging(c),
        Engine::page_rel(pre, post, c, msgs, actions),
    ensures
        forall|id: u64|
            pre.progress.completed_set().contains(id) ==> post.progress.completed_set().contains(
                id,
            ),
        msgs.len() < PAGE_SIZE ==> post.progress.completed_set()
            == pre.progress.completed_set().insert(c),
        msgs.len() >= PAGE_SIZE ==> post.progress.completed_set()
            == pre.progress.completed_set(),
{
    if msgs.len() < PAGE_SIZE {
        crate::progress::lemma_push_to_set(pre.progress.completed_channels@, c);
    }
}

/// Cursor monotonicity: when the pager honors its contract — a page
/// requested below a cursor holds only identifiers strictly below it —
/// the checkpoint saved after appending that page names a strictly
/// smaller cursor than the one the page was requested with.
pub proof fn lemma_cursor_strictly_decreases(
    pre: Engine,
    post: Engine,
    c: u64,
    msgs: Seq<MessageRecord>,
    actions: Seq<Action>,
    cur: u64,
)
    requires
        pre.wf(),
        Engine::page_rel(pre, post, c, msgs, actions),
        msgs.len() > 0,
        pre.progress.last_seen_message_id == Some(cur),
        forall|i: int| 0 <= i < msgs.len() ==> msgs[i].id < cur,
    ensures
        (actions[1] matches Action::SaveCheckpoint(p) && p.last_seen_message_id == Some(
            msgs.last().id,
        )),
        msgs.last().id < cur,
{
    assert(msgs.last() == msgs[msgs.len() - 1]);
}

/// Array well-formedness for a channel whose output this run created:
/// while the channel is still being paged, the bytes handed out for its
/// file are exactly the complete array encoding of the records appended
/// so far with only the closing delimiter missing — never corrupted
/// mid-record.  The matching completion clause stands in
/// [`Engine::page_rel`]: the close extends these bytes to the complete
/// encoding.
pub proof fn lemma_open_output_missing_only_close(e: Engine, c: u64)
    requires
        e.wf(),
        e.phase == Phase::Paging(c),
        e.chan_fresh@,
    ensures
        e.chan_bytes@ == array_body(e.chan_records@),
        e.chan_bytes@ == array_encoding(e.chan_records@).take(
            array_encoding(e.chan_records@).len() - 1,
        ),
        array_encoding(e.chan_records@).last() == framing::CLOSE_DELIM,
{
    framing::lemma_body_is_all_but_close(e.chan_records@);
}

/// Idempotent restart, startup half: the merged startup work list never
/// omits the checkpoint's in-flight channel, listed by the enumeration
/// or not, and the synthesized item is eligible and carries no call for
/// thread discovery — so a restarted run always reaches the interrupted
/// channel again instead of silently dropping it.
pub proof fn lemma_merged_work_lists_in_flight(items: Seq<WorkItem>, c: u64)
    ensures
        Engine::lists_id(Engine::merged_work(items, Some(c)), c),
        !Engine::lists_id(items, c) ==> {
            let m = Engine::merged_work(items, Some(c));
            &&& m.last() == Engine::resumed_work_item(c)
            &&& eligible(m.last().kind)
            &&& !(m.last().kind is Text)
        },
{
    if !Engine::lists_id(items, c) {
        let m = Engine::merged_work(items, Some(c));
        assert(m[m.len() - 1].id == c);
    }
}

/// Idempotent restart: reopening the in-flight channel of a loaded
/// checkpoint keeps its cursor, so nothing already fetched is fetched
/// again — the first page request resumes exactly below the saved
/// cursor — and the existing file is reopened, never recreated.
pub proof fn lemma_resume_keeps_cursor(
    pre: Engine,
    post: Engine,
    c: u64,
    rest: Seq<WorkItem>,
    actions: Seq<Action>,
)
    requires
        Engine::opened(pre, post, c, rest, actions),
        pre.progress.current_channel == Some(c),
    ensures
        post.progress.last_seen_message_id == pre.progress.last_seen_message_id,
        actions[0] == Action::ReopenOutput(c),
        actions[2] == Action::FetchPage(c, pre.progress.last_seen_message_id),
{
}

} // verus!
