use std::collections::HashMap;

use guild_scrape::ErrorKind;
use guild_scrape::FatalError;
use guild_scrape::engine::Action;
use guild_scrape::engine::Engine;
use guild_scrape::engine::PAGE_SIZE;
use guild_scrape::engine::Phase;
use guild_scrape::engine::SkipReason;
use guild_scrape::progress::ProgressRecord;
use guild_scrape::work::ChannelKind;
use guild_scrape::work::MessageRecord;
use guild_scrape::work::WorkItem;

fn item(id: u64, kind: ChannelKind) -> WorkItem {
    WorkItem { id, kind, parent: None }
}

fn payload_of(id: u64) -> String {
    format!("{{\"id\":{}}}", id)
}

fn msgs_desc(hi: u64, lo: u64) -> Vec<MessageRecord> {
    let mut v = Vec::new();
    let mut id = hi;
    while id >= lo {
        v.push(MessageRecord { id, payload: payload_of(id).into_bytes() });
        if id == lo {
            break;
        }
        id -= 1;
    }
    v
}

/// A simulated environment: applies the engine's actions the way a
/// real runner would, tracking one output file per channel.
struct ChanFile {
    bytes: Vec<u8>,
    meta_written: bool,
    closed: bool,
}

struct Sim {
    files: HashMap<u64, ChanFile>,
    checkpoints: Vec<ProgressRecord>,
    fetches: Vec<(u64, Option<u64>)>,
    deleted: bool,
}

impl Sim {
    fn new() -> Sim {
        Sim { files: HashMap::new(), checkpoints: Vec::new(), fetches: Vec::new(), deleted: false }
    }

    fn file(&self, c: u64) -> &Vec<u8> {
        &self.files.get(&c).unwrap().bytes
    }

    fn created(&self, c: u64) -> bool {
        self.files.contains_key(&c)
    }

    fn closed(&self, c: u64) -> bool {
        self.files.get(&c).map(|f| f.closed).unwrap_or(false)
    }

    fn apply(&mut self, actions: Vec<Action>) {
        for a in actions {
            match a {
                Action::SaveCheckpoint(p) => self.checkpoints.push(p),
                Action::Enumerate => {}
                Action::DiscoverThreads(_) => {}
                Action::WriteMeta(c) => {
                    let f = self.files.entry(c).or_insert(ChanFile {
                        bytes: Vec::new(),
                        meta_written: false,
                        closed: false,
                    });
                    assert!(!f.meta_written, "metadata written twice");
                    f.meta_written = true;
                }
                Action::CreateOutput(c, bytes) => {
                    let f = self.files.get_mut(&c).unwrap();
                    assert!(f.bytes.is_empty(), "fresh creation over an existing file");
                    f.bytes.extend(bytes);
                }
                Action::ReopenOutput(c) => {
                    assert!(self.files.contains_key(&c), "reopen of a file that was never created");
                    assert!(!self.files.get(&c).unwrap().closed, "reopen of a closed file");
                }
                Action::AppendOutput(c, bytes) => {
                    let f = self.files.get_mut(&c).unwrap();
                    assert!(!f.closed);
                    f.bytes.extend(bytes);
                }
                Action::CloseOutput(c, bytes) => {
                    let f = self.files.get_mut(&c).unwrap();
                    assert!(!f.closed);
                    f.bytes.extend(bytes);
                    f.closed = true;
                }
                Action::FetchPage(c, cursor) => self.fetches.push((c, cursor)),
                Action::Skip(_, _) => {}
                Action::DeleteCheckpoint => self.deleted = true,
            }
        }
    }
}

fn expected_array(ids_desc: &[u64]) -> String {
    let parts: Vec<String> = ids_desc.iter().map(|id| payload_of(*id)).collect();
    format!("[{}]", parts.join(","))
}

#[test]
fn three_pages_of_250() {
    assert_eq!(PAGE_SIZE, 100);
    let mut e = Engine::new(9, None).unwrap();
    let mut sim = Sim::new();
    sim.apply(e.start());
    sim.apply(e.on_enumerated(vec![item(5, ChannelKind::PublicThread)]));
    sim.apply(e.advance());
    assert_eq!(sim.fetches.last(), Some(&(5, None)));
    sim.apply(e.on_page(msgs_desc(250, 151)));
    assert_eq!(sim.fetches.last(), Some(&(5, Some(151))));
    sim.apply(e.on_page(msgs_desc(150, 51)));
    assert_eq!(sim.fetches.last(), Some(&(5, Some(51))));
    sim.apply(e.on_page(msgs_desc(50, 1)));
    assert_eq!(e.phase(), Phase::Selecting);
    assert!(sim.closed(5));
    sim.apply(e.advance());
    assert_eq!(e.phase(), Phase::Finished);
    assert!(sim.deleted);
    let ids: Vec<u64> = (1..=250).rev().collect();
    assert_eq!(String::from_utf8(sim.file(5).clone()).unwrap(), expected_array(&ids));
    assert_eq!(sim.file(5).iter().filter(|b| **b == b',').count(), 249);
}

#[test]
fn empty_channel_gives_empty_array() {
    let mut e = Engine::new(9, None).unwrap();
    let mut sim = Sim::new();
    sim.apply(e.start());
    sim.apply(e.on_enumerated(vec![item(5, ChannelKind::PrivateThread)]));
    sim.apply(e.advance());
    assert_eq!(sim.fetches.last(), Some(&(5, None)));
    sim.apply(e.on_page(Vec::new()));
    assert_eq!(*sim.file(5), b"[]".to_vec());
    assert!(sim.closed(5));
    assert!(e.progress.completed_channels.contains(&5));
    sim.apply(e.advance());
    assert_eq!(e.phase(), Phase::Finished);
}

#[test]
fn discovery_failure_does_not_stop_channel() {
    let mut e = Engine::new(9, None).unwrap();
    let mut sim = Sim::new();
    sim.apply(e.start());
    sim.apply(e.on_enumerated(vec![item(7, ChannelKind::Text)]));
    let acts = e.advance();
    assert!(matches!(acts[0], Action::DiscoverThreads(7)));
    assert_eq!(e.phase(), Phase::Discovering(7));
    sim.apply(acts);
    sim.apply(e.on_thread_discovery_failed());
    assert_eq!(e.phase(), Phase::Paging(7));
    assert_eq!(sim.fetches.last(), Some(&(7, None)));
    sim.apply(e.on_page(msgs_desc(5, 1)));
    assert!(e.progress.completed_channels.contains(&7));
    assert!(sim.closed(7));
    let ids: Vec<u64> = (1..=5).rev().collect();
    assert_eq!(String::from_utf8(sim.file(7).clone()).unwrap(), expected_array(&ids));
    sim.apply(e.advance());
    assert_eq!(e.phase(), Phase::Finished);
}

#[test]
fn discovered_threads_processed_before_older_work() {
    let mut e = Engine::new(9, None).unwrap();
    let mut sim = Sim::new();
    sim.apply(e.start());
    sim.apply(e.on_enumerated(vec![item(1, ChannelKind::PublicThread), item(10, ChannelKind::Text)]));
    // Last in, first out: the text channel queued last is popped first.
    let acts = e.advance();
    assert!(matches!(acts[0], Action::DiscoverThreads(10)));
    sim.apply(acts);
    sim.apply(e.on_threads_discovered(vec![
        item(11, ChannelKind::PublicThread),
        item(12, ChannelKind::PrivateThread),
    ]));
    // Channel 10 itself is paged first...
    sim.apply(e.on_page(Vec::new()));
    // ...then its freshly discovered threads, newest push first, before
    // the older queued channel 1.
    let order: Vec<u64> = {
        let mut order = Vec::new();
        for round in 0..3 {
            let _ = round;
            sim.apply(e.advance());
            let (c, cursor) = *sim.fetches.last().unwrap();
            assert_eq!(cursor, None);
            order.push(c);
            sim.apply(e.on_page(Vec::new()));
        }
        order
    };
    assert_eq!(order, vec![12, 11, 1]);
    sim.apply(e.advance());
    assert_eq!(e.phase(), Phase::Finished);
}

#[test]
fn ineligible_kinds_are_skipped() {
    let mut e = Engine::new(9, None).unwrap();
    let mut sim = Sim::new();
    sim.apply(e.start());
    sim.apply(e.on_enumerated(vec![item(3, ChannelKind::Other)]));
    let acts = e.advance();
    assert_eq!(acts.len(), 1);
    assert!(matches!(acts[0], Action::Skip(3, SkipReason::Ineligible)));
    assert_eq!(e.phase(), Phase::Selecting);
    sim.apply(acts);
    sim.apply(e.advance());
    assert_eq!(e.phase(), Phase::Finished);
    assert!(!sim.created(3));
}

#[test]
fn completed_channel_is_skipped_not_reprocessed() {
    let loaded = ProgressRecord {
        guild_id: 9,
        current_channel: None,
        last_seen_message_id: None,
        completed_channels: vec![5],
    };
    let mut e = Engine::new(9, Some(loaded)).unwrap();
    let mut sim = Sim::new();
    sim.apply(e.start());
    sim.apply(e.on_enumerated(vec![item(5, ChannelKind::PublicThread), item(6, ChannelKind::PublicThread)]));
    sim.apply(e.advance());
    assert_eq!(sim.fetches.last(), Some(&(6, None)));
    sim.apply(e.on_page(Vec::new()));
    let acts = e.advance();
    assert_eq!(acts.len(), 1);
    assert!(matches!(acts[0], Action::Skip(5, SkipReason::AlreadyCompleted)));
    sim.apply(acts);
    sim.apply(e.advance());
    assert_eq!(e.phase(), Phase::Finished);
    // Channel 5 was never fetched again.
    assert!(sim.fetches.iter().all(|(c, _)| *c != 5));
    assert_eq!(e.progress.completed_channels.iter().filter(|c| **c == 5).count(), 1);
}

#[test]
fn restart_after_page_failure_resumes_from_cursor() {
    // First run: one full page, then a transport failure.
    let mut e = Engine::new(9, None).unwrap();
    let mut sim = Sim::new();
    sim.apply(e.start());
    sim.apply(e.on_enumerated(vec![item(5, ChannelKind::PublicThread)]));
    sim.apply(e.advance());
    sim.apply(e.on_page(msgs_desc(250, 151)));
    let acts = e.on_page_failed(ErrorKind::Transport);
    assert!(acts.is_empty());
    assert_eq!(e.phase(), Phase::Stalled(5, ErrorKind::Transport));
    // The last saved checkpoint still names the channel and its cursor.
    let saved = sim.checkpoints.pop().unwrap();
    assert_eq!(saved.current_channel, Some(5));
    assert_eq!(saved.last_seen_message_id, Some(151));

    // Second run, restarted from that checkpoint: the channel is
    // reopened — never recreated — and paging resumes below the cursor.
    let mut e2 = Engine::new(9, Some(saved)).unwrap();
    sim.apply(e2.start());
    sim.apply(e2.on_enumerated(vec![item(5, ChannelKind::PublicThread)]));
    let acts = e2.advance();
    assert!(matches!(acts[0], Action::ReopenOutput(5)));
    sim.apply(acts);
    assert_eq!(sim.fetches.last(), Some(&(5, Some(151))));
    sim.apply(e2.on_page(msgs_desc(150, 51)));
    assert_eq!(sim.fetches.last(), Some(&(5, Some(51))));
    sim.apply(e2.on_page(msgs_desc(50, 1)));
    assert!(e2.progress.completed_channels.contains(&5));
    sim.apply(e2.advance());
    assert_eq!(e2.phase(), Phase::Finished);
    assert!(sim.deleted);
    // The file, written across the two runs, is one complete array.
    let ids: Vec<u64> = (1..=250).rev().collect();
    assert_eq!(String::from_utf8(sim.file(5).clone()).unwrap(), expected_array(&ids));
}

#[test]
fn restart_after_clean_finish_is_a_fresh_run() {
    let mut e = Engine::new(9, None).unwrap();
    let mut sim = Sim::new();
    sim.apply(e.start());
    sim.apply(e.on_enumerated(vec![item(5, ChannelKind::PublicThread)]));
    sim.apply(e.advance());
    sim.apply(e.on_page(Vec::new()));
    sim.apply(e.advance());
    assert_eq!(e.phase(), Phase::Finished);
    assert!(sim.deleted);

    // No checkpoint survives a clean finish, so the next run starts
    // fresh and enumerates everything again.
    let mut e2 = Engine::new(9, None).unwrap();
    assert!(e2.progress.completed_channels.is_empty());
    let acts = e2.start();
    assert!(matches!(acts[1], Action::Enumerate));

    // A fresh creation over the first run's surviving file fails loudly
    // in the runner; the simulated environment checks exactly that.
    let mut sim2 = Sim::new();
    sim2.apply(acts);
    sim2.apply(e2.on_enumerated(vec![item(5, ChannelKind::PublicThread)]));
    sim2.apply(e2.advance());
    assert!(sim2.created(5));
}

#[test]
fn checkpoint_cursors_descend_within_channel() {
    let mut e = Engine::new(9, None).unwrap();
    let mut sim = Sim::new();
    sim.apply(e.start());
    sim.apply(e.on_enumerated(vec![item(5, ChannelKind::PublicThread)]));
    sim.apply(e.advance());
    sim.apply(e.on_page(msgs_desc(300, 201)));
    sim.apply(e.on_page(msgs_desc(200, 101)));
    sim.apply(e.on_page(msgs_desc(100, 1)));
    let cursors: Vec<u64> = sim
        .checkpoints
        .iter()
        .filter_map(|p| p.last_seen_message_id)
        .collect();
    assert_eq!(cursors, vec![201, 101, 1]);
    for w in cursors.windows(2) {
        assert!(w[1] < w[0]);
    }
}

#[test]
fn guild_mismatch_is_fatal() {
    let loaded = ProgressRecord {
        guild_id: 8,
        current_channel: None,
        last_seen_message_id: None,
        completed_channels: Vec::new(),
    };
    let r = Engine::new(9, Some(loaded));
    assert!(matches!(r, Err(FatalError::GuildMismatch)));
}

#[test]
fn corrupt_checkpoint_counts_as_no_prior_run() {
    let loaded = ProgressRecord {
        guild_id: 9,
        current_channel: None,
        last_seen_message_id: None,
        completed_channels: vec![5, 5],
    };
    let e = Engine::new(9, Some(loaded)).unwrap();
    assert!(e.progress.completed_channels.is_empty());
    assert_eq!(e.progress.guild_id, 9);
}

#[test]
fn first_checkpoint_is_saved_before_any_fetch() {
    let mut e = Engine::new(42, None).unwrap();
    let acts = e.start();
    assert_eq!(acts.len(), 2);
    match &acts[0] {
        Action::SaveCheckpoint(p) => {
            assert_eq!(p.guild_id, 42);
            assert_eq!(p.current_channel, None);
            assert_eq!(p.last_seen_message_id, None);
            assert!(p.completed_channels.is_empty());
        }
        other => panic!("expected a checkpoint save, got {:?}", other),
    }
    assert!(matches!(acts[1], Action::Enumerate));
}

#[test]
fn resume_before_first_page_reopens_without_cursor() {
    // A previous run crashed after opening channel 5's output and saving
    // the checkpoint, but before any page arrived: the cursor is absent
    // while the channel is in flight.
    let loaded = ProgressRecord {
        guild_id: 9,
        current_channel: Some(5),
        last_seen_message_id: None,
        completed_channels: Vec::new(),
    };
    let mut e = Engine::new(9, Some(loaded)).unwrap();
    let mut sim = Sim::new();
    // The prior run's file survives on disk with its opening delimiter.
    sim.files.insert(
        5,
        ChanFile { bytes: b"[".to_vec(), meta_written: true, closed: false },
    );
    sim.apply(e.start());
    sim.apply(e.on_enumerated(vec![item(5, ChannelKind::PublicThread)]));
    let acts = e.advance();
    assert!(matches!(acts[0], Action::ReopenOutput(5)));
    sim.apply(acts);
    assert_eq!(sim.fetches.last(), Some(&(5, None)));
    sim.apply(e.on_page(msgs_desc(2, 1)));
    assert_eq!(*sim.file(5), b"[{\"id\":2},{\"id\":1}]".to_vec());
    assert!(e.progress.completed_channels.contains(&5));
}

#[test]
fn empty_enumeration_finishes_at_once() {
    let mut e = Engine::new(9, None).unwrap();
    let mut sim = Sim::new();
    sim.apply(e.start());
    sim.apply(e.on_enumerated(Vec::new()));
    let acts = e.advance();
    assert_eq!(acts.len(), 1);
    assert!(matches!(acts[0], Action::DeleteCheckpoint));
    sim.apply(acts);
    assert_eq!(e.phase(), Phase::Finished);
    assert!(sim.deleted);
}

#[test]
fn interrupted_archived_thread_survives_restart() {
    // First run: text channel 10 discovers archived thread 11; the
    // channel completes, then the thread's paging fails mid-stream.
    let mut e = Engine::new(9, None).unwrap();
    let mut sim = Sim::new();
    sim.apply(e.start());
    sim.apply(e.on_enumerated(vec![item(10, ChannelKind::Text)]));
    sim.apply(e.advance());
    sim.apply(e.on_threads_discovered(vec![item(11, ChannelKind::PublicThread)]));
    sim.apply(e.on_page(Vec::new()));
    sim.apply(e.advance());
    assert_eq!(sim.fetches.last(), Some(&(11, None)));
    sim.apply(e.on_page(msgs_desc(200, 101)));
    sim.apply(e.on_page_failed(ErrorKind::RateLimit));
    assert_eq!(e.phase(), Phase::Stalled(11, ErrorKind::RateLimit));
    let saved = sim.checkpoints.pop().unwrap();
    assert_eq!(saved.current_channel, Some(11));
    assert_eq!(saved.last_seen_message_id, Some(101));

    // Second run: enumeration lists only the text channel — archived
    // threads are invisible to it — yet the in-flight thread is merged
    // into the work list and resumed first, from its saved cursor.
    let mut e2 = Engine::new(9, Some(saved)).unwrap();
    sim.apply(e2.start());
    sim.apply(e2.on_enumerated(vec![item(10, ChannelKind::Text)]));
    let acts = e2.advance();
    assert!(matches!(acts[0], Action::ReopenOutput(11)));
    sim.apply(acts);
    assert_eq!(sim.fetches.last(), Some(&(11, Some(101))));
    sim.apply(e2.on_page(msgs_desc(100, 1)));
    assert_eq!(sim.fetches.last(), Some(&(11, Some(1))));
    sim.apply(e2.on_page(Vec::new()));
    assert!(e2.progress.completed_channels.contains(&11));
    assert!(sim.closed(11));
    let ids: Vec<u64> = (1..=200).rev().collect();
    assert_eq!(String::from_utf8(sim.file(11).clone()).unwrap(), expected_array(&ids));
    // The completed parent is then skipped, and only then does the run
    // reach its terminal state.
    let acts = e2.advance();
    assert!(matches!(acts[0], Action::Skip(10, SkipReason::AlreadyCompleted)));
    sim.apply(acts);
    sim.apply(e2.advance());
    assert_eq!(e2.phase(), Phase::Finished);
    assert!(sim.deleted);
}
