use vstd::prelude::*;

use crate::asset::{kind_of_path, AssetType};
use crate::debounce::{actionable, retained, Debouncer};
use crate::paths::{mirror_path, mirrored};
use crate::scheduler::{job_paths, sat_add, BuildJob};

verus! {

/// How many idle polls pass between two sweeps of the debouncer.
pub const POLLS_PER_SWEEP: u32 = 120;

/// The kind of a filesystem notification.
#[derive(Debug, Clone, Copy, PartialEq, Eq, Structural)]
pub enum EventKind {
    Create,
    Modify,
    Other,
}

/// A path named by a notification, and whether it is a regular file.
pub struct EventPath {
    pub path: String,
    pub is_file: bool,
}

/// One filesystem notification.
pub struct WatchEvent {
    pub kind: EventKind,
    pub paths: Vec<EventPath>,
}

/// Counters of a watch session.
pub struct WatchStats {
    pub processed: u64,
    pub errors: u64,
    pub skipped: u64,
    /// When the session started (milliseconds).
    pub start_ms: u64,
}

impl WatchStats {
    pub fn new(start_ms: u64) -> (r: WatchStats)
        ensures
            r.processed == 0,
            r.errors == 0,
            r.skipped == 0,
            r.start_ms == start_ms,
    {
        WatchStats { processed: 0, errors: 0, skipped: 0, start_ms }
    }
}

/// The debouncer's state, the skip count and the jobs after the paths of
/// one create or modify notification: directories and unsupported files are
/// passed over, a debounced file is counted as skipped, and any other file
/// becomes a job.
pub open spec fn paths_step(
    last: Map<Seq<char>, u64>,
    skipped: u64,
    paths: Seq<EventPath>,
    input_dir: Seq<char>,
    output_dir: Seq<char>,
    now: u64,
    window: u64,
) -> (Map<Seq<char>, u64>, u64, Seq<(Seq<char>, Seq<char>)>)
    decreases paths.len(),
{
    if paths.len() == 0 {
        (last, skipped, Seq::empty())
    } else {
        let prev = paths_step(last, skipped, paths.drop_last(), input_dir, output_dir, now, window);
        let p = paths.last();
        if !p.is_file || kind_of_path(p.path@) == AssetType::Unknown {
            prev
        } else if actionable(prev.0, p.path@, now, window) {
            (prev.0.insert(p.path@, now), prev.1, prev.2.push((p.path@, mirrored(p.path@, input_dir, output_dir))))
        } else {
            (prev.0, sat_add(prev.1, 1), prev.2)
        }
    }
}

/// The effect of one notification on the session, and the jobs it yields:
/// only create and modify notifications count; any other changes nothing.
pub open spec fn event_handled(
    before: WatchSession,
    after: WatchSession,
    event: WatchEvent,
    now: u64,
    jobs: Seq<BuildJob>,
) -> bool {
    let window = before.debouncer.debounce_ms;
    &&& if event.kind == EventKind::Other {
        &&& jobs.len() == 0
        &&& after.debouncer.last_events@ == before.debouncer.last_events@
        &&& after.stats.skipped == before.stats.skipped
    } else {
        let s = paths_step(
            before.debouncer.last_events@,
            before.stats.skipped,
            event.paths@,
            before.input_dir@,
            before.output_dir@,
            now,
            window,
        );
        &&& after.debouncer.last_events@ == s.0
        &&& after.stats.skipped == s.1
        &&& job_paths(jobs) == s.2
    }
    &&& after.debouncer.debounce_ms == window
    &&& after.stats.processed == before.stats.processed
    &&& after.stats.errors == before.stats.errors
    &&& after.stats.start_ms == before.stats.start_ms
    &&& after.input_dir == before.input_dir
    &&& after.output_dir == before.output_dir
    &&& after.idle_polls == before.idle_polls
}

/// The effect of a poll that brought nothing: every `POLLS_PER_SWEEP` such
/// polls the debouncer forgets its stale entries.
pub open spec fn idle_handled(before: WatchSession, after: WatchSession, now: u64) -> bool {
    let polls = if before.idle_polls < u32::MAX {
        before.idle_polls + 1
    } else {
        u32::MAX as int
    };
    &&& if polls >= POLLS_PER_SWEEP {
        &&& after.idle_polls == 0
        &&& after.debouncer.last_events@ == before.debouncer.last_events@.restrict(
            retained(before.debouncer.last_events@, now),
        )
    } else {
        &&& after.idle_polls == polls
        &&& after.debouncer.last_events@ == before.debouncer.last_events@
    }
    &&& after.debouncer.debounce_ms == before.debouncer.debounce_ms
    &&& after.stats == before.stats
    &&& after.input_dir == before.input_dir
    &&& after.output_dir == before.output_dir
}

/// The state of a watch session between notifications.
pub struct WatchSession {
    pub input_dir: String,
    pub output_dir: String,
    pub debouncer: Debouncer,
    pub stats: WatchStats,
    /// Idle polls since the last sweep.
    pub idle_polls: u32,
}

impl WatchSession {
    pub fn new(input_dir: String, output_dir: String, debounce_ms: u64, start_ms: u64) -> (r: WatchSession)
        ensures
            r.input_dir == input_dir,
            r.output_dir == output_dir,
            r.debouncer.last_events@ == Map::<Seq<char>, u64>::empty(),
            r.debouncer.debounce_ms == debounce_ms,
            r.stats.processed == 0,
            r.stats.errors == 0,
            r.stats.skipped == 0,
            r.stats.start_ms == start_ms,
            r.idle_polls == 0,
    {
        WatchSession {
            input_dir,
            output_dir,
            debouncer: Debouncer::new(debounce_ms),
            stats: WatchStats::new(start_ms),
            idle_polls: 0,
        }
    }

    /// The files that a notification asks to process, each with its output
    /// path. Only create and modify notifications count; any other leaves
    /// the session unchanged.
    pub fn handle_event(&mut self, event: &WatchEvent, now: u64) -> (r: Vec<BuildJob>)
        ensures
            event_handled(*old(self), *final(self), *event, now, r@),
    {
        let mut jobs: Vec<BuildJob> = Vec::new();
        if event.kind == EventKind::Other {
            return jobs;
        }
        let ghost last0 = self.debouncer.last_events@;
        let ghost skipped0 = self.stats.skipped;
        let ghost window = self.debouncer.debounce_ms;
        let mut i: usize = 0;
        while i < event.paths.len()
            invariant
                i <= event.paths@.len(),
                self.debouncer.debounce_ms == window,
                self.input_dir == old(self).input_dir,
                self.output_dir == old(self).output_dir,
                self.idle_polls == old(self).idle_polls,
                self.stats.processed == old(self).stats.processed,
                self.stats.errors == old(self).stats.errors,
                self.stats.start_ms == old(self).stats.start_ms,
                ({
                    let s = paths_step(
                        last0,
                        skipped0,
                        event.paths@.subrange(0, i as int),
                        self.input_dir@,
                        self.output_dir@,
                        now,
                        window,
                    );
                    &&& self.debouncer.last_events@ == s.0
                    &&& self.stats.skipped == s.1
                    &&& job_paths(jobs@) == s.2
                }),
            decreases event.paths@.len() - i,
        {
            let p = &event.paths[i];
            proof {
                assert(event.paths@.subrange(0, i + 1).drop_last() =~= event.paths@.subrange(0, i as int));
            }
            if p.is_file && AssetType::from_path(p.path.as_str()) != AssetType::Unknown {
                if self.debouncer.should_process(&p.path, now) {
                    let output = mirror_path(p.path.as_str(), self.input_dir.as_str(), self.output_dir.as_str());
                    let ghost prev = jobs@;
                    jobs.push(BuildJob { input: p.path.clone(), output });
                    proof {
                        assert(job_paths(jobs@) =~= job_paths(prev).push(
                            (p.path@, mirrored(p.path@, self.input_dir@, self.output_dir@)),
                        ));
                    }
                } else {
                    self.stats.skipped = self.stats.skipped.saturating_add(1);
                }
            }
            i += 1;
        }
        assert(event.paths@.subrange(0, i as int) =~= event.paths@);
        jobs
    }

    /// Counts the result of one transform.
    pub fn record_outcome(&mut self, succeeded: bool)
        ensures
            final(self).stats.processed == if succeeded {
                sat_add(old(self).stats.processed, 1)
            } else {
                old(self).stats.processed
            },
            final(self).stats.errors == if succeeded {
                old(self).stats.errors
            } else {
                sat_add(old(self).stats.errors, 1)
            },
            final(self).stats.skipped == old(self).stats.skipped,
            final(self).stats.start_ms == old(self).stats.start_ms,
            final(self).debouncer == old(self).debouncer,
            final(self).idle_polls == old(self).idle_polls,
    {
        if succeeded {
            self.stats.processed = self.stats.processed.saturating_add(1);
        } else {
            self.stats.errors = self.stats.errors.saturating_add(1);
        }
    }

    /// A poll that brought no notification. Every `POLLS_PER_SWEEP` such
    /// polls the debouncer forgets its stale entries.
    pub fn on_idle(&mut self, now: u64)
        ensures
            idle_handled(*old(self), *final(self), now),
    {
        self.idle_polls = self.idle_polls.saturating_add(1);
        if self.idle_polls >= POLLS_PER_SWEEP {
            self.debouncer.cleanup(now);
            self.idle_polls = 0;
        }
    }
}

/// What one poll of the notification channel brought.
pub enum LoopInput {
    /// A notification.
    Notified(WatchEvent),
    /// The notification source reported an error of its own.
    SourceError,
    /// Nothing arrived before the poll timed out.
    Idle,
    /// The notification source is gone.
    Disconnected,
}

/// What the loop does next.
pub enum LoopAction {
    /// Transform these files, then poll again.
    Process(Vec<BuildJob>),
    /// Report the source's error, then poll again.
    ReportAndContinue,
    /// Poll again.
    Continue,
    /// Leave the loop and report the session.
    Stop,
}

impl WatchSession {
    /// The decision taken on one poll: a notification goes through
    /// `handle_event`, an idle poll through `on_idle`, a source error is
    /// reported without ending the session, and a lost source ends it.
    pub fn step(&mut self, input: LoopInput, now: u64) -> (r: LoopAction)
        ensures
            match input {
                LoopInput::Notified(event) => match r {
                    LoopAction::Process(jobs) => event_handled(*old(self), *final(self), event, now, jobs@),
                    _ => false,
                },
                LoopInput::SourceError => r is ReportAndContinue && *final(self) == *old(self),
                LoopInput::Idle => r is Continue && idle_handled(*old(self), *final(self), now),
                LoopInput::Disconnected => r is Stop && *final(self) == *old(self),
            },
    {
        match input {
            LoopInput::Notified(event) => LoopAction::Process(self.handle_event(&event, now)),
            LoopInput::SourceError => LoopAction::ReportAndContinue,
            LoopInput::Idle => {
                self.on_idle(now);
                LoopAction::Continue
            },
            LoopInput::Disconnected => LoopAction::Stop,
        }
    }
}

} // verus!
