use vstd::prelude::*;

use crate::asset::{kind_of_path, AssetType};
use crate::cache::{fresh_entry, rebuild_needed, BuildCache, CacheEntry};
use crate::hash::xxh3_of;
use crate::paths::{mirror_path, mirrored};

verus! {

/// One file of a build: where it is read from and where its artifact goes.
pub struct BuildJob {
    pub input: String,
    pub output: String,
}

/// What the disk shows of a job's input when the job is handled.
pub struct FileFacts {
    /// The input's content.
    pub content: Vec<u8>,
    /// The input's modification time (seconds since the epoch).
    pub mtime: u64,
    /// Whether the output recorded for the input in the cache exists.
    pub output_exists: bool,
}

/// What the transform returned for one file.
pub enum TransformOutcome {
    Done { bytes_in: u64, bytes_out: u64 },
    Failed { message: String },
}

/// Counters of a build, and the failures in the order they were recorded.
pub struct BuildStats {
    pub processed: u64,
    pub skipped: u64,
    pub errored: u64,
    pub bytes_in: u64,
    pub bytes_out: u64,
    pub errors: Vec<(String, String)>,
}

/// The abstract value of `BuildStats`.
pub struct Tally {
    pub processed: u64,
    pub skipped: u64,
    pub errored: u64,
    pub bytes_in: u64,
    pub bytes_out: u64,
    pub errors: Seq<(Seq<char>, Seq<char>)>,
}

impl View for BuildStats {
    type V = Tally;

    open spec fn view(&self) -> Tally {
        Tally {
            processed: self.processed,
            skipped: self.skipped,
            errored: self.errored,
            bytes_in: self.bytes_in,
            bytes_out: self.bytes_out,
            errors: self.errors@.map_values(|p: (String, String)| (p.0@, p.1@)),
        }
    }
}

/// Addition that stops at `u64::MAX`.
pub open spec fn sat_add(a: u64, b: u64) -> u64 {
    if a + b > u64::MAX {
        u64::MAX
    } else {
        (a + b) as u64
    }
}

pub open spec fn zero_tally() -> Tally {
    Tally {
        processed: 0,
        skipped: 0,
        errored: 0,
        bytes_in: 0,
        bytes_out: 0,
        errors: Seq::empty(),
    }
}

pub open spec fn tally_skip(t: Tally) -> Tally {
    Tally { skipped: sat_add(t.skipped, 1), ..t }
}

pub open spec fn tally_success(t: Tally, bytes_in: u64, bytes_out: u64) -> Tally {
    Tally {
        processed: sat_add(t.processed, 1),
        bytes_in: sat_add(t.bytes_in, bytes_in),
        bytes_out: sat_add(t.bytes_out, bytes_out),
        ..t
    }
}

pub open spec fn tally_failure(t: Tally, path: Seq<char>, message: Seq<char>) -> Tally {
    Tally { errored: sat_add(t.errored, 1), errors: t.errors.push((path, message)), ..t }
}

/// The jobs planned for a list of files: supported files only, in their
/// order, each with its mirrored output path.
pub open spec fn planned(files: Seq<String>, input_dir: Seq<char>, output_dir: Seq<char>) -> Seq<
    (Seq<char>, Seq<char>),
>
    decreases files.len(),
{
    if files.len() == 0 {
        Seq::empty()
    } else {
        let prev = planned(files.drop_last(), input_dir, output_dir);
        let f = files.last()@;
        if kind_of_path(f) != AssetType::Unknown {
            prev.push((f, mirrored(f, input_dir, output_dir)))
        } else {
            prev
        }
    }
}

pub open spec fn job_paths(jobs: Seq<BuildJob>) -> Seq<(Seq<char>, Seq<char>)> {
    jobs.map_values(|j: BuildJob| (j.input@, j.output@))
}

/// Whether a job is handed to the transform.
pub open spec fn transforms(
    records: Map<Seq<char>, CacheEntry>,
    input: Seq<char>,
    config_hash: u64,
    force: bool,
    facts: FileFacts,
) -> bool {
    force || rebuild_needed(records, input, config_hash, facts.output_exists, xxh3_of(facts.content@))
}

/// The records and the tally after one job.
pub open spec fn step(
    records: Map<Seq<char>, CacheEntry>,
    tally: Tally,
    job: BuildJob,
    facts: FileFacts,
    outcome: TransformOutcome,
    config_hash: u64,
    force: bool,
    now: u64,
) -> (Map<Seq<char>, CacheEntry>, Tally) {
    if !transforms(records, job.input@, config_hash, force, facts) {
        (records, tally_skip(tally))
    } else {
        match outcome {
            TransformOutcome::Done { bytes_in, bytes_out } => (
                records.insert(
                    job.input@,
                    fresh_entry(job.output, config_hash, xxh3_of(facts.content@), facts.mtime, now),
                ),
                tally_success(tally, bytes_in, bytes_out),
            ),
            TransformOutcome::Failed { message } => (
                records,
                tally_failure(tally, job.input@, message@),
            ),
        }
    }
}

/// The records and the tally after the jobs, one after another, where
/// `outcomes[i]` is what the transform returns for job `i` if it is called.
pub open spec fn run_batch(
    records: Map<Seq<char>, CacheEntry>,
    tally: Tally,
    jobs: Seq<BuildJob>,
    facts: Seq<FileFacts>,
    outcomes: Seq<TransformOutcome>,
    config_hash: u64,
    force: bool,
    now: u64,
) -> (Map<Seq<char>, CacheEntry>, Tally)
    decreases jobs.len(),
{
    if jobs.len() == 0 {
        (records, tally)
    } else {
        let n = jobs.len() - 1;
        let prev = run_batch(
            records,
            tally,
            jobs.drop_last(),
            facts.subrange(0, n),
            outcomes.subrange(0, n),
            config_hash,
            force,
            now,
        );
        step(prev.0, prev.1, jobs[n], facts[n], outcomes[n], config_hash, force, now)
    }
}

/// The jobs for `files`: unsupported files are left out, and each other
/// file gets its output path under `output_dir`.
pub fn plan_jobs(files: &Vec<String>, input_dir: &str, output_dir: &str) -> (r: Vec<BuildJob>)
    ensures
        job_paths(r@) == planned(files@, input_dir@, output_dir@),
{
    let mut jobs: Vec<BuildJob> = Vec::new();
    let mut i: usize = 0;
    while i < files.len()
        invariant
            i <= files@.len(),
            job_paths(jobs@) == planned(files@.subrange(0, i as int), input_dir@, output_dir@),
        decreases files@.len() - i,
    {
        let f = &files[i];
        let ghost prev = jobs@;
        proof {
            assert(files@.subrange(0, i + 1).drop_last() =~= files@.subrange(0, i as int));
        }
        if AssetType::from_path(f.as_str()) != AssetType::Unknown {
            let output = mirror_path(f.as_str(), input_dir, output_dir);
            jobs.push(BuildJob { input: f.clone(), output });
            proof {
                assert(job_paths(jobs@) =~= job_paths(prev).push((f@, mirrored(f@, input_dir@, output_dir@))));
            }
        }
        i += 1;
    }
    assert(files@.subrange(0, i as int) =~= files@);
    jobs
}

fn sat_add_u64(a: u64, b: u64) -> (r: u64)
    ensures
        r == sat_add(a, b),
{
    a.saturating_add(b)
}

impl BuildStats {
    pub fn new() -> (r: BuildStats)
        ensures
            r@ == zero_tally(),
    {
        let r = BuildStats {
            processed: 0,
            skipped: 0,
            errored: 0,
            bytes_in: 0,
            bytes_out: 0,
            errors: Vec::new(),
        };
        assert(r@.errors =~= Seq::<(Seq<char>, Seq<char>)>::empty());
        r
    }

    /// Counts a file that the cache showed to be up to date.
    pub fn record_skip(&mut self)
        ensures
            final(self)@ == tally_skip(old(self)@),
    {
        self.skipped = sat_add_u64(self.skipped, 1);
    }

    /// Counts a file that was transformed, with its sizes before and after.
    pub fn record_success(&mut self, bytes_in: u64, bytes_out: u64)
        ensures
            final(self)@ == tally_success(old(self)@, bytes_in, bytes_out),
    {
        self.processed = sat_add_u64(self.processed, 1);
        self.bytes_in = sat_add_u64(self.bytes_in, bytes_in);
        self.bytes_out = sat_add_u64(self.bytes_out, bytes_out);
    }

    /// Counts a file whose transform failed, and keeps the failure.
    pub fn record_failure(&mut self, path: String, message: String)
        ensures
            final(self)@ == tally_failure(old(self)@, path@, message@),
    {
        let ghost prev = self.errors@;
        self.errored = sat_add_u64(self.errored, 1);
        self.errors.push((path, message));
        assert(self@.errors =~= old(self)@.errors.push((path@, message@)));
    }
}

/// The state that the workers of one build share: the cache and the tally.
pub struct BuildSession {
    pub cache: BuildCache,
    pub stats: BuildStats,
    pub config_hash: u64,
    pub force: bool,
}

impl BuildSession {
    pub fn new(cache: BuildCache, config_hash: u64, force: bool) -> (r: BuildSession)
        ensures
            r.cache == cache,
            r.stats@ == zero_tally(),
            r.config_hash == config_hash,
            r.force == force,
    {
        BuildSession { cache, stats: BuildStats::new(), config_hash, force }
    }

    /// Decides whether `job` goes to the transform. A job that does not is
    /// counted as skipped here.
    pub fn begin(&mut self, job: &BuildJob, facts: &FileFacts) -> (r: bool)
        ensures
            r == transforms(old(self).cache@, job.input@, old(self).config_hash, old(self).force, *facts),
            final(self).stats@ == if r {
                old(self).stats@
            } else {
                tally_skip(old(self).stats@)
            },
            final(self).cache == old(self).cache,
            final(self).config_hash == old(self).config_hash,
            final(self).force == old(self).force,
    {
        let go = self.force || self.cache.needs_rebuild(
            &job.input,
            self.config_hash,
            facts.output_exists,
            facts.content.as_slice(),
        );
        if !go {
            self.stats.record_skip();
        }
        go
    }

    /// Takes in what the transform returned for `job`: a success is counted
    /// and recorded in the cache, a failure is counted and kept.
    pub fn finish(&mut self, job: BuildJob, facts: &FileFacts, outcome: TransformOutcome, now: u64)
        ensures
            (final(self).cache@, final(self).stats@) == (match outcome {
                TransformOutcome::Done { bytes_in, bytes_out } => (
                    old(self).cache@.insert(
                        job.input@,
                        fresh_entry(job.output, old(self).config_hash, xxh3_of(facts.content@), facts.mtime, now),
                    ),
                    tally_success(old(self).stats@, bytes_in, bytes_out),
                ),
                TransformOutcome::Failed { message } => (
                    old(self).cache@,
                    tally_failure(old(self).stats@, job.input@, message@),
                ),
            }),
            final(self).cache.version == old(self).cache.version,
            final(self).config_hash == old(self).config_hash,
            final(self).force == old(self).force,
    {
        match outcome {
            TransformOutcome::Done { bytes_in, bytes_out } => {
                self.stats.record_success(bytes_in, bytes_out);
                self.cache.update(
                    job.input,
                    job.output,
                    self.config_hash,
                    facts.content.as_slice(),
                    facts.mtime,
                    now,
                );
            },
            TransformOutcome::Failed { message } => {
                self.stats.record_failure(job.input, message);
            },
        }
    }
}

/// No two jobs read the same input.
pub open spec fn distinct_inputs(jobs: Seq<BuildJob>) -> bool {
    forall|a: int, b: int| 0 <= a < b < jobs.len() ==> jobs[a].input@ != jobs[b].input@
}

pub open spec fn all_done(outcomes: Seq<TransformOutcome>) -> bool {
    forall|i: int| 0 <= i < outcomes.len() ==> (#[trigger] outcomes[i]) is Done
}

/// The inputs of the jobs, as a set.
pub open spec fn input_set(jobs: Seq<BuildJob>) -> Set<Seq<char>> {
    Set::new(|k: Seq<char>| exists|i: int| 0 <= i < jobs.len() && (#[trigger] jobs[i]).input@ == k)
}

/// The record of job `i` matches its configuration and its content.
pub open spec fn record_current(
    records: Map<Seq<char>, CacheEntry>,
    jobs: Seq<BuildJob>,
    facts: Seq<FileFacts>,
    config_hash: u64,
    i: int,
) -> bool {
    &&& records.contains_key(jobs[i].input@)
    &&& records[jobs[i].input@].config_hash == config_hash
    &&& records[jobs[i].input@].input_hash == xxh3_of(facts[i].content@)
}

/// A build that starts from an empty cache, and in which every transform
/// succeeds, transforms every job once: all are processed, none skipped,
/// and the cache ends with one fresh record per input.
pub proof fn lemma_fresh_build_processes_every_file(
    jobs: Seq<BuildJob>,
    facts: Seq<FileFacts>,
    outcomes: Seq<TransformOutcome>,
    config_hash: u64,
    force: bool,
    now: u64,
)
    requires
        facts.len() == jobs.len(),
        outcomes.len() == jobs.len(),
        jobs.len() < u64::MAX,
        distinct_inputs(jobs),
        all_done(outcomes),
    ensures
        ({
            let r = run_batch(Map::empty(), zero_tally(), jobs, facts, outcomes, config_hash, force, now);
            &&& r.1.processed == jobs.len()
            &&& r.1.skipped == 0
            &&& r.1.errored == 0
            &&& r.1.errors == Seq::<(Seq<char>, Seq<char>)>::empty()
            &&& r.0.dom() == input_set(jobs)
            &&& forall|i: int|
                0 <= i < jobs.len() ==> r.0[(#[trigger] jobs[i]).input@] == fresh_entry(
                    jobs[i].output,
                    config_hash,
                    xxh3_of(facts[i].content@),
                    facts[i].mtime,
                    now,
                )
        }),
    decreases jobs.len(),
{
    if jobs.len() > 0 {
        let n = jobs.len() - 1;
        let pj = jobs.drop_last();
        let pf = facts.subrange(0, n);
        let po = outcomes.subrange(0, n);
        assert forall|i: int| 0 <= i < po.len() implies (#[trigger] po[i]) is Done by {
            assert(po[i] == outcomes[i]);
        }
        lemma_fresh_build_processes_every_file(pj, pf, po, config_hash, force, now);
        let prev = run_batch(Map::empty(), zero_tally(), pj, pf, po, config_hash, force, now);
        assert(!prev.0.contains_key(jobs[n].input@)) by {
            if prev.0.contains_key(jobs[n].input@) {
                assert(input_set(pj).contains(jobs[n].input@));
                let i = choose|i: int| 0 <= i < pj.len() && (#[trigger] pj[i]).input@ == jobs[n].input@;
                assert(jobs[i].input@ != jobs[n].input@);
            }
        }
        assert(outcomes[n] is Done);
        let r = run_batch(Map::empty(), zero_tally(), jobs, facts, outcomes, config_hash, force, now);
        assert(r.0.dom() =~= input_set(jobs)) by {
            assert forall|k: Seq<char>| #[trigger] input_set(jobs).contains(k) implies r.0.dom().contains(k) by {
                let i = choose|i: int| 0 <= i < jobs.len() && (#[trigger] jobs[i]).input@ == k;
                if i < n {
                    assert(pj[i] == jobs[i]);
                    assert(input_set(pj).contains(k));
                }
            }
            assert forall|k: Seq<char>| r.0.dom().contains(k) implies #[trigger] input_set(jobs).contains(k) by {
                if k != jobs[n].input@ {
                    assert(input_set(pj).contains(k));
                    let i = choose|i: int| 0 <= i < pj.len() && (#[trigger] pj[i]).input@ == k;
                    assert(jobs[i] == pj[i]);
                }
            }
        }
        assert forall|i: int| 0 <= i < jobs.len() implies r.0[(#[trigger] jobs[i]).input@] == fresh_entry(
            jobs[i].output,
            config_hash,
            xxh3_of(facts[i].content@),
            facts[i].mtime,
            now,
        ) by {
            if i < n {
                assert(pj[i] == jobs[i]);
                assert(pf[i] == facts[i]);
                assert(jobs[i].input@ != jobs[n].input@);
            }
        }
    }
}

/// A build without `force`, in which every transform succeeds, leaves every
/// job's record current; a second build of the same jobs, with the same
/// configuration, unchanged contents and the outputs in place, transforms
/// nothing: every job is skipped and the cache is left as it was.
pub proof fn lemma_second_build_skips_every_file(
    records: Map<Seq<char>, CacheEntry>,
    jobs: Seq<BuildJob>,
    facts: Seq<FileFacts>,
    outcomes: Seq<TransformOutcome>,
    later_facts: Seq<FileFacts>,
    later_outcomes: Seq<TransformOutcome>,
    config_hash: u64,
    now: u64,
    later_now: u64,
)
    requires
        facts.len() == jobs.len(),
        outcomes.len() == jobs.len(),
        later_facts.len() == jobs.len(),
        later_outcomes.len() == jobs.len(),
        jobs.len() < u64::MAX,
        distinct_inputs(jobs),
        all_done(outcomes),
        forall|i: int|
            0 <= i < jobs.len() ==> {
                &&& (#[trigger] later_facts[i]).content@ == facts[i].content@
                &&& later_facts[i].output_exists
            },
    ensures
        ({
            let first = run_batch(records, zero_tally(), jobs, facts, outcomes, config_hash, false, now);
            let second = run_batch(
                first.0,
                zero_tally(),
                jobs,
                later_facts,
                later_outcomes,
                config_hash,
                false,
                later_now,
            );
            &&& forall|i: int| 0 <= i < jobs.len() ==> #[trigger] record_current(first.0, jobs, facts, config_hash, i)
            &&& second.0 == first.0
            &&& second.1.processed == 0
            &&& second.1.skipped == jobs.len()
            &&& second.1.errored == 0
        }),
{
    lemma_successful_build_leaves_records_current(records, jobs, facts, outcomes, config_hash, now);
    let first = run_batch(records, zero_tally(), jobs, facts, outcomes, config_hash, false, now);
    assert forall|i: int| 0 <= i < jobs.len() implies #[trigger] record_current(first.0, jobs, later_facts, config_hash, i) by {
        assert(record_current(first.0, jobs, facts, config_hash, i));
        assert(later_facts[i].content@ == facts[i].content@);
    }
    lemma_current_build_skips_every_file(first.0, jobs, later_facts, later_outcomes, config_hash, later_now);
}

proof fn lemma_successful_build_leaves_records_current(
    records: Map<Seq<char>, CacheEntry>,
    jobs: Seq<BuildJob>,
    facts: Seq<FileFacts>,
    outcomes: Seq<TransformOutcome>,
    config_hash: u64,
    now: u64,
)
    requires
        facts.len() == jobs.len(),
        outcomes.len() == jobs.len(),
        distinct_inputs(jobs),
        all_done(outcomes),
    ensures
        forall|i: int|
            0 <= i < jobs.len() ==> #[trigger] record_current(
                run_batch(records, zero_tally(), jobs, facts, outcomes, config_hash, false, now).0,
                jobs,
                facts,
                config_hash,
                i,
            ),
    decreases jobs.len(),
{
    if jobs.len() > 0 {
        let n = jobs.len() - 1;
        let pj = jobs.drop_last();
        let pf = facts.subrange(0, n);
        let po = outcomes.subrange(0, n);
        assert forall|i: int| 0 <= i < po.len() implies (#[trigger] po[i]) is Done by {
            assert(po[i] == outcomes[i]);
        }
        lemma_successful_build_leaves_records_current(records, pj, pf, po, config_hash, now);
        let prev = run_batch(records, zero_tally(), pj, pf, po, config_hash, false, now);
        let r = run_batch(records, zero_tally(), jobs, facts, outcomes, config_hash, false, now);
        assert(outcomes[n] is Done);
        assert forall|i: int| 0 <= i < jobs.len() implies #[trigger] record_current(r.0, jobs, facts, config_hash, i) by {
            if i < n {
                assert(record_current(prev.0, pj, pf, config_hash, i));
                assert(pj[i] == jobs[i]);
                assert(pf[i] == facts[i]);
                assert(jobs[i].input@ != jobs[n].input@);
            }
        }
    }
}

proof fn lemma_current_build_skips_every_file(
    records: Map<Seq<char>, CacheEntry>,
    jobs: Seq<BuildJob>,
    facts: Seq<FileFacts>,
    outcomes: Seq<TransformOutcome>,
    config_hash: u64,
    now: u64,
)
    requires
        facts.len() == jobs.len(),
        outcomes.len() == jobs.len(),
        jobs.len() < u64::MAX,
        forall|i: int| 0 <= i < jobs.len() ==> #[trigger] record_current(records, jobs, facts, config_hash, i),
        forall|i: int| 0 <= i < jobs.len() ==> (#[trigger] facts[i]).output_exists,
    ensures
        ({
            let r = run_batch(records, zero_tally(), jobs, facts, outcomes, config_hash, false, now);
            &&& r.0 == records
            &&& r.1.processed == 0
            &&& r.1.skipped == jobs.len()
            &&& r.1.errored == 0
        }),
    decreases jobs.len(),
{
    if jobs.len() > 0 {
        let n = jobs.len() - 1;
        let pj = jobs.drop_last();
        let pf = facts.subrange(0, n);
        let po = outcomes.subrange(0, n);
        assert forall|i: int| 0 <= i < pj.len() implies #[trigger] record_current(records, pj, pf, config_hash, i) by {
            assert(record_current(records, jobs, facts, config_hash, i));
            assert(pj[i] == jobs[i]);
            assert(pf[i] == facts[i]);
        }
        assert forall|i: int| 0 <= i < pj.len() implies (#[trigger] pf[i]).output_exists by {
            assert(facts[i].output_exists);
        }
        lemma_current_build_skips_every_file(records, pj, pf, po, config_hash, now);
        assert(record_current(records, jobs, facts, config_hash, n));
        assert(facts[n].output_exists);
    }
}

/// When every job reaches the transform (forced, or no record yet) and
/// exactly one transform fails, every other file is still processed: the
/// count of processed files is one less than the number of jobs, one error
/// is counted, and the failure list holds exactly the failed input.
pub proof fn lemma_one_failure_is_isolated(
    records: Map<Seq<char>, CacheEntry>,
    jobs: Seq<BuildJob>,
    facts: Seq<FileFacts>,
    outcomes: Seq<TransformOutcome>,
    config_hash: u64,
    force: bool,
    now: u64,
    bad: int,
)
    requires
        facts.len() == jobs.len(),
        outcomes.len() == jobs.len(),
        jobs.len() < u64::MAX,
        distinct_inputs(jobs),
        0 <= bad < jobs.len(),
        outcomes[bad] is Failed,
        forall|i: int| 0 <= i < jobs.len() && i != bad ==> (#[trigger] outcomes[i]) is Done,
        forall|i: int| 0 <= i < jobs.len() ==> force || !records.contains_key((#[trigger] jobs[i]).input@),
    ensures
        ({
            let r = run_batch(records, zero_tally(), jobs, facts, outcomes, config_hash, force, now);
            &&& r.1.processed == jobs.len() - 1
            &&& r.1.errored == 1
            &&& r.1.skipped == 0
            &&& r.1.errors == seq![(jobs[bad].input@, outcomes[bad]->message@)]
        }),
{
    lemma_failures_counted(records, jobs, facts, outcomes, config_hash, force, now, bad);
}

proof fn lemma_failures_counted(
    records: Map<Seq<char>, CacheEntry>,
    jobs: Seq<BuildJob>,
    facts: Seq<FileFacts>,
    outcomes: Seq<TransformOutcome>,
    config_hash: u64,
    force: bool,
    now: u64,
    bad: int,
)
    requires
        facts.len() == jobs.len(),
        outcomes.len() == jobs.len(),
        jobs.len() < u64::MAX,
        distinct_inputs(jobs),
        0 <= bad,
        bad < jobs.len() ==> outcomes[bad] is Failed,
        forall|i: int| 0 <= i < jobs.len() && i != bad ==> (#[trigger] outcomes[i]) is Done,
        forall|i: int| 0 <= i < jobs.len() ==> force || !records.contains_key((#[trigger] jobs[i]).input@),
    ensures
        ({
            let r = run_batch(records, zero_tally(), jobs, facts, outcomes, config_hash, force, now);
            &&& r.1.processed == if bad < jobs.len() { jobs.len() - 1 } else { jobs.len() as int }
            &&& r.1.errored == if bad < jobs.len() { 1int } else { 0 }
            &&& r.1.skipped == 0
            &&& r.1.errors == if bad < jobs.len() {
                seq![(jobs[bad].input@, outcomes[bad]->message@)]
            } else {
                Seq::<(Seq<char>, Seq<char>)>::empty()
            }
            &&& forall|k: Seq<char>| #[trigger] r.0.contains_key(k) ==> records.contains_key(k) || input_set(jobs).contains(k)
        }),
    decreases jobs.len(),
{
    if jobs.len() > 0 {
        let n = jobs.len() - 1;
        let pj = jobs.drop_last();
        let pf = facts.subrange(0, n);
        let po = outcomes.subrange(0, n);
        assert forall|i: int| 0 <= i < pj.len() && i != bad implies (#[trigger] po[i]) is Done by {
            assert(po[i] == outcomes[i]);
        }
        assert forall|i: int| 0 <= i < pj.len() implies force || !records.contains_key((#[trigger] pj[i]).input@) by {
            assert(pj[i] == jobs[i]);
        }
        if bad < n {
            assert(po[bad] == outcomes[bad]);
        }
        lemma_failures_counted(records, pj, pf, po, config_hash, force, now, bad);
        let prev = run_batch(records, zero_tally(), pj, pf, po, config_hash, force, now);
        assert(!prev.0.contains_key(jobs[n].input@) || force) by {
            if prev.0.contains_key(jobs[n].input@) && !force {
                assert(!records.contains_key(jobs[n].input@));
                assert(input_set(pj).contains(jobs[n].input@));
                let i = choose|i: int| 0 <= i < pj.len() && (#[trigger] pj[i]).input@ == jobs[n].input@;
                assert(jobs[i].input@ != jobs[n].input@);
            }
        }
        let r = run_batch(records, zero_tally(), jobs, facts, outcomes, config_hash, force, now);
        assert forall|k: Seq<char>| #[trigger] r.0.contains_key(k) implies records.contains_key(k) || input_set(jobs).contains(k) by {
            if k != jobs[n].input@ && !records.contains_key(k) {
                assert(input_set(pj).contains(k));
                let i = choose|i: int| 0 <= i < pj.len() && (#[trigger] pj[i]).input@ == k;
                assert(jobs[i] == pj[i]);
            }
        }
        if bad == n {
            assert(prev.1.errors =~= Seq::<(Seq<char>, Seq<char>)>::empty());
            assert(r.1.errors =~= seq![(jobs[bad].input@, outcomes[bad]->message@)]);
        } else {
            assert(outcomes[n] is Done);
            if bad < n {
                assert(pj[bad] == jobs[bad]);
            }
        }
    }
}

} // verus!
