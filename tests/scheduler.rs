use asset_forge::{hash_data, plan_jobs, BuildCache, BuildJob, BuildSession, BuildStats, FileFacts, TransformOutcome};

fn facts(content: &[u8]) -> FileFacts {
    FileFacts { content: content.to_vec(), mtime: 50, output_exists: true }
}

fn job(i: usize) -> BuildJob {
    BuildJob { input: format!("assets/f{}.png", i), output: format!("out/f{}.png", i) }
}

/// Runs every job through the session, with `fail` naming the job whose
/// transform fails; returns how many transforms were called.
fn run(session: &mut BuildSession, n: usize, fail: Option<usize>) -> usize {
    let mut calls = 0;
    for i in 0..n {
        let j = job(i);
        let f = facts(format!("content {}", i).as_bytes());
        if session.begin(&j, &f) {
            calls += 1;
            let outcome = if fail == Some(i) {
                TransformOutcome::Failed { message: "decode error".to_string() }
            } else {
                TransformOutcome::Done { bytes_in: 100, bytes_out: 60 }
            };
            session.finish(j, &f, outcome, 1000);
        }
    }
    calls
}

#[test]
fn second_build_skips_everything() {
    let mut first = BuildSession::new(BuildCache::new(), 42, false);
    assert_eq!(run(&mut first, 10, None), 10);
    assert_eq!(first.stats.processed, 10);
    assert_eq!(first.stats.skipped, 0);
    assert_eq!(first.stats.errored, 0);
    assert_eq!(first.stats.bytes_in, 1000);
    assert_eq!(first.stats.bytes_out, 600);
    assert_eq!(first.cache.entries.len(), 10);

    let mut second = BuildSession::new(first.cache, 42, false);
    assert_eq!(run(&mut second, 10, None), 0);
    assert_eq!(second.stats.processed, 0);
    assert_eq!(second.stats.skipped, 10);
    assert_eq!(second.cache.entries.len(), 10);
}

#[test]
fn forced_build_transforms_everything() {
    let mut first = BuildSession::new(BuildCache::new(), 42, false);
    run(&mut first, 4, None);
    let mut again = BuildSession::new(first.cache, 42, true);
    assert_eq!(run(&mut again, 4, None), 4);
    assert_eq!(again.stats.processed, 4);
    assert_eq!(again.stats.skipped, 0);
}

#[test]
fn config_change_rebuilds_everything() {
    let mut first = BuildSession::new(BuildCache::new(), 42, false);
    run(&mut first, 3, None);
    let mut again = BuildSession::new(first.cache, 43, false);
    assert_eq!(run(&mut again, 3, None), 3);
}

#[test]
fn one_failure_does_not_stop_the_batch() {
    let mut s = BuildSession::new(BuildCache::new(), 1, false);
    assert_eq!(run(&mut s, 10, Some(4)), 10);
    assert_eq!(s.stats.processed, 9);
    assert_eq!(s.stats.errored, 1);
    assert_eq!(s.stats.errors, vec![("assets/f4.png".to_string(), "decode error".to_string())]);
    assert_eq!(s.cache.entries.len(), 9);
    assert!(!s.cache.entries.contains_key(&"assets/f4.png".to_string()));

    // The failed file is retried on the next build; the rest are skipped.
    let mut again = BuildSession::new(s.cache, 1, false);
    assert_eq!(run(&mut again, 10, None), 1);
    assert_eq!(again.stats.skipped, 9);
    assert_eq!(again.stats.processed, 1);
}

#[test]
fn finished_job_is_recorded_with_its_content_hash() {
    let mut s = BuildSession::new(BuildCache::new(), 5, false);
    let j = job(0);
    let f = facts(b"pixels");
    assert!(s.begin(&j, &f));
    s.finish(j, &f, TransformOutcome::Done { bytes_in: 10, bytes_out: 4 }, 777);
    let e = s.cache.entries.get(&"assets/f0.png".to_string()).unwrap();
    assert_eq!(e.input_hash, hash_data(b"pixels"));
    assert_eq!(e.config_hash, 5);
    assert_eq!(e.output_path, "out/f0.png");
    assert_eq!(e.mtime, 50);
    assert_eq!(e.processed_at, 777);
}

#[test]
fn counters_saturate() {
    let mut st = BuildStats::new();
    st.bytes_in = u64::MAX - 1;
    st.record_success(5, 1);
    assert_eq!(st.bytes_in, u64::MAX);
    assert_eq!(st.processed, 1);
    st.skipped = u64::MAX;
    st.record_skip();
    assert_eq!(st.skipped, u64::MAX);
}

#[test]
fn plan_drops_unsupported_and_mirrors_paths() {
    let files = vec![
        "assets/a.png".to_string(),
        "assets/notes.txt".to_string(),
        "assets/sfx/b.wav".to_string(),
        "assets/m/c.glb".to_string(),
    ];
    let jobs = plan_jobs(&files, "assets", "build");
    let pairs: Vec<(String, String)> = jobs.into_iter().map(|j| (j.input, j.output)).collect();
    assert_eq!(
        pairs,
        vec![
            ("assets/a.png".to_string(), "build/a.png".to_string()),
            ("assets/sfx/b.wav".to_string(), "build/sfx/b.wav".to_string()),
            ("assets/m/c.glb".to_string(), "build/m/c.glb".to_string()),
        ]
    );
    assert!(plan_jobs(&vec![], "assets", "build").is_empty());
}
