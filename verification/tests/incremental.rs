use filter::{IncrementalMatcher, Match, Matcher, OwnedLine, Progress, Session, TopK};

fn owned(path: &str, line: &str) -> OwnedLine {
    OwnedLine { path: path.to_string(), line: line.to_string() }
}

fn sample_lines() -> Vec<OwnedLine> {
    let names = [
        "src/main.rs",
        "src/matcher.rs",
        "src/ffi.rs",
        "README.md",
        "Cargo.toml",
        "tests/unit.rs",
        "benches/main.rs",
        "lua/sylph.lua",
        "lua/sylph/main.lua",
        "doc/sylph.txt",
        "src/mainframe.rs",
        "plugin/sylph.vim",
        "Makefile",
        "build.rs",
        "src/lib.rs",
        "misc/remain.txt",
        "target/debug/main",
        "notes/m a i n.txt",
        "a/b/c/d/e/main.c",
        "zzz",
        "src/domain.rs",
        "maintainers",
        "MAIN",
    ];
    names.iter().enumerate().map(|(i, name)| owned(&format!("path{}", i % 7), name)).collect()
}

fn run_incremental(
    matcher: &mut Matcher,
    query: &str,
    k: u64,
    batches: Vec<Vec<OwnedLine>>,
    chunk: usize,
) -> Vec<Match> {
    let mut inc: IncrementalMatcher<OwnedLine> =
        matcher.incremental_match(query.to_string(), "ctx".to_string(), k);
    for batch in batches {
        inc.feed_lines(batch);
        // Work a little between the batches, as a worker would.
        let _ = inc.process(chunk);
    }
    let mut progress = inc.process(chunk);
    let mut steps = 0;
    while progress == Progress::Working {
        progress = inc.process(chunk);
        steps += 1;
        assert!(steps < 1000);
    }
    match progress {
        Progress::Done(results) => results,
        Progress::Working => unreachable!(),
    }
}

#[test]
fn incremental_same_as_batch() {
    let mut matcher = Matcher::new();
    matcher.update("path3");
    matcher.update("path5");
    let lines = sample_lines();
    for query in ["", "main", "sy", "src", "M", "zzzz", "rs"] {
        let mtchs_batch = matcher.best_matches(query, "ctx", 5, &lines);
        let mut inc_matcher = matcher.incremental_match(query.to_string(), "ctx".to_string(), 5);
        inc_matcher.feed_lines(lines.clone());
        let mut progress = inc_matcher.process(10);
        while progress == Progress::Working {
            progress = inc_matcher.process(10);
        }
        match progress {
            Progress::Done(results) => {
                assert_eq!(mtchs_batch.len(), results.len());
                for i in 0..mtchs_batch.len() {
                    assert!(
                        mtchs_batch[i] == results[i],
                        "{}th result:\n{:#?}\nvs\n{:#?}",
                        i,
                        mtchs_batch[i],
                        results[i]
                    )
                }
            }
            _ => assert!(false),
        }
    }
}

#[test]
fn incremental_same_for_any_batches_and_chunks() {
    let mut matcher = Matcher::new();
    matcher.update("path1");
    matcher.update("path2");
    matcher.update("path1");
    let lines = sample_lines();
    for query in ["", "main", "s"] {
        for k in [0u64, 1, 3, 5, 100] {
            let batch = matcher.best_matches(query, "ctx", k, &lines);
            assert_eq!(batch.len() as u64, k.min(batch.len() as u64));
            for chunk in [1usize, 2, 7, 23, 10_000, usize::MAX] {
                for split in [1usize, 4, 23] {
                    let batches: Vec<Vec<OwnedLine>> =
                        lines.chunks(split).map(|c| c.to_vec()).collect();
                    let got = run_incremental(&mut matcher, query, k, batches, chunk);
                    assert_eq!(got, batch, "query {:?} k {} chunk {} split {}", query, k, chunk, split);
                }
            }
        }
    }
}

#[test]
fn incremental_process_reports_progress() {
    let mut matcher = Matcher::new();
    let mut inc = matcher.incremental_match("".to_string(), "".to_string(), 2);
    // Nothing fed: done at once, with nothing.
    assert_eq!(inc.process(10), Progress::Done(vec![]));
    inc.feed_lines(vec![owned("a", "1"), owned("b", "2"), owned("c", "3")]);
    assert_eq!(inc.process(2), Progress::Working);
    let done = inc.process(2);
    let expected = vec![
        Match { index: 0, score: 0, context_score: 0, query_score: 0, frequency_score: 0 },
        Match { index: 1, score: 0, context_score: 0, query_score: 0, frequency_score: 0 },
    ];
    assert_eq!(done, Progress::Done(expected.clone()));
    // Processing again after the end changes nothing.
    assert_eq!(inc.process(2), Progress::Done(expected.clone()));
    assert_eq!(inc.process(0), Progress::Done(expected));
}

#[test]
fn incremental_process_zero_lines_makes_no_progress() {
    let mut matcher = Matcher::new();
    let mut inc = matcher.incremental_match("".to_string(), "".to_string(), 2);
    inc.feed_lines(vec![owned("a", "1")]);
    assert_eq!(inc.process(0), Progress::Working);
    assert_eq!(inc.process(0), Progress::Working);
    assert!(matches!(inc.process(1), Progress::Done(_)));
}

#[test]
fn incremental_indices_are_absolute() {
    let mut matcher = Matcher::new();
    let mut inc = matcher.incremental_match("x".to_string(), "".to_string(), 10);
    inc.feed_lines(vec![owned("a", "no"), owned("b", "x1")]);
    assert!(matches!(inc.process(1), Progress::Working));
    inc.feed_lines(vec![owned("c", "no"), owned("d", "x2"), owned("e", "x3")]);
    let mut progress = inc.process(2);
    while progress == Progress::Working {
        progress = inc.process(2);
    }
    match progress {
        Progress::Done(results) => {
            let mut indices: Vec<usize> = results.iter().map(|m| m.index).collect();
            indices.sort();
            assert_eq!(indices, vec![1, 3, 4]);
        }
        Progress::Working => unreachable!(),
    }
}

#[test]
fn session_steps_with_a_lent_matcher() {
    let mut matcher = Matcher::new();
    matcher.update("b");
    let mut session: Session<OwnedLine> =
        Session::new(&matcher, "".to_string(), "".to_string(), 1);
    assert!(session.caught_up());
    session.feed_lines(vec![owned("a", "1"), owned("b", "2")]);
    assert_eq!(session.num_lines(), 2);
    assert_eq!(session.progressed_to(), 0);
    assert!(!session.caught_up());
    assert_eq!(session.process(&mut matcher, 1), Progress::Working);
    assert_eq!(session.progressed_to(), 1);
    match session.process(&mut matcher, 5) {
        Progress::Done(results) => {
            assert_eq!(results.len(), 1);
            assert_eq!(results[0].index, 1);
        }
        Progress::Working => unreachable!(),
    }
    assert_eq!(session.progressed_to(), 2);
}

fn plain(index: usize, score: u64) -> Match {
    Match { index, score, context_score: 0, query_score: score, frequency_score: 0 }
}

#[test]
fn topk_keeps_the_best_in_rank_order() {
    let mut selector = TopK::new(3);
    assert_eq!(selector.limit(), 3);
    assert_eq!(selector.len(), 0);
    assert_eq!(selector.sorted(), vec![]);
    let scores = [5u64, 1, 9, 5, 7, 0, 9, 3];
    for (index, score) in scores.iter().enumerate() {
        selector.offer(plain(index, *score));
    }
    assert_eq!(selector.len(), 3);
    assert_eq!(selector.sorted(), vec![plain(2, 9), plain(6, 9), plain(4, 7)]);
    // Sorting leaves the selector as it is.
    assert_eq!(selector.sorted(), vec![plain(2, 9), plain(6, 9), plain(4, 7)]);
    // An equal score with a later index does not displace the root.
    selector.offer(plain(8, 7));
    assert_eq!(selector.sorted(), vec![plain(2, 9), plain(6, 9), plain(4, 7)]);
    selector.offer(plain(9, 8));
    assert_eq!(selector.sorted(), vec![plain(2, 9), plain(6, 9), plain(9, 8)]);
}

#[test]
fn topk_with_room_keeps_everything() {
    let mut selector = TopK::new(10);
    selector.offer(plain(0, 1));
    selector.offer(plain(1, 3));
    selector.offer(plain(2, 2));
    selector.offer(plain(3, 3));
    assert_eq!(selector.len(), 4);
    assert_eq!(selector.sorted(), vec![plain(1, 3), plain(3, 3), plain(2, 2), plain(0, 1)]);
}

#[test]
fn topk_of_limit_zero_keeps_nothing() {
    let mut selector = TopK::new(0);
    selector.offer(plain(0, 100));
    assert_eq!(selector.len(), 0);
    assert!(selector.sorted().is_empty());
}

#[test]
fn topk_takes_any_limit() {
    let mut selector = TopK::new(usize::MAX);
    selector.offer(plain(usize::MAX, u64::MAX));
    selector.offer(plain(0, u64::MAX));
    assert_eq!(selector.sorted(), vec![plain(0, u64::MAX), plain(usize::MAX, u64::MAX)]);
}
