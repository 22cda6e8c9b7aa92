use filter::{
    decay, rank_order, FrequencyCounter, Line, Match, Matcher, OwnedLine, FREQUENCY_WEIGHT,
    SCORE_UNIT,
};
use std::cmp::Ordering;

struct Entry {
    name: &'static str,
    file: &'static str,
}

impl Line for Entry {
    fn path(&self) -> &str {
        self.file
    }

    fn line(&self) -> &str {
        self.name
    }
}

#[test]
fn best_matches_takes_any_line_type() {
    let mut matcher = Matcher::new();
    matcher.update("b.rs");
    let entries = vec![
        Entry { name: "alpha", file: "a.rs" },
        Entry { name: "beta", file: "b.rs" },
        Entry { name: "alphabet", file: "c.rs" },
    ];
    let result = matcher.best_matches("", "", 2, &entries);
    let order: Vec<usize> = result.iter().map(|m| m.index).collect();
    assert_eq!(order, vec![1, 0]);
    let owned: Vec<OwnedLine> = entries
        .iter()
        .map(|e| OwnedLine { path: e.path().to_string(), line: e.line().to_string() })
        .collect();
    assert_eq!(matcher.best_matches("alp", "", 5, &entries), matcher.best_matches("alp", "", 5, &owned));
}

fn owned(path: &str, line: &str) -> OwnedLine {
    OwnedLine { path: path.to_string(), line: line.to_string() }
}

#[test]
fn decay_is_the_rounded_exponential() {
    for age in 0..40usize {
        let exact = (-(age as f64)).exp() * SCORE_UNIT as f64;
        assert_eq!(decay(age), exact.round() as u64, "age {}", age);
    }
    assert_eq!(decay(0), 1_000_000_000);
    assert_eq!(decay(1), 367_879_441);
    assert_eq!(decay(2), 135_335_283);
    assert_eq!(decay(21), 1);
    assert_eq!(decay(22), 0);
    assert_eq!(decay(usize::MAX), 0);
}

#[test]
fn frecency_of_unknown_path_is_zero() {
    let counter = FrequencyCounter::new();
    assert_eq!(counter.score("nowhere"), 0);
    assert_eq!(counter.age("nowhere"), None);
    assert_eq!(counter.clock(), 0);
}

#[test]
fn frecency_decays_with_each_other_selection() {
    let mut counter = FrequencyCounter::new();
    counter.update("p");
    assert_eq!(counter.age("p"), Some(0));
    assert_eq!(counter.score("p"), SCORE_UNIT);
    counter.update("q");
    assert_eq!(counter.age("p"), Some(1));
    assert_eq!(counter.score("p"), 367_879_441);
    assert_eq!(counter.score("q"), SCORE_UNIT);
    counter.update("q");
    assert_eq!(counter.age("p"), Some(2));
    assert_eq!(counter.score("p"), 135_335_283);
    assert_eq!(counter.clock(), 3);
}

#[test]
fn frecency_rises_on_selection() {
    let mut counter = FrequencyCounter::new();
    counter.update("p");
    counter.update("q");
    let before = counter.score("p");
    counter.update("p");
    assert!(counter.score("p") > before);
    assert_eq!(counter.score("p"), SCORE_UNIT);
    let again = counter.score("p");
    counter.update("p");
    assert_eq!(counter.score("p"), again);
}

#[test]
fn frecency_forgets_least_recent_path_when_full() {
    let mut counter = FrequencyCounter::new();
    for i in 0..20 {
        counter.update(&format!("path{}", i));
    }
    assert_eq!(counter.age("path0"), Some(19));
    // Selecting a remembered path evicts nothing.
    counter.update("path0");
    assert_eq!(counter.age("path0"), Some(0));
    assert_eq!(counter.age("path1"), Some(19));
    // A new path evicts the least recently selected one, which is path1.
    counter.update("fresh");
    assert_eq!(counter.age("path1"), None);
    assert_eq!(counter.score("path1"), 0);
    assert_eq!(counter.age("path2"), Some(19));
    assert_eq!(counter.age("path0"), Some(1));
    assert_eq!(counter.age("fresh"), Some(0));
}

#[test]
fn score_is_sum_of_parts() {
    let mut matcher = Matcher::new();
    matcher.update("a");
    let m = matcher.score("foo", "", 7, "foobar", "a").unwrap();
    assert_eq!(m.index, 7);
    assert_eq!(m.context_score, 0);
    assert_eq!(m.frequency_score, FREQUENCY_WEIGHT * SCORE_UNIT);
    assert!(m.query_score > 0);
    assert_eq!(m.query_score % SCORE_UNIT, 0);
    assert_eq!(m.score, m.context_score + m.query_score + m.frequency_score);
}

#[test]
fn score_frequency_is_ten_times_decay() {
    let mut matcher = Matcher::new();
    matcher.update("a");
    matcher.update("b");
    let m = matcher.score("", "", 0, "anything", "a").unwrap();
    assert_eq!(m.frequency_score, 3_678_794_410);
    let as_float = m.frequency_score as f64 / SCORE_UNIT as f64;
    assert!((as_float - 10.0 * (-1.0f64).exp()).abs() < 1e-8);
    assert_eq!(m.query_score, 0);
    assert_eq!(m.score, 3_678_794_410);
}

#[test]
fn score_excludes_line_without_match() {
    let mut matcher = Matcher::new();
    matcher.update("b");
    assert_eq!(matcher.score("foo", "", 0, "xyz", "b"), None);
    assert!(matcher.score("", "", 0, "xyz", "b").is_some());
}

#[test]
fn score_same_inputs_same_result() {
    let mut matcher = Matcher::new();
    matcher.update("p");
    let first = matcher.score("main", "ctx", 3, "src/main.rs", "p");
    let second = matcher.score("main", "ctx", 3, "src/main.rs", "p");
    assert_eq!(first, second);
    assert!(first.is_some());
}

#[test]
fn score_prefers_basename_match() {
    let mut matcher = Matcher::new();
    // The query matches the basename: the basename's score counts.
    let in_path = matcher.score("main", "", 0, "src/main.rs", "x").unwrap();
    let alone = matcher.score("main", "", 0, "main.rs", "x").unwrap();
    assert_eq!(in_path.query_score, alone.query_score);
    // The query matches only across the directory: the whole line counts.
    let across = matcher.score("srcm", "", 0, "src/main.rs", "x");
    assert!(across.is_some());
    // A trailing slash leaves an empty basename, which nothing matches.
    let dir = matcher.score("src", "", 0, "src/", "x").unwrap();
    let plain = matcher.score("src", "", 0, "src", "x").unwrap();
    assert!(dir.query_score > 0);
    assert!(plain.query_score > 0);
}

#[test]
fn score_is_smart_case() {
    let mut matcher = Matcher::new();
    assert!(matcher.score("abc", "", 0, "ABC", "p").is_some());
    assert!(matcher.score("abc", "", 0, "abc", "p").is_some());
    assert!(matcher.score("Abc", "", 0, "Abc", "p").is_some());
    assert_eq!(matcher.score("Abc", "", 0, "abc", "p"), None);
}

#[test]
fn score_skips_overlong_query() {
    let mut matcher = Matcher::new();
    let long: String = std::iter::repeat('a').take(2049).collect();
    assert_eq!(matcher.score(&long, "", 0, &long, "p"), None);
    let fits: String = std::iter::repeat('a').take(2048).collect();
    assert!(matcher.score(&fits, "", 0, &fits, "p").is_some());
}

#[test]
fn score_handles_non_ascii_text() {
    let mut matcher = Matcher::new();
    let m = matcher.score("ne", "", 0, "dossier/année.txt", "p").unwrap();
    let plain = matcher.score("ne", "", 0, "annee.txt", "p").unwrap();
    assert_eq!(m.query_score, plain.query_score);
    assert_eq!(matcher.score("zz", "", 0, "dossier/année.txt", "p"), None);
}

#[test]
fn match_ranks_by_score_then_index() {
    let a = Match { index: 0, score: 5, context_score: 0, query_score: 5, frequency_score: 0 };
    let b = Match { index: 1, score: 5, context_score: 0, query_score: 5, frequency_score: 0 };
    let c = Match { index: 2, score: 6, context_score: 0, query_score: 6, frequency_score: 0 };
    assert!(a.ranks_before(&b));
    assert!(!b.ranks_before(&a));
    assert!(c.ranks_before(&a));
    assert!(!a.ranks_before(&c));
    assert!(!a.ranks_before(&a));
    assert_eq!(rank_order(&a, &b), Ordering::Less);
    assert_eq!(rank_order(&b, &a), Ordering::Greater);
    assert_eq!(rank_order(&c, &a), Ordering::Less);
    assert_eq!(rank_order(&a, &c), Ordering::Greater);
    assert_eq!(rank_order(&a, &a), Ordering::Equal);
}

#[test]
fn best_matches_sorts_many_ties_and_scores() {
    let mut matcher = Matcher::new();
    let paths = ["p0", "p1", "p2", "p3", "p4"];
    for path in paths.iter().rev() {
        matcher.update(path);
    }
    // Forty lines over five paths and three without frecency.
    let lines: Vec<OwnedLine> = (0..40)
        .map(|i| {
            let path = if i % 8 < 5 { paths[i % 8].to_string() } else { format!("cold{}", i) };
            OwnedLine { path, line: format!("line {}", i) }
        })
        .collect();
    let result = matcher.best_matches("", "", 40, &lines);
    assert_eq!(result.len(), 40);
    for pair in result.windows(2) {
        assert!(pair[0].ranks_before(&pair[1]), "{:?} before {:?}", pair[0], pair[1]);
    }
    assert_eq!(result[0].index, 0);
    assert_eq!(result[4].index, 32);
    assert_eq!(result[5].index, 1);
    let top = matcher.best_matches("", "", 7, &lines);
    assert_eq!(top[..], result[..7]);
}

#[test]
fn best_matches_excludes_and_ranks_tighter_first() {
    let mut matcher = Matcher::new();
    let lines = vec![owned("a", "foobar"), owned("b", "xyz"), owned("c", "ffoo")];
    let result = matcher.best_matches("foo", "", 3, &lines);
    assert_eq!(result.len(), 2);
    assert_eq!(result[0].index, 0);
    assert_eq!(result[1].index, 2);
    assert!(result[0].score > result[1].score);
}

#[test]
fn best_matches_empty_query_keeps_order() {
    let mut matcher = Matcher::new();
    let lines = vec![owned("a", "x"), owned("b", "y")];
    let result = matcher.best_matches("", "", 3, &lines);
    assert_eq!(result.len(), 2);
    assert_eq!(result[0].score, 0);
    assert_eq!(result[1].score, 0);
    assert_eq!(result[0].index, 0);
    assert_eq!(result[1].index, 1);
}

#[test]
fn best_matches_case_sensitive_query() {
    let mut matcher = Matcher::new();
    let lines = vec![owned("1", "abc"), owned("2", "Abc")];
    let result = matcher.best_matches("Abc", "", 3, &lines);
    assert!(!result.is_empty());
    assert_eq!(result[0].index, 1);
}

#[test]
fn best_matches_basename_scores_tie() {
    let mut matcher = Matcher::new();
    let lines = vec![owned("x", "src/mainframe.rs"), owned("y", "src/main.rs")];
    let result = matcher.best_matches("main", "", 3, &lines);
    assert_eq!(result.len(), 2);
    // The query matches both basenames at their start, which the matcher
    // scores alike, so the line that was fed first comes first.
    assert_eq!(result.len(), 2);
    assert_eq!(result[0].query_score, result[1].query_score);
    assert_eq!(result[0].index, 0);
    assert_eq!(result[1].index, 1);
    let alone = matcher.score("main", "", 0, "main.rs", "y").unwrap();
    assert_eq!(result[1].query_score, alone.query_score);
}

#[test]
fn best_matches_frecency_orders_empty_query() {
    let mut matcher = Matcher::new();
    matcher.update("p1");
    matcher.update("p2");
    let lines = vec![owned("p1", "A"), owned("p2", "B"), owned("p3", "C")];
    let result = matcher.best_matches("", "", 3, &lines);
    let order: Vec<usize> = result.iter().map(|m| m.index).collect();
    assert_eq!(order, vec![1, 0, 2]);
    assert_eq!(result[0].score, 10 * SCORE_UNIT);
    assert_eq!(result[1].score, 3_678_794_410);
    assert_eq!(result[2].score, 0);
}

#[test]
fn best_matches_keeps_k_highest() {
    let mut matcher = Matcher::new();
    for path in ["e", "d", "c", "b", "a"] {
        matcher.update(path);
    }
    let lines = vec![
        owned("e", "1"),
        owned("none", "2"),
        owned("a", "3"),
        owned("c", "4"),
        owned("b", "5"),
        owned("d", "6"),
    ];
    let result = matcher.best_matches("", "", 3, &lines);
    let order: Vec<usize> = result.iter().map(|m| m.index).collect();
    assert_eq!(order, vec![2, 4, 3]);
    let none = matcher.best_matches("", "", 0, &lines);
    assert!(none.is_empty());
    let all = matcher.best_matches("", "", u64::MAX, &lines);
    let order: Vec<usize> = all.iter().map(|m| m.index).collect();
    assert_eq!(order, vec![2, 4, 3, 5, 0, 1]);
}

#[test]
fn best_matches_no_match_excluded_despite_frecency() {
    let mut matcher = Matcher::new();
    matcher.update("hot");
    let lines = vec![owned("hot", "zzz"), owned("cold", "query")];
    let result = matcher.best_matches("query", "", 5, &lines);
    assert_eq!(result.len(), 1);
    assert_eq!(result[0].index, 1);
}

#[test]
fn best_matches_is_deterministic() {
    let mut matcher = Matcher::new();
    matcher.update("b");
    let lines = vec![owned("a", "alpha"), owned("b", "alpine"), owned("c", "palm")];
    let first = matcher.best_matches("al", "", 2, &lines);
    let second = matcher.best_matches("al", "", 2, &lines);
    assert_eq!(first, second);
    assert_eq!(first.len(), 2);
}
