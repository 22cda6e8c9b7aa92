//! The scorer: a fuzzy match of the query against a line, biased towards
//! the last component of a path, plus the frecency of the line's path.

use crate::frecency::{Frecency, FrequencyCounter};
use crate::score::{Match, FREQUENCY_WEIGHT, SCORE_UNIT};
use crate::topk::{distinct_indices, index_is_new, is_top_k, TopK};
use nucleo_matcher::pattern::{AtomKind, CaseMatching, Pattern};
use nucleo_matcher::Matcher as PathMatcher;
use nucleo_matcher::Utf32Str;
use vstd::prelude::*;
use vstd::string::StrSliceExecFns;

verus! {

#[verifier::external_type_specification]
#[verifier::external_body]
pub struct ExPathMatcher(PathMatcher);

/// The longest query, in characters, that is matched against lines.
pub const MAX_QUERY_CHARS: usize = 2048;

/// The longest text, in characters, that a query is matched against. A
/// text of this many characters has fewer than 2^32 bytes.
pub const MAX_TEXT_CHARS: usize = 0x3fff_ffff;

/// The score of the fuzzy match of `query` in `text`, if `query` matches:
/// what the nucleo-matcher crate computes for a pattern of fuzzy atoms with
/// smart case, one atom for each word of `query`, with its bonuses set for
/// paths. Which characters separate the components of a path is fixed when
/// the crate is built, by the platform that it is built for.
pub uninterp spec fn fuzzy_score(query: Seq<char>, text: Seq<char>) -> Option<u32>;

/// `Matcher::new` of nucleo-matcher, with `Config::DEFAULT.match_paths()`.
#[verifier::external_body]
fn fuzzy_matcher_new() -> PathMatcher {
    PathMatcher::new(nucleo_matcher::Config::DEFAULT.match_paths())
}

/// `Pattern::new` and `Pattern::score` of nucleo-matcher, on a matcher
/// made by `fuzzy_matcher_new`: the score depends on the query and the text
/// alone, the matcher lends its scratch memory. The two bounds keep the
/// crate's 16-bit atom scores and 32-bit positions from overflowing: an
/// atom is no longer than the query, and a text of `MAX_TEXT_CHARS`
/// characters is shorter than 2^32 bytes.
#[verifier::external_body]
fn pattern_score(matcher: &mut PathMatcher, query: &str, text: &str) -> (score:
    Option<u32>)
    requires
        query@.len() <= MAX_QUERY_CHARS,
        text@.len() <= MAX_TEXT_CHARS,
    ensures
        score == fuzzy_score(query@, text@),
{
    let mut buf = Vec::new();
    let pattern = Pattern::new(query, CaseMatching::Smart, AtomKind::Fuzzy);
    pattern.score(Utf32Str::new(text, &mut buf), matcher)
}

/// The position of the last `/` in `text`, if there is one.
pub open spec fn last_slash(text: Seq<char>) -> Option<int>
    decreases text.len(),
{
    if text.len() == 0 {
        None
    } else if text.last() == '/' {
        Some(text.len() - 1)
    } else {
        last_slash(text.drop_last())
    }
}

/// What follows the last `/` of `text`, if there is a `/`.
pub open spec fn basename_of(text: Seq<char>) -> Option<Seq<char>> {
    match last_slash(text) {
        Some(at) => Some(text.subrange(at + 1, text.len() as int)),
        None => None,
    }
}

/// The last `/` is a `/`, and no `/` follows it.
pub proof fn lemma_last_slash(text: Seq<char>)
    ensures
        last_slash(text) matches Some(at) ==> 0 <= at < text.len() && text[at] == '/' && forall|
            i: int,
        | at < i < text.len() ==> text[i] != '/',
        last_slash(text) is None ==> forall|i: int| 0 <= i < text.len() ==> text[i] != '/',
    decreases text.len(),
{
    if text.len() > 0 {
        lemma_last_slash(text.drop_last());
        if text.last() != '/' {
            assert forall|i: int| 0 <= i < text.len() - 1 implies text[i] == text.drop_last()[i] by {}
        }
    }
}

/// The number of characters of `text` and the position of its last `/`.
pub fn scan_path(text: &str) -> (r: (usize, Option<usize>))
    ensures
        r.0 == text@.len(),
        r.1 is Some <==> last_slash(text@) is Some,
        r.1 matches Some(at) ==> last_slash(text@) == Some(at as int),
{
    let total = text.unicode_len();
    let mut count: usize = 0;
    let mut last: Option<usize> = None;
    let mut chars = text.chars();
    broadcast use vstd::string::axiom_spec_iter;
    broadcast use vstd::string::next_postcondition;

    let ghost all = text@;
    loop
        invariant
            all == text@,
            total == all.len(),
            count <= total,
            vstd::std_specs::iter::IteratorSpec::obeys_prophetic_iter_laws(&chars),
            vstd::std_specs::iter::IteratorSpec::remaining(&chars) == all.subrange(
                count as int,
                total as int,
            ),
            last is Some <==> last_slash(all.take(count as int)) is Some,
            last matches Some(at) ==> last_slash(all.take(count as int)) == Some(at as int),
        decreases total - count,
    {
        let ghost before = chars;
        match chars.next() {
            Some(c) => {
                proof {
                    assert(all.subrange(count as int, total as int).len() > 0);
                    assert(c == all[count as int]);
                    assert(all.subrange(count as int, total as int).drop_first() == all.subrange(
                        count + 1,
                        total as int,
                    ));
                    assert(all.take(count + 1).drop_last() == all.take(count as int));
                    assert(all.take(count + 1).last() == c);
                }
                if c == '/' {
                    last = Some(count);
                }
                count += 1;
            },
            None => {
                proof {
                    assert(all.subrange(count as int, total as int).len() == 0);
                    assert(all.take(count as int) == all);
                }
                return (total, last);
            },
        }
    }
}

/// A candidate: the text that is matched and shown, and the path that it
/// belongs to, by which its frecency is looked up.
///
/// The two spec functions say what `path` and `line` return. A type that is
/// written outside the verifier leaves them as they are; nothing is then
/// proved of its two methods, which must return the same text at every
/// call.
pub trait Line {
    /// The characters of the path.
    open spec fn path_spec(&self) -> Seq<char> {
        arbitrary()
    }

    /// The characters of the text.
    open spec fn line_spec(&self) -> Seq<char> {
        arbitrary()
    }

    fn path(&self) -> (path: &str)
        ensures
            path@ == self.path_spec(),
    ;

    fn line(&self) -> (line: &str)
        ensures
            line@ == self.line_spec(),
    ;
}

/// A candidate that owns its two strings.
#[derive(Debug, Clone, PartialEq)]
pub struct OwnedLine {
    pub path: String,
    pub line: String,
}

impl Line for OwnedLine {
    open spec fn path_spec(&self) -> Seq<char> {
        self.path@
    }

    open spec fn line_spec(&self) -> Seq<char> {
        self.line@
    }

    fn path(&self) -> (path: &str) {
        self.path.as_str()
    }

    fn line(&self) -> (line: &str) {
        self.line.as_str()
    }
}

/// Whether `query` can be matched against `text`: both are within the
/// lengths that the fuzzy matcher takes.
pub open spec fn scorable(query: Seq<char>, text: Seq<char>) -> bool {
    query.len() <= MAX_QUERY_CHARS && text.len() <= MAX_TEXT_CHARS
}

/// The query score of a line from the two fuzzy scores: none if the query
/// does not match the whole line; else the score of the match in the
/// basename, where the line has a basename and the query matches it; else
/// the score of the match in the whole line.
pub open spec fn prefer_basename(whole: Option<u32>, base: Option<Option<u32>>) -> Option<u32> {
    match whole {
        None => None,
        Some(whole_score) => match base {
            Some(Some(base_score)) => Some(base_score),
            _ => Some(whole_score),
        },
    }
}

/// The query score of `line` in whole points. An empty query gives every
/// line zero points. A line that cannot be matched, or that the query does
/// not match, has none.
pub open spec fn query_points(query: Seq<char>, line: Seq<char>) -> Option<u32> {
    if query.len() == 0 {
        Some(0)
    } else if !scorable(query, line) {
        None
    } else {
        prefer_basename(
            fuzzy_score(query, line),
            match basename_of(line) {
                Some(base) => Some(fuzzy_score(query, base)),
                None => None,
            },
        )
    }
}

/// The match of the line at `index` with `points` query points and a
/// frecency score of `frecency`: the context score is zero, the query
/// score is `points` whole points, the frequency score is
/// `FREQUENCY_WEIGHT` times the frecency score, and the score is their sum.
pub open spec fn blend_spec(index: usize, points: u32, frecency: nat) -> Match {
    Match {
        index,
        score: (points * SCORE_UNIT + FREQUENCY_WEIGHT * frecency) as u64,
        context_score: 0,
        query_score: (points * SCORE_UNIT) as u64,
        frequency_score: (FREQUENCY_WEIGHT * frecency) as u64,
    }
}

/// The match that scoring the line `line` of path `path` at `index` gives,
/// if the line is not excluded.
pub open spec fn scored(
    frecency: Frecency,
    query: Seq<char>,
    context: Seq<char>,
    index: usize,
    line: Seq<char>,
    path: Seq<char>,
) -> Option<Match> {
    match query_points(query, line) {
        Some(points) => Some(blend_spec(index, points, frecency.score_of(path))),
        None => None,
    }
}

/// The query score of a line from the fuzzy score of the whole line and,
/// where the line has a basename, the fuzzy score of the basename.
pub fn choose_query_score(whole: Option<u32>, base: Option<Option<u32>>) -> (points: Option<u32>)
    ensures
        points == prefer_basename(whole, base),
{
    match whole {
        None => None,
        Some(whole_score) => match base {
            Some(Some(base_score)) => Some(base_score),
            _ => Some(whole_score),
        },
    }
}

/// Blends the query points of a line with the frecency score of its path.
pub fn blend(index: usize, points: u32, frecency: u64) -> (m: Match)
    requires
        frecency <= SCORE_UNIT,
    ensures
        m == blend_spec(index, points, frecency as nat),
        m.balanced(),
{
    let query_score = (points as u64) * SCORE_UNIT;
    let frequency_score = FREQUENCY_WEIGHT * frecency;
    Match {
        index,
        score: query_score + frequency_score,
        context_score: 0,
        query_score,
        frequency_score,
    }
}

/// The scorer: a frecency counter and a fuzzy matcher.
pub struct Matcher {
    frequency: FrequencyCounter,
    skim_matcher: PathMatcher,
}

impl View for Matcher {
    type V = Frecency;

    /// What the scorer knows of past selections.
    closed spec fn view(&self) -> Frecency {
        self.frequency@
    }
}

impl Matcher {
    /// The invariant of a scorer: that of its frecency counter.
    pub closed spec fn wf(&self) -> bool {
        self.frequency.wf()
    }

    /// A scorer that knows of no selection.
    pub fn new() -> (matcher: Matcher)
        ensures
            matcher.wf(),
            matcher@.entries.len() == 0,
            matcher@.clock == 0,
            matcher@.wf(),
    {
        Matcher { frequency: FrequencyCounter::new(), skim_matcher: fuzzy_matcher_new() }
    }

    /// The number of selections so far.
    pub fn clock(&self) -> (clock: usize)
        ensures
            clock == self@.clock,
    {
        self.frequency.clock()
    }

    /// Records that the user selected `entry`.
    pub fn update(&mut self, entry: &str)
        requires
            old(self).wf(),
            old(self)@.clock < usize::MAX,
        ensures
            final(self).wf(),
            final(self)@ == old(self)@.after_update(entry@),
    {
        self.frequency.update(entry)
    }

    /// The query score of `line` in whole points, if the line is not
    /// excluded.
    pub fn query_score(&mut self, query: &str, line: &str) -> (points: Option<u32>)
        ensures
            points == query_points(query@, line@),
            final(self)@ == old(self)@,
            old(self).wf() ==> final(self).wf(),
    {
        if query.unicode_len() == 0 {
            return Some(0);
        }
        if query.unicode_len() > MAX_QUERY_CHARS {
            return None;
        }
        let (total, slash) = scan_path(line);
        if total > MAX_TEXT_CHARS {
            return None;
        }
        let whole = pattern_score(&mut self.skim_matcher, query, line);
        let base = match slash {
            Some(at) => {
                proof {
                    lemma_last_slash(line@);
                }
                let name = line.substring_char(at + 1, total);
                Some(pattern_score(&mut self.skim_matcher, query, name))
            },
            None => None,
        };
        choose_query_score(whole, base)
    }

    /// Scores the line `line` of path `path`, which stands at `index`. The
    /// result is none if the query is not empty and does not match the
    /// line; else it is the blend of the query score with the frecency of
    /// `path` as it is now.
    pub fn score(&mut self, query: &str, context: &str, index: usize, line: &str, path: &str) -> (m:
        Option<Match>)
        requires
            old(self).wf(),
        ensures
            m == scored(old(self)@, query@, context@, index, line@, path@),
            final(self).wf(),
            final(self)@ == old(self)@,
    {
        let frecency = self.frequency.score(path);
        match self.query_score(query, line) {
            Some(points) => Some(blend(index, points, frecency)),
            None => None,
        }
    }
}

/// The matches of `lines` that are not excluded, in the order of the
/// lines. The index of a match is the position of its line in `lines`.
pub open spec fn candidates<L: Line>(
    frecency: Frecency,
    query: Seq<char>,
    context: Seq<char>,
    lines: Seq<L>,
) -> Seq<Match>
    decreases lines.len(),
{
    if lines.len() == 0 {
        Seq::empty()
    } else {
        let earlier = candidates(frecency, query, context, lines.drop_last());
        match scored(
            frecency,
            query,
            context,
            (lines.len() - 1) as usize,
            lines.last().line_spec(),
            lines.last().path_spec(),
        ) {
            Some(m) => earlier.push(m),
            None => earlier,
        }
    }
}

/// Each candidate stands for one line: its index is the position of a line
/// that is not excluded and it is the match of that line, and no two
/// candidates share an index. There is a candidate for every line that is
/// not excluded.
pub proof fn lemma_candidates<L: Line>(
    frecency: Frecency,
    query: Seq<char>,
    context: Seq<char>,
    lines: Seq<L>,
)
    requires
        lines.len() <= usize::MAX,
    ensures
        candidates(frecency, query, context, lines).len() <= lines.len(),
        distinct_indices(candidates(frecency, query, context, lines)),
        forall|j: int|
            0 <= j < candidates(frecency, query, context, lines).len() ==> {
                let m = #[trigger] candidates(frecency, query, context, lines)[j];
                &&& m.index < lines.len()
                &&& scored(
                    frecency,
                    query,
                    context,
                    m.index,
                    lines[m.index as int].line_spec(),
                    lines[m.index as int].path_spec(),
                ) == Some(m)
            },
        forall|i: int|
            0 <= i < lines.len() ==> (#[trigger] scored(
                frecency,
                query,
                context,
                i as usize,
                lines[i].line_spec(),
                lines[i].path_spec(),
            ) matches Some(m) ==> candidates(frecency, query, context, lines).contains(m)),
    decreases lines.len(),
{
    let all = candidates(frecency, query, context, lines);
    if lines.len() > 0 {
        let shorter = lines.drop_last();
        let earlier = candidates(frecency, query, context, shorter);
        lemma_candidates(frecency, query, context, shorter);
        let last = (lines.len() - 1) as usize;
        let found = scored(
            frecency,
            query,
            context,
            last,
            lines.last().line_spec(),
            lines.last().path_spec(),
        );
        assert forall|j: int| 0 <= j < all.len() implies {
            let m = #[trigger] all[j];
            &&& m.index < lines.len()
            &&& scored(
                frecency,
                query,
                context,
                m.index,
                lines[m.index as int].line_spec(),
                lines[m.index as int].path_spec(),
            ) == Some(m)
        } by {
            if j < earlier.len() {
                assert(all[j] == earlier[j]);
                assert(lines[earlier[j].index as int] == shorter[earlier[j].index as int]);
            }
        }
        assert forall|i: int, j: int| 0 <= i < j < all.len() implies (#[trigger] all[i]).index != (
        #[trigger] all[j]).index by {
            assert(all[i] == earlier[i]);
            if j < earlier.len() {
                assert(all[j] == earlier[j]);
            }
        }
        assert forall|i: int| 0 <= i < lines.len() implies (#[trigger] scored(
            frecency,
            query,
            context,
            i as usize,
            lines[i].line_spec(),
            lines[i].path_spec(),
        ) matches Some(m) ==> all.contains(m)) by {
            if i < shorter.len() {
                assert(lines[i] == shorter[i]);
                match scored(
                    frecency,
                    query,
                    context,
                    i as usize,
                    shorter[i].line_spec(),
                    shorter[i].path_spec(),
                ) {
                    Some(m) => {
                        assert(earlier.contains(m));
                        let j = choose|j: int| 0 <= j < earlier.len() && earlier[j] == m;
                        assert(all[j] == m);
                    },
                    None => {},
                }
            } else {
                match found {
                    Some(m) => {
                        assert(all[earlier.len() as int] == m);
                    },
                    None => {},
                }
            }
        }
    }
}

impl Matcher {
    /// Scores the lines from `from` up to `to` and offers each match to
    /// `selector`, which has been offered the matches of the lines before
    /// `from`.
    pub fn offer_lines<L: Line>(
        &mut self,
        selector: &mut TopK,
        query: &str,
        context: &str,
        lines: &[L],
        from: usize,
        to: usize,
    )
        requires
            old(self).wf(),
            old(selector).wf(),
            from <= to <= lines@.len(),
            old(selector).offered() == candidates(
                old(self)@,
                query@,
                context@,
                lines@.take(from as int),
            ),
        ensures
            final(self).wf(),
            final(self)@ == old(self)@,
            final(selector).wf(),
            final(selector).limit_spec() == old(selector).limit_spec(),
            final(selector).offered() == candidates(
                old(self)@,
                query@,
                context@,
                lines@.take(to as int),
            ),
    {
        let ghost frecency = self@;
        let mut i = from;
        while i < to
            invariant
                from <= i <= to <= lines@.len(),
                self.wf(),
                self@ == frecency,
                selector.wf(),
                selector.limit_spec() == old(selector).limit_spec(),
                selector.offered() == candidates(frecency, query@, context@, lines@.take(i as int)),
            decreases to - i,
        {
            let entry = &lines[i];
            let found = self.score(query, context, i, entry.line(), entry.path());
            proof {
                let shorter = lines@.take(i as int);
                let longer = lines@.take(i + 1);
                assert(longer.drop_last() == shorter);
                assert(longer.last() == lines@[i as int]);
                lemma_candidates(frecency, query@, context@, shorter);
            }
            match found {
                Some(m) => {
                    assert(index_is_new(selector.offered(), m.index));
                    selector.offer(m);
                },
                None => {},
            }
            i += 1;
        }
    }

    /// The `num_results` highest ranked matches of `lines`, the highest
    /// first; all matches, if there are fewer.
    pub fn best_matches<L: Line>(
        &mut self,
        query: &str,
        context: &str,
        num_results: u64,
        lines: &[L],
    ) -> (result: Vec<Match>)
        requires
            old(self).wf(),
        ensures
            final(self).wf(),
            final(self)@ == old(self)@,
            is_top_k(
                result@,
                candidates(old(self)@, query@, context@, lines@),
                num_results as nat,
            ),
    {
        let limit: usize = if num_results > usize::MAX as u64 {
            usize::MAX
        } else {
            num_results as usize
        };
        let mut selector = TopK::new(limit);
        assert(lines@.take(0) == Seq::<L>::empty());
        self.offer_lines(&mut selector, query, context, lines, 0, lines.len());
        assert(lines@.take(lines@.len() as int) == lines@);
        proof {
            lemma_candidates(old(self)@, query@, context@, lines@);
        }
        selector.into_ranked()
    }
}

} // verus!
