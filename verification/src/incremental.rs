//! Incremental matching: the lines of a query arrive in batches and are
//! scored in chunks, while the best matches so far are kept.

use crate::frecency::Frecency;
use crate::matcher::{candidates, lemma_candidates, Line, Matcher};
use crate::score::Match;
use crate::topk::{is_top_k, TopK};
use vstd::prelude::*;

verus! {

/// What a step of processing reports.
#[derive(Debug, PartialEq, Eq)]
pub enum Progress {
    /// Lines that were fed are still to be scored.
    Working,
    /// All lines fed so far are scored; these are the best matches, the
    /// highest ranked first.
    Done(Vec<Match>),
}

/// The state of one query: its lines, how far they are scored, and the best
/// matches among the scored ones.
pub struct Session<L: Line> {
    query: String,
    context: String,
    lines: Vec<L>,
    progressed_to: usize,
    results: TopK,
    frecency: Ghost<Frecency>,
}

impl<L: Line> Session<L> {
    /// The query of the session.
    pub closed spec fn query_spec(&self) -> Seq<char> {
        self.query@
    }

    /// The context of the session.
    pub closed spec fn context_spec(&self) -> Seq<char> {
        self.context@
    }

    /// The lines fed so far.
    pub closed spec fn lines_spec(&self) -> Seq<L> {
        self.lines@
    }

    /// The number of lines scored so far.
    pub closed spec fn progress_spec(&self) -> nat {
        self.progressed_to as nat
    }

    /// The number of matches asked for.
    pub closed spec fn limit_spec(&self) -> nat {
        self.results.limit_spec()
    }

    /// What the scorer knew of past selections when the session began.
    pub closed spec fn frecency(&self) -> Frecency {
        self.frecency@
    }

    /// The invariant of a session: the lines before `progress_spec` are
    /// scored, and the selector was offered their matches and no others.
    pub closed spec fn wf(&self) -> bool {
        &&& self.results.wf()
        &&& self.progressed_to <= self.lines@.len()
        &&& self.results.offered() == candidates(
            self.frecency@,
            self.query@,
            self.context@,
            self.lines@.take(self.progressed_to as int),
        )
    }

    /// The matches of the lines scored so far.
    pub open spec fn scored_candidates(&self) -> Seq<Match> {
        candidates(
            self.frecency(),
            self.query_spec(),
            self.context_spec(),
            self.lines_spec().take(self.progress_spec() as int),
        )
    }

    /// The number of matches kept.
    pub closed spec fn kept_len(&self) -> nat {
        self.results.len_spec()
    }

    /// Whether the session keeps `m` among its best matches.
    pub closed spec fn keeps(&self, m: Match) -> bool {
        self.results.keeps(m)
    }

    /// What the invariant says to the outside: no more lines are scored
    /// than were fed; no more matches are kept than were asked for; and
    /// each match kept is that of a line scored so far.
    pub proof fn law_session_invariant(&self)
        requires
            self.wf(),
        ensures
            self.progress_spec() <= self.lines_spec().len(),
            self.kept_len() <= self.limit_spec(),
            self.kept_len() == if self.limit_spec() <= self.scored_candidates().len() {
                self.limit_spec()
            } else {
                self.scored_candidates().len()
            },
            forall|m: Match| #[trigger] self.keeps(m) ==> self.scored_candidates().contains(m),
            forall|m: Match| #[trigger]
                self.scored_candidates().contains(m) ==> m.index < self.progress_spec(),
    {
        self.results.lemma_invariant();
        let scored = self.lines_spec().take(self.progress_spec() as int);
        lemma_candidates(self.frecency(), self.query_spec(), self.context_spec(), scored);
        assert forall|m: Match| #[trigger]
            self.scored_candidates().contains(m) implies m.index < self.progress_spec() by {
            let all = self.scored_candidates();
            let j = choose|j: int| 0 <= j < all.len() && all[j] == m;
            assert(all[j].index < scored.len());
        }
    }

    /// The matches of all lines fed so far, whether scored yet or not.
    pub open spec fn all_candidates(&self) -> Seq<Match> {
        candidates(self.frecency(), self.query_spec(), self.context_spec(), self.lines_spec())
    }

    /// A session for `query` with no lines, scored by `matcher` as it is
    /// now.
    pub fn new(matcher: &Matcher, query: String, context: String, num_results: usize) -> (session:
        Session<L>)
        ensures
            session.wf(),
            session.query_spec() == query@,
            session.context_spec() == context@,
            session.lines_spec() == Seq::<L>::empty(),
            session.progress_spec() == 0,
            session.limit_spec() == num_results,
            session.frecency() == matcher@,
    {
        let session = Session {
            query,
            context,
            lines: Vec::new(),
            progressed_to: 0,
            results: TopK::new(num_results),
            frecency: Ghost(matcher@),
        };
        assert(session.lines@.take(0) == Seq::<L>::empty());
        session
    }

    /// The number of lines fed so far.
    pub fn num_lines(&self) -> (n: usize)
        ensures
            n == self.lines_spec().len(),
    {
        self.lines.len()
    }

    /// The number of lines scored so far.
    pub fn progressed_to(&self) -> (n: usize)
        ensures
            n == self.progress_spec(),
    {
        self.progressed_to
    }

    /// Whether every line fed so far is scored.
    pub fn caught_up(&self) -> (done: bool)
        ensures
            done == (self.progress_spec() == self.lines_spec().len()),
    {
        self.progressed_to == self.lines.len()
    }

    /// Appends `lines` to the lines of the session. Nothing is scored.
    pub fn feed_lines(&mut self, lines: Vec<L>)
        requires
            old(self).wf(),
        ensures
            final(self).wf(),
            final(self).lines_spec() == old(self).lines_spec() + lines@,
            final(self).progress_spec() == old(self).progress_spec(),
            final(self).query_spec() == old(self).query_spec(),
            final(self).context_spec() == old(self).context_spec(),
            final(self).limit_spec() == old(self).limit_spec(),
            final(self).frecency() == old(self).frecency(),
    {
        let mut lines = lines;
        let ghost before = self.lines@;
        self.lines.append(&mut lines);
        assert(self.lines@.take(self.progressed_to as int) == before.take(
            self.progressed_to as int,
        ));
    }

    /// Scores up to `num_lines` of the lines not scored yet. Reports the
    /// best matches of all lines once none is left to score, also when none
    /// was left before the call.
    pub fn process(&mut self, matcher: &mut Matcher, num_lines: usize) -> (progress: Progress)
        requires
            old(self).wf(),
            old(matcher).wf(),
            old(matcher)@ == old(self).frecency(),
        ensures
            final(self).wf(),
            final(matcher).wf(),
            final(matcher)@ == old(matcher)@,
            final(self).lines_spec() == old(self).lines_spec(),
            final(self).query_spec() == old(self).query_spec(),
            final(self).context_spec() == old(self).context_spec(),
            final(self).limit_spec() == old(self).limit_spec(),
            final(self).frecency() == old(self).frecency(),
            final(self).progress_spec() == if old(self).progress_spec() + num_lines <= old(
                self,
            ).lines_spec().len() {
                old(self).progress_spec() + num_lines
            } else {
                old(self).lines_spec().len() as int
            },
            progress is Working <==> final(self).progress_spec() < final(self).lines_spec().len(),
            progress matches Progress::Done(results) ==> is_top_k(
                results@,
                old(self).all_candidates(),
                old(self).limit_spec(),
            ),
    {
        let len = self.lines.len();
        if self.progressed_to < len {
            let ending_progressed_to = if num_lines > len - self.progressed_to {
                len
            } else {
                self.progressed_to + num_lines
            };
            matcher.offer_lines(
                &mut self.results,
                self.query.as_str(),
                self.context.as_str(),
                self.lines.as_slice(),
                self.progressed_to,
                ending_progressed_to,
            );
            self.progressed_to = ending_progressed_to;
        }
        if self.progressed_to == len {
            assert(self.lines@.take(len as int) == self.lines@);
            Progress::Done(self.results.sorted())
        } else {
            Progress::Working
        }
    }
}

/// A session together with the scorer that it borrows, which therefore
/// learns of no selection while the session lasts.
pub struct IncrementalMatcher<'a, L: Line> {
    matcher: &'a mut Matcher,
    session: Session<L>,
}

impl<'a, L: Line> IncrementalMatcher<'a, L> {
    /// The session.
    pub closed spec fn session(&self) -> Session<L> {
        self.session
    }

    /// The invariant: that of the session and of the scorer, and the
    /// scorer knows what it knew when the session began.
    pub closed spec fn wf(&self) -> bool {
        &&& self.session.wf()
        &&& self.matcher.wf()
        &&& self.matcher@ == self.session.frecency()
    }

    /// A session for `query` that borrows `matcher`.
    pub fn new(matcher: &'a mut Matcher, query: String, context: String, num_results: usize) -> (
        incremental: Self)
        requires
            old(matcher).wf(),
        ensures
            incremental.wf(),
            incremental.session().query_spec() == query@,
            incremental.session().context_spec() == context@,
            incremental.session().lines_spec() == Seq::<L>::empty(),
            incremental.session().progress_spec() == 0,
            incremental.session().limit_spec() == num_results,
            incremental.session().frecency() == old(matcher)@,
    {
        let session = Session::new(matcher, query, context, num_results);
        IncrementalMatcher { matcher, session }
    }

    /// Appends `lines` to the lines of the session. Nothing is scored.
    pub fn feed_lines(&mut self, lines: Vec<L>)
        requires
            old(self).wf(),
        ensures
            final(self).wf(),
            final(self).session().lines_spec() == old(self).session().lines_spec() + lines@,
            final(self).session().progress_spec() == old(self).session().progress_spec(),
            final(self).session().query_spec() == old(self).session().query_spec(),
            final(self).session().context_spec() == old(self).session().context_spec(),
            final(self).session().limit_spec() == old(self).session().limit_spec(),
            final(self).session().frecency() == old(self).session().frecency(),
    {
        self.session.feed_lines(lines);
    }

    /// Scores up to `num_lines` of the lines not scored yet. Reports the
    /// best matches of all lines once none is left to score, also when none
    /// was left before the call.
    pub fn process(&mut self, num_lines: usize) -> (progress: Progress)
        requires
            old(self).wf(),
        ensures
            final(self).wf(),
            final(self).session().lines_spec() == old(self).session().lines_spec(),
            final(self).session().query_spec() == old(self).session().query_spec(),
            final(self).session().context_spec() == old(self).session().context_spec(),
            final(self).session().limit_spec() == old(self).session().limit_spec(),
            final(self).session().frecency() == old(self).session().frecency(),
            final(self).session().progress_spec() == if old(self).session().progress_spec()
                + num_lines <= old(self).session().lines_spec().len() {
                old(self).session().progress_spec() + num_lines
            } else {
                old(self).session().lines_spec().len() as int
            },
            progress is Working <==> final(self).session().progress_spec() < final(self).session().lines_spec().len(),
            progress matches Progress::Done(results) ==> is_top_k(
                results@,
                old(self).session().all_candidates(),
                old(self).session().limit_spec(),
            ),
    {
        self.session.process(self.matcher, num_lines)
    }
}

impl Matcher {
    /// Begins a session for `query` that reports the `num_results` highest
    /// ranked matches. The session borrows the scorer.
    pub fn incremental_match<L: Line>(
        &mut self,
        query: String,
        context: String,
        num_results: u64,
    ) -> (incremental: IncrementalMatcher<'_, L>)
        requires
            old(self).wf(),
        ensures
            incremental.wf(),
            incremental.session().query_spec() == query@,
            incremental.session().context_spec() == context@,
            incremental.session().lines_spec() == Seq::<L>::empty(),
            incremental.session().progress_spec() == 0,
            incremental.session().limit_spec() == if num_results <= usize::MAX {
                num_results as nat
            } else {
                usize::MAX as nat
            },
            incremental.session().frecency() == old(self)@,
    {
        let limit: usize = if num_results > usize::MAX as u64 {
            usize::MAX
        } else {
            num_results as usize
        };
        IncrementalMatcher::new(self, query, context, limit)
    }
}

} // verus!
