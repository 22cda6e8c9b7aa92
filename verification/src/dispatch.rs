//! The dispatcher: what the worker does with each command of the host, and
//! how the host finds the result of a command among the results that reach
//! it. Both are state machines; the channels between them and the thread
//! of the worker are their caller's.

use crate::frecency::Frecency;
use crate::incremental::{Progress, Session};
use crate::matcher::{Matcher, OwnedLine};
use crate::score::Match;
use crate::topk::is_top_k;
use std::collections::HashMap;
use vstd::prelude::*;

verus! {

/// The number of lines that the worker scores before it looks for a new
/// command.
pub const CHUNK_SIZE: usize = 10_000;

/// The id under which the worker reports a command that no query preceded.
pub const NO_QUERY: usize = 0;

/// Why a command has no matches to show.
#[derive(Debug, Clone, Copy, PartialEq, Eq, Structural)]
pub enum Failure {
    /// Lines were fed while no query was running.
    FeedBeforeQuery,
    /// The end of the lines was signalled while no query was running.
    DoneBeforeQuery,
    /// A result of a later command arrived: the command was superseded.
    Expired,
    /// The worker is gone.
    WorkerDied,
}

impl Failure {
    /// The message that the host is shown.
    pub fn message(&self) -> (text: &'static str)
        ensures
            text@ == match *self {
                Failure::FeedBeforeQuery => "Initialize query before feeding lines"@,
                Failure::DoneBeforeQuery => "Initialize query before sending done"@,
                Failure::Expired => "expired command"@,
                Failure::WorkerDied => "processing thread has died"@,
            },
    {
        match self {
            Failure::FeedBeforeQuery => "Initialize query before feeding lines",
            Failure::DoneBeforeQuery => "Initialize query before sending done",
            Failure::Expired => "expired command",
            Failure::WorkerDied => "processing thread has died",
        }
    }
}

/// The result of a command: its matches, the highest ranked first, or why
/// there are none.
pub type Outcome = Result<Vec<Match>, Failure>;

/// What the host asks of the worker.
#[derive(Debug)]
pub enum Command {
    /// Begin a query under the id `id`; any running query is abandoned.
    Query { query: String, context: String, num_results: usize, id: usize },
    /// More lines for the running query.
    Feed(Vec<OwnedLine>),
    /// The user selected this path; any running query is abandoned.
    Update(String),
    /// No more lines will come: finish the running query and report.
    Done,
}

/// Where the worker stands.
#[derive(Debug, Clone, Copy, PartialEq, Eq, Structural)]
pub enum Phase {
    /// No query is running.
    Idle,
    /// A query is running and may be fed more lines.
    Running,
    /// A query is running whose lines have all been fed.
    Draining,
}

/// The worker: a scorer and the session of the running query, if any.
pub struct Worker {
    matcher: Matcher,
    session: Option<Session<OwnedLine>>,
    id: usize,
    draining: bool,
}

impl Worker {
    /// Where the worker stands.
    pub closed spec fn phase(&self) -> Phase {
        match self.session {
            None => Phase::Idle,
            Some(_) => if self.draining {
                Phase::Draining
            } else {
                Phase::Running
            },
        }
    }

    /// What the worker knows of past selections.
    pub closed spec fn frecency(&self) -> Frecency {
        self.matcher@
    }

    /// The session of the running query. Without one the value is of no
    /// account.
    pub closed spec fn session(&self) -> Session<OwnedLine> {
        self.session->0
    }

    /// The id of the running query.
    pub closed spec fn current_id(&self) -> usize {
        self.id
    }

    /// The invariant of a worker: those of its scorer and of its session,
    /// and the session scores by what the scorer knows.
    pub closed spec fn wf(&self) -> bool {
        &&& self.matcher.wf()
        &&& self.session matches Some(session) ==> session.wf() && session.frecency()
            == self.matcher@
    }

    /// An idle worker that knows of no selection.
    pub fn new() -> (worker: Worker)
        ensures
            worker.wf(),
            worker.phase() == Phase::Idle,
            worker.frecency().entries.len() == 0,
            worker.frecency().clock == 0,
    {
        Worker { matcher: Matcher::new(), session: None, id: NO_QUERY, draining: false }
    }

    /// Whether the worker can go no further without a command: it is idle,
    /// or its query is running and all lines fed so far are scored. If so
    /// its caller waits for a command; if not, the caller hands it a
    /// command that is already waiting, and otherwise lets it `step`.
    pub fn needs_command(&self) -> (waits: bool)
        requires
            self.wf(),
        ensures
            waits == match self.phase() {
                Phase::Idle => true,
                Phase::Running => self.session().progress_spec() == self.session().lines_spec().len(),
                Phase::Draining => false,
            },
    {
        match &self.session {
            None => true,
            Some(session) => !self.draining && session.caught_up(),
        }
    }

    /// Takes a command. A query or a selection abandons the running query
    /// without a report. Lines are appended to a running query, and the end
    /// of the lines sets it to draining. Any command abandons a draining
    /// query. Lines or an end of lines that find no running query are
    /// reported under the id `NO_QUERY`.
    ///
    /// A selection is recorded unless the clock of the scorer can count no
    /// further.
    pub fn handle(&mut self, command: Command) -> (report: Option<(usize, Outcome)>)
        requires
            old(self).wf(),
        ensures
            final(self).wf(),
            match command {
                Command::Query { query, context, num_results, id } => {
                    &&& report is None
                    &&& final(self).phase() == Phase::Running
                    &&& final(self).current_id() == id
                    &&& final(self).frecency() == old(self).frecency()
                    &&& final(self).session().query_spec() == query@
                    &&& final(self).session().context_spec() == context@
                    &&& final(self).session().limit_spec() == num_results
                    &&& final(self).session().lines_spec() == Seq::<OwnedLine>::empty()
                    &&& final(self).session().progress_spec() == 0
                    &&& final(self).session().frecency() == old(self).frecency()
                },
                Command::Update(path) => {
                    &&& report is None
                    &&& final(self).phase() == Phase::Idle
                    &&& final(self).frecency() == if old(self).frecency().clock < usize::MAX {
                        old(self).frecency().after_update(path@)
                    } else {
                        old(self).frecency()
                    }
                },
                Command::Feed(lines) => {
                    &&& final(self).frecency() == old(self).frecency()
                    &&& if old(self).phase() == Phase::Running {
                        &&& report is None
                        &&& final(self).phase() == Phase::Running
                        &&& final(self).current_id() == old(self).current_id()
                        &&& final(self).session().lines_spec() == old(self).session().lines_spec()
                            + lines@
                        &&& final(self).session().progress_spec() == old(
                            self,
                        ).session().progress_spec()
                        &&& final(self).session().query_spec() == old(self).session().query_spec()
                        &&& final(self).session().context_spec() == old(
                            self,
                        ).session().context_spec()
                        &&& final(self).session().limit_spec() == old(self).session().limit_spec()
                        &&& final(self).session().frecency() == old(self).session().frecency()
                    } else {
                        &&& report == Some((NO_QUERY, Outcome::Err(Failure::FeedBeforeQuery)))
                        &&& final(self).phase() == Phase::Idle
                    }
                },
                Command::Done => {
                    &&& final(self).frecency() == old(self).frecency()
                    &&& if old(self).phase() == Phase::Running {
                        &&& report is None
                        &&& final(self).phase() == Phase::Draining
                        &&& final(self).current_id() == old(self).current_id()
                        &&& final(self).session() == old(self).session()
                    } else {
                        &&& report == Some((NO_QUERY, Outcome::Err(Failure::DoneBeforeQuery)))
                        &&& final(self).phase() == Phase::Idle
                    }
                },
            },
    {
        if self.draining {
            self.session = None;
            self.draining = false;
        }
        match command {
            Command::Query { query, context, num_results, id } => {
                self.session = Some(Session::new(&self.matcher, query, context, num_results));
                self.id = id;
                None
            },
            Command::Update(path) => {
                self.session = None;
                if self.matcher.clock() < usize::MAX {
                    self.matcher.update(path.as_str());
                }
                None
            },
            Command::Feed(lines) => {
                match self.session.take() {
                    Some(mut session) => {
                        session.feed_lines(lines);
                        self.session = Some(session);
                        None
                    },
                    None => Some((NO_QUERY, Err(Failure::FeedBeforeQuery))),
                }
            },
            Command::Done => {
                if self.session.is_some() {
                    self.draining = true;
                    None
                } else {
                    Some((NO_QUERY, Err(Failure::DoneBeforeQuery)))
                }
            },
        }
    }

    /// Works while no command waits: scores the next `CHUNK_SIZE` lines of
    /// the running query. A draining query whose lines are then all scored
    /// is reported under its id, and the worker is idle again. An idle
    /// worker does nothing.
    pub fn step(&mut self) -> (report: Option<(usize, Outcome)>)
        requires
            old(self).wf(),
        ensures
            final(self).wf(),
            final(self).frecency() == old(self).frecency(),
            old(self).phase() == Phase::Idle ==> report is None && final(self).phase()
                == Phase::Idle,
            old(self).phase() != Phase::Idle ==> {
                let before = old(self).session();
                let reached = if before.progress_spec() + CHUNK_SIZE <= before.lines_spec().len() {
                    before.progress_spec() + CHUNK_SIZE
                } else {
                    before.lines_spec().len() as int
                };
                if old(self).phase() == Phase::Draining && reached == before.lines_spec().len() {
                    &&& final(self).phase() == Phase::Idle
                    &&& report matches Some((id, Ok(results)))
                    &&& id == old(self).current_id()
                    &&& is_top_k(results@, before.all_candidates(), before.limit_spec())
                } else {
                    &&& report is None
                    &&& final(self).phase() == old(self).phase()
                    &&& final(self).current_id() == old(self).current_id()
                    &&& final(self).session().progress_spec() == reached
                    &&& final(self).session().lines_spec() == before.lines_spec()
                    &&& final(self).session().query_spec() == before.query_spec()
                    &&& final(self).session().context_spec() == before.context_spec()
                    &&& final(self).session().limit_spec() == before.limit_spec()
                    &&& final(self).session().frecency() == before.frecency()
                }
            },
    {
        match self.session.take() {
            None => None,
            Some(mut session) => {
                let progress = session.process(&mut self.matcher, CHUNK_SIZE);
                match progress {
                    Progress::Done(results) => {
                        if self.draining {
                            self.draining = false;
                            Some((self.id, Ok(results)))
                        } else {
                            self.session = Some(session);
                            None
                        }
                    },
                    Progress::Working => {
                        self.session = Some(session);
                        None
                    },
                }
            },
        }
    }
}

/// What the channel of results holds for the host at one moment.
#[derive(Debug)]
pub enum Arrival {
    /// No result waits.
    Empty,
    /// The worker has closed the channel.
    Disconnected,
    /// The result of the command with this id.
    Message(usize, Outcome),
}

/// What the host learns from one look at the channel of results.
#[derive(Debug)]
pub enum Routed {
    /// The result is not there yet.
    Pending,
    /// A result of an earlier command was thrown away; look again.
    Stale,
    /// The answer to the poll.
    Ready(Outcome),
}

/// The answer that one look at the channel gives to a poll of `requested`.
pub open spec fn route_answer(requested: usize, arrival: Arrival) -> Routed {
    match arrival {
        Arrival::Empty => Routed::Pending,
        Arrival::Disconnected => Routed::Ready(Err(Failure::WorkerDied)),
        Arrival::Message(id, outcome) => if id == NO_QUERY || id == requested {
            Routed::Ready(outcome)
        } else if id < requested {
            Routed::Stale
        } else {
            Routed::Ready(Err(Failure::Expired))
        },
    }
}

/// The buffered results after one look at the channel at a poll of
/// `requested`: a result of a later command is kept, nothing else changes.
pub open spec fn route_buffer(
    buffered: Map<usize, Outcome>,
    requested: usize,
    arrival: Arrival,
) -> Map<usize, Outcome> {
    match arrival {
        Arrival::Message(id, outcome) => if id != NO_QUERY && id > requested {
            buffered.insert(id, outcome)
        } else {
            buffered
        },
        _ => buffered,
    }
}

/// The host's side of the dispatcher: the ids that it has given out and the
/// results that arrived before they were asked for.
pub struct Host {
    command_num: usize,
    already_received: HashMap<usize, Outcome>,
}

impl Host {
    /// The id of the last query.
    pub closed spec fn last_id(&self) -> usize {
        self.command_num
    }

    /// The results that arrived before they were asked for, by id.
    pub closed spec fn buffered(&self) -> Map<usize, Outcome> {
        self.already_received@
    }

    /// A host that has issued no command and holds no result.
    pub fn new() -> (host: Host)
        ensures
            host.last_id() == 0,
            host.buffered() == Map::<usize, Outcome>::empty(),
    {
        Host { command_num: 0, already_received: HashMap::new() }
    }

    /// The id of the last query, zero if there was none.
    pub fn command_num(&self) -> (id: usize)
        ensures
            id == self.last_id(),
    {
        self.command_num
    }

    /// The id for the next query: one more than the last, so ids rise and
    /// none is `NO_QUERY`.
    pub fn next_id(&mut self) -> (id: usize)
        requires
            old(self).last_id() < usize::MAX,
        ensures
            id == old(self).last_id() + 1,
            final(self).last_id() == id,
            final(self).buffered() == old(self).buffered(),
    {
        self.command_num += 1;
        self.command_num
    }

    /// Hands out the result of `requested` if it arrived earlier, and
    /// forgets it.
    pub fn take_buffered(&mut self, requested: usize) -> (found: Option<Outcome>)
        ensures
            final(self).last_id() == old(self).last_id(),
            found == if old(self).buffered().contains_key(requested) {
                Some(old(self).buffered()[requested])
            } else {
                None
            },
            final(self).buffered() == old(self).buffered().remove(requested),
    {
        broadcast use vstd::std_specs::hash::group_hash_axioms;

        let found = self.already_received.remove(&requested);
        assert(self.already_received@ == old(self).already_received@.remove(requested));
        found
    }

    /// Decides what one look at the channel means for a poll of
    /// `requested`, which is not buffered. A result under `NO_QUERY` or
    /// under `requested` is the answer. A result of an earlier command is
    /// thrown away. A result of a later command is kept for its own poll,
    /// and the answer is that `requested` has expired. A closed channel
    /// means that the worker has died.
    pub fn route(&mut self, requested: usize, arrival: Arrival) -> (routed: Routed)
        ensures
            final(self).last_id() == old(self).last_id(),
            routed == route_answer(requested, arrival),
            final(self).buffered() == route_buffer(old(self).buffered(), requested, arrival),
    {
        broadcast use vstd::std_specs::hash::group_hash_axioms;

        match arrival {
            Arrival::Empty => Routed::Pending,
            Arrival::Disconnected => Routed::Ready(Err(Failure::WorkerDied)),
            Arrival::Message(id, outcome) => {
                if id == NO_QUERY || id == requested {
                    Routed::Ready(outcome)
                } else if id < requested {
                    Routed::Stale
                } else {
                    self.already_received.insert(id, outcome);
                    Routed::Ready(Err(Failure::Expired))
                }
            },
        }
    }
}

/// Supersession, as the host sees it: when the result of a later query
/// arrives at a poll of an earlier one, the answer is that the earlier
/// query has expired, and the later result is kept for the poll of its own
/// id.
pub proof fn law_superseded_expires(
    buffered: Map<usize, Outcome>,
    earlier: usize,
    later: usize,
    outcome: Outcome,
)
    requires
        NO_QUERY < earlier < later,
    ensures
        route_answer(earlier, Arrival::Message(later, outcome)) == Routed::Ready(
            Err(Failure::Expired),
        ),
        route_buffer(buffered, earlier, Arrival::Message(later, outcome)).contains_key(later),
        route_buffer(buffered, earlier, Arrival::Message(later, outcome))[later] == outcome,
{
}

} // verus!
