use filter::{
    line_from_value, lookup, request_from_value, serve, Arrival, Command, Failure, Field, Host,
    LookupError, Match, Matcher, Outcome, OwnedLine, Reply, Request, RequestError, Routed,
    Worker, SCORE_UNIT,
};
use neovim_lib::Value;
use std::collections::VecDeque;

fn owned(path: &str, line: &str) -> OwnedLine {
    OwnedLine { path: path.to_string(), line: line.to_string() }
}

fn query(text: &str, k: usize, id: usize) -> Command {
    Command::Query { query: text.to_string(), context: String::new(), num_results: k, id }
}

/// Runs the worker over the commands as they wait in the channel: a waiting
/// command is handed over at once, and the worker works only when none
/// waits.
fn run_worker(worker: &mut Worker, commands: Vec<Command>) -> VecDeque<(usize, Outcome)> {
    let mut inbox: VecDeque<Command> = commands.into();
    let mut results = VecDeque::new();
    let mut turns = 0;
    loop {
        turns += 1;
        assert!(turns < 100_000);
        let report = match inbox.pop_front() {
            Some(command) => worker.handle(command),
            None => {
                if worker.needs_command() {
                    break;
                }
                worker.step()
            }
        };
        if let Some(report) = report {
            results.push_back(report);
        }
    }
    results
}

/// Polls as the host does: a buffered result first, then the channel, until
/// the channel gives an answer or is empty.
fn get_result(
    host: &mut Host,
    channel: &mut VecDeque<(usize, Outcome)>,
    requested: usize,
) -> Option<Outcome> {
    loop {
        if let Some(found) = host.take_buffered(requested) {
            return Some(found);
        }
        let arrival = match channel.pop_front() {
            Some((id, outcome)) => Arrival::Message(id, outcome),
            None => Arrival::Empty,
        };
        match host.route(requested, arrival) {
            Routed::Pending => return None,
            Routed::Stale => continue,
            Routed::Ready(outcome) => return Some(outcome),
        }
    }
}

#[test]
fn worker_reports_query_after_done() {
    let mut worker = Worker::new();
    assert!(worker.needs_command());
    assert_eq!(worker.step(), None);
    assert_eq!(worker.handle(query("foo", 3, 1)), None);
    assert!(worker.needs_command());
    assert_eq!(
        worker.handle(Command::Feed(vec![owned("a", "foobar"), owned("b", "xyz"), owned("c", "ffoo")])),
        None
    );
    assert!(!worker.needs_command());
    // A running query is scored, but nothing is reported before the end
    // of the lines is signalled.
    assert_eq!(worker.step(), None);
    assert!(worker.needs_command());
    assert_eq!(worker.handle(Command::Done), None);
    assert!(!worker.needs_command());
    match worker.step() {
        Some((1, Ok(results))) => {
            assert_eq!(results.len(), 2);
            assert_eq!(results[0].index, 0);
            assert_eq!(results[1].index, 2);
        }
        other => panic!("unexpected report {:?}", other),
    }
    assert!(worker.needs_command());
    assert_eq!(worker.step(), None);
}

#[test]
fn worker_reports_commands_without_query() {
    let mut worker = Worker::new();
    assert_eq!(
        worker.handle(Command::Feed(vec![owned("a", "x")])),
        Some((0, Err(Failure::FeedBeforeQuery)))
    );
    assert_eq!(worker.handle(Command::Done), Some((0, Err(Failure::DoneBeforeQuery))));
    assert_eq!(worker.handle(Command::Update("a".to_string())), None);
    assert!(worker.needs_command());
}

#[test]
fn worker_abandons_query_on_update() {
    let mut worker = Worker::new();
    let reports = run_worker(
        &mut worker,
        vec![
            query("", 3, 1),
            Command::Feed(vec![owned("p1", "A")]),
            Command::Update("p1".to_string()),
            Command::Done,
        ],
    );
    // The query was abandoned, so the end of the lines finds no query.
    assert_eq!(reports, VecDeque::from(vec![(0, Err(Failure::DoneBeforeQuery))]));
}

#[test]
fn worker_abandons_draining_query_on_any_command() {
    let mut worker = Worker::new();
    assert_eq!(worker.handle(query("", 3, 1)), None);
    let many: Vec<OwnedLine> = (0..25_000).map(|i| owned("p", &format!("line{}", i))).collect();
    assert_eq!(worker.handle(Command::Feed(many)), None);
    assert_eq!(worker.handle(Command::Done), None);
    // Two chunks are scored without a report, since lines are left.
    assert_eq!(worker.step(), None);
    assert_eq!(worker.step(), None);
    assert!(!worker.needs_command());
    // A command arrives before the last chunk: the drain is given up.
    assert_eq!(
        worker.handle(Command::Feed(vec![owned("q", "late")])),
        Some((0, Err(Failure::FeedBeforeQuery)))
    );
    assert!(worker.needs_command());
    assert_eq!(worker.step(), None);
}

#[test]
fn worker_drains_in_chunks() {
    let mut worker = Worker::new();
    let many: Vec<OwnedLine> = (0..25_000).map(|i| owned("p", &format!("line{}", i))).collect();
    let mut reports = run_worker(
        &mut worker,
        vec![query("line24", 2, 7), Command::Feed(many), Command::Done],
    );
    assert_eq!(reports.len(), 1);
    match reports.pop_front() {
        Some((7, Ok(results))) => {
            assert_eq!(results.len(), 2);
            assert_eq!(results[0].index, 24);
            assert_eq!(results[1].index, 240);
        }
        other => panic!("unexpected report {:?}", other),
    }
}

#[test]
fn worker_query_sees_earlier_update() {
    let mut worker = Worker::new();
    let mut reports = run_worker(
        &mut worker,
        vec![
            Command::Update("p1".to_string()),
            Command::Update("p2".to_string()),
            query("", 3, 1),
            Command::Feed(vec![owned("p1", "A"), owned("p2", "B"), owned("p3", "C")]),
            Command::Done,
        ],
    );
    match reports.pop_front() {
        Some((1, Ok(results))) => {
            let order: Vec<usize> = results.iter().map(|m| m.index).collect();
            assert_eq!(order, vec![1, 0, 2]);
            assert_eq!(results[0].frequency_score, 10 * SCORE_UNIT);
        }
        other => panic!("unexpected report {:?}", other),
    }
    assert!(reports.is_empty());
}

#[test]
fn supersession_second_query_wins() {
    let mut worker = Worker::new();
    let mut host = Host::new();
    let q1 = host.next_id();
    let q2 = host.next_id();
    assert_eq!((q1, q2), (1, 2));
    assert_eq!(host.command_num(), 2);
    let mut channel = run_worker(
        &mut worker,
        vec![
            query("x", 3, q1),
            Command::Feed(vec![owned("f1", "x one"), owned("f1", "x two")]),
            query("x", 3, q2),
            Command::Feed(vec![owned("f2", "nothing"), owned("f2", "x three")]),
            Command::Done,
        ],
    );
    // Only the second query is reported.
    assert_eq!(channel.len(), 1);
    assert_eq!(get_result(&mut host, &mut channel, q1), Some(Err(Failure::Expired)));
    assert_eq!(Failure::Expired.message(), "expired command");
    match get_result(&mut host, &mut channel, q2) {
        Some(Ok(results)) => {
            // Computed over the second feed alone.
            assert_eq!(results.len(), 1);
            assert_eq!(results[0].index, 1);
        }
        other => panic!("unexpected result {:?}", other),
    }
    // The result is handed out once.
    assert_eq!(get_result(&mut host, &mut channel, q2), None);
}

#[test]
fn supersession_query_followed_by_query() {
    let mut worker = Worker::new();
    let mut host = Host::new();
    let first = host.next_id();
    let second = host.next_id();
    let mut channel = run_worker(
        &mut worker,
        vec![query("a", 3, first), query("b", 3, second), Command::Done],
    );
    assert_eq!(get_result(&mut host, &mut channel, first), Some(Err(Failure::Expired)));
    assert_eq!(get_result(&mut host, &mut channel, second), Some(Ok(vec![])));
}

#[test]
fn host_routes_each_kind_of_arrival() {
    let mut host = Host::new();
    let hit = vec![Match { index: 0, score: 1, context_score: 0, query_score: 1, frequency_score: 0 }];
    assert!(matches!(host.route(5, Arrival::Empty), Routed::Pending));
    assert!(matches!(
        host.route(5, Arrival::Disconnected),
        Routed::Ready(Err(Failure::WorkerDied))
    ));
    assert!(matches!(host.route(5, Arrival::Message(4, Ok(vec![]))), Routed::Stale));
    match host.route(5, Arrival::Message(5, Ok(hit.clone()))) {
        Routed::Ready(Ok(results)) => assert_eq!(results, hit),
        other => panic!("unexpected {:?}", other),
    }
    assert!(matches!(
        host.route(5, Arrival::Message(0, Err(Failure::FeedBeforeQuery))),
        Routed::Ready(Err(Failure::FeedBeforeQuery))
    ));
    assert_eq!(host.take_buffered(9), None);
    assert!(matches!(
        host.route(5, Arrival::Message(9, Ok(hit.clone()))),
        Routed::Ready(Err(Failure::Expired))
    ));
    assert_eq!(host.take_buffered(5), None);
    assert_eq!(host.take_buffered(9), Some(Ok(hit)));
    assert_eq!(host.take_buffered(9), None);
}

#[test]
fn host_discards_results_of_earlier_commands() {
    let mut host = Host::new();
    let mut channel: VecDeque<(usize, Outcome)> = VecDeque::new();
    channel.push_back((1, Ok(vec![])));
    channel.push_back((2, Ok(vec![])));
    channel.push_back((3, Err(Failure::DoneBeforeQuery)));
    assert_eq!(get_result(&mut host, &mut channel, 3), Some(Err(Failure::DoneBeforeQuery)));
    assert!(channel.is_empty());
    assert_eq!(get_result(&mut host, &mut channel, 3), None);
}

#[test]
fn failure_messages() {
    assert_eq!(Failure::FeedBeforeQuery.message(), "Initialize query before feeding lines");
    assert_eq!(Failure::DoneBeforeQuery.message(), "Initialize query before sending done");
    assert_eq!(Failure::Expired.message(), "expired command");
    assert_eq!(Failure::WorkerDied.message(), "processing thread has died");
}

#[test]
fn lookup_finds_first_entry_with_key() {
    let map = Value::Map(vec![
        (Value::from(1), Value::from("number key")),
        (Value::from("query"), Value::from("first")),
        (Value::from("lines"), Value::Array(vec![])),
        (Value::from("query"), Value::from("second")),
    ]);
    assert_eq!(lookup(&map, "query"), Ok(&Value::from("first")));
    assert_eq!(lookup(&map, "lines"), Ok(&Value::Array(vec![])));
    assert_eq!(lookup(&map, "context"), Err(LookupError::KeyNotFound));
    assert_eq!(lookup(&map, "quer"), Err(LookupError::KeyNotFound));
    assert_eq!(lookup(&Value::from("query"), "query"), Err(LookupError::NotAMap));
    assert_eq!(lookup(&Value::Map(vec![]), "query"), Err(LookupError::KeyNotFound));
}

fn line_value(path: &str, name: &str) -> Value {
    Value::Map(vec![(Value::from("path"), Value::from(path)), (Value::from("name"), Value::from(name))])
}

fn match_value(lines: Value) -> Value {
    Value::Map(vec![
        (Value::from("query"), Value::from("foo")),
        (Value::from("context"), Value::from("here")),
        (Value::from("num_matches"), Value::from(3)),
        (Value::from("lines"), lines),
    ])
}

#[test]
fn request_reads_a_line() {
    let line = line_from_value(&line_value("a/b", "text")).unwrap();
    assert_eq!(line, owned("a/b", "text"));
    assert_eq!(
        line_from_value(&Value::Nil),
        Err(RequestError::Missing(Field::Path, LookupError::NotAMap))
    );
    let no_name = Value::Map(vec![(Value::from("path"), Value::from("p"))]);
    assert_eq!(
        line_from_value(&no_name),
        Err(RequestError::Missing(Field::Name, LookupError::KeyNotFound))
    );
    let bad_path = Value::Map(vec![
        (Value::from("path"), Value::from(1)),
        (Value::from("name"), Value::from(2)),
    ]);
    assert_eq!(line_from_value(&bad_path), Err(RequestError::WrongType(Field::Path)));
    let bad_name = Value::Map(vec![
        (Value::from("path"), Value::from("p")),
        (Value::from("name"), Value::from(2)),
    ]);
    assert_eq!(line_from_value(&bad_name), Err(RequestError::WrongType(Field::Name)));
}

#[test]
fn request_reads_a_match_request() {
    let arg = match_value(Value::Array(vec![line_value("a", "foobar"), line_value("b", "xyz")]));
    match request_from_value("match", &arg) {
        Ok(Request::Match(request)) => {
            assert_eq!(request.query, "foo");
            assert_eq!(request.context, "here");
            assert_eq!(request.num_matches, 3);
            assert_eq!(request.lines, vec![owned("a", "foobar"), owned("b", "xyz")]);
        }
        other => panic!("unexpected {:?}", other),
    }
}

#[test]
fn request_reports_the_first_fault() {
    let fault = |arg: &Value| match request_from_value("match", arg) {
        Err(error) => error,
        Ok(request) => panic!("unexpected {:?}", request),
    };
    assert_eq!(fault(&Value::Nil), RequestError::Missing(Field::Query, LookupError::NotAMap));
    assert_eq!(
        fault(&Value::Map(vec![])),
        RequestError::Missing(Field::Query, LookupError::KeyNotFound)
    );
    let mut entries = vec![(Value::from("query"), Value::from(5))];
    assert_eq!(fault(&Value::Map(entries.clone())), RequestError::WrongType(Field::Query));
    entries[0].1 = Value::from("q");
    assert_eq!(
        fault(&Value::Map(entries.clone())),
        RequestError::Missing(Field::Context, LookupError::KeyNotFound)
    );
    entries.push((Value::from("context"), Value::Nil));
    assert_eq!(fault(&Value::Map(entries.clone())), RequestError::WrongType(Field::Context));
    entries[1].1 = Value::from("c");
    assert_eq!(
        fault(&Value::Map(entries.clone())),
        RequestError::Missing(Field::NumMatches, LookupError::KeyNotFound)
    );
    entries.push((Value::from("num_matches"), Value::from(-1)));
    assert_eq!(fault(&Value::Map(entries.clone())), RequestError::WrongType(Field::NumMatches));
    entries[2].1 = Value::from(2);
    assert_eq!(
        fault(&Value::Map(entries.clone())),
        RequestError::Missing(Field::Lines, LookupError::KeyNotFound)
    );
    entries.push((Value::from("lines"), Value::from("none")));
    assert_eq!(fault(&Value::Map(entries.clone())), RequestError::WrongType(Field::Lines));
    entries[3].1 = Value::Array(vec![
        line_value("a", "1"),
        Value::Map(vec![(Value::from("path"), Value::from("p"))]),
        Value::Nil,
    ]);
    assert_eq!(
        fault(&Value::Map(entries.clone())),
        RequestError::Missing(Field::Name, LookupError::KeyNotFound)
    );
}

#[test]
fn request_with_unknown_name_is_refused() {
    let arg = match_value(Value::Array(vec![]));
    assert!(matches!(request_from_value("search", &arg), Err(RequestError::NoSuchFunction)));
    assert!(matches!(request_from_value("", &arg), Err(RequestError::NoSuchFunction)));
}

#[test]
fn serve_answers_requests() {
    let mut matcher = Matcher::new();
    let selection = request_from_value("selected", &line_value("b", "xyz")).unwrap();
    assert!(matches!(serve(&mut matcher, selection), Reply::Noted));
    assert_eq!(matcher.clock(), 1);
    let arg = Value::Map(vec![
        (Value::from("query"), Value::from("")),
        (Value::from("context"), Value::from("")),
        (Value::from("num_matches"), Value::from(1)),
        (Value::from("lines"), Value::Array(vec![line_value("a", "foobar"), line_value("b", "xyz")])),
    ]);
    let request = request_from_value("match", &arg).unwrap();
    match serve(&mut matcher, request) {
        Reply::Matches(results) => {
            assert_eq!(results.len(), 1);
            assert_eq!(results[0].index, 1);
            assert_eq!(results[0].frequency_score, 10 * SCORE_UNIT);
        }
        other => panic!("unexpected {:?}", other),
    }
    assert_eq!(Field::NumMatches.key(), "num_matches");
}
