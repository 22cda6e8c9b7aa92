//! The requests of the editor: what it may ask, how a request is read from
//! MessagePack values, and what the finder answers.

use crate::lookup::{field_of, lookup, LookupError};
use crate::matcher::{candidates, Matcher, OwnedLine};
use crate::score::Match;
use crate::topk::is_top_k;
use crate::value::{
    value_as_array, value_as_str, value_as_u64, value_items, value_text, value_u64,
};
use neovim_lib::Value;
use vstd::prelude::*;

verus! {

/// A field of a request.
#[derive(Debug, Clone, Copy, PartialEq, Eq, Structural)]
pub enum Field {
    Query,
    Context,
    NumMatches,
    Lines,
    Path,
    Name,
}

impl Field {
    /// The key under which the field stands in a map.
    pub fn key(&self) -> (key: &'static str)
        ensures
            key@ == self.key_spec(),
    {
        match self {
            Field::Query => "query",
            Field::Context => "context",
            Field::NumMatches => "num_matches",
            Field::Lines => "lines",
            Field::Path => "path",
            Field::Name => "name",
        }
    }

    /// The key under which the field stands in a map.
    pub open spec fn key_spec(&self) -> Seq<char> {
        match *self {
            Field::Query => "query"@,
            Field::Context => "context"@,
            Field::NumMatches => "num_matches"@,
            Field::Lines => "lines"@,
            Field::Path => "path"@,
            Field::Name => "name"@,
        }
    }
}

/// Why a request cannot be read.
#[derive(Debug, Clone, Copy, PartialEq, Eq, Structural)]
pub enum RequestError {
    /// The field is not there.
    Missing(Field, LookupError),
    /// The field does not hold what it should: a string for the query, the
    /// context, a path and a name; an integer that is not negative for the
    /// number of matches; an array for the lines.
    WrongType(Field),
    /// The request has a name that the finder does not know.
    NoSuchFunction,
}

/// A line as a pair of its path and its text.
pub type LineText = (Seq<char>, Seq<char>);

/// A request for the best matches of some lines.
#[derive(Debug)]
pub struct MatchRequest {
    pub query: String,
    pub context: String,
    pub num_matches: u64,
    pub lines: Vec<OwnedLine>,
}

/// What the editor may ask.
#[derive(Debug)]
pub enum Request {
    /// The best matches of the lines for a query.
    Match(MatchRequest),
    /// Take note that the user selected this line.
    Selected(OwnedLine),
}

/// What the finder answers.
#[derive(Debug)]
pub enum Reply {
    /// The best matches, the highest ranked first.
    Matches(Vec<Match>),
    /// The selection was noted.
    Noted,
}

/// The path and the text of each line.
pub open spec fn texts(lines: Seq<OwnedLine>) -> Seq<LineText> {
    Seq::new(lines.len(), |i: int| (lines[i].path@, lines[i].line@))
}

/// The string that the map `val` holds in the field `field`.
pub open spec fn text_field(val: Value, field: Field) -> Result<Seq<char>, RequestError> {
    match field_of(val, field.key_spec()) {
        Err(error) => Err(RequestError::Missing(field, error)),
        Ok(value) => match value_text(value) {
            Some(text) => Ok(text),
            None => Err(RequestError::WrongType(field)),
        },
    }
}

/// The line that the map `val` describes: its path stands under `path`,
/// its text under `name`. The path is read first.
pub open spec fn line_of(val: Value) -> Result<LineText, RequestError> {
    match text_field(val, Field::Path) {
        Err(error) => Err(error),
        Ok(path) => match text_field(val, Field::Name) {
            Err(error) => Err(error),
            Ok(name) => Ok((path, name)),
        },
    }
}

/// The lines that `items` describe, or what is wrong with the first item
/// that describes none.
pub open spec fn lines_of(items: Seq<Value>) -> Result<Seq<LineText>, RequestError>
    decreases items.len(),
{
    if items.len() == 0 {
        Ok(Seq::empty())
    } else {
        match lines_of(items.drop_last()) {
            Err(error) => Err(error),
            Ok(lines) => match line_of(items.last()) {
                Err(error) => Err(error),
                Ok(line) => Ok(lines.push(line)),
            },
        }
    }
}

/// The string in the field `field` of the map `val`.
pub fn read_text<'a>(val: &'a Value, field: Field) -> (text: Result<&'a str, RequestError>)
    ensures
        text matches Ok(s) ==> text_field(*val, field) == Ok::<Seq<char>, RequestError>(s@),
        text matches Err(error) ==> text_field(*val, field) == Err::<Seq<char>, RequestError>(
            error,
        ),
{
    let value = match lookup(val, field.key()) {
        Ok(value) => value,
        Err(error) => {
            return Err(RequestError::Missing(field, error));
        },
    };
    match value_as_str(value) {
        Some(text) => Ok(text),
        None => Err(RequestError::WrongType(field)),
    }
}

/// The line that the map `val` describes.
pub fn line_from_value(val: &Value) -> (line: Result<OwnedLine, RequestError>)
    ensures
        line matches Ok(l) ==> line_of(*val) == Ok::<LineText, RequestError>((l.path@, l.line@)),
        line matches Err(error) ==> line_of(*val) == Err::<LineText, RequestError>(error),
{
    let path = match read_text(val, Field::Path) {
        Ok(path) => path,
        Err(error) => {
            return Err(error);
        },
    };
    let name = match read_text(val, Field::Name) {
        Ok(name) => name,
        Err(error) => {
            return Err(error);
        },
    };
    Ok(OwnedLine { path: path.to_owned(), line: name.to_owned() })
}

/// The lines that `items` describe.
pub fn lines_from_values(items: &Vec<Value>) -> (lines: Result<Vec<OwnedLine>, RequestError>)
    ensures
        lines matches Ok(list) ==> lines_of(items@) == Ok::<Seq<LineText>, RequestError>(
            texts(list@),
        ),
        lines matches Err(error) ==> lines_of(items@) == Err::<Seq<LineText>, RequestError>(
            error,
        ),
{
    let mut lines: Vec<OwnedLine> = Vec::new();
    let mut i: usize = 0;
    assert(items@.take(0) == Seq::<Value>::empty());
    assert(texts(lines@) == Seq::<LineText>::empty());
    while i < items.len()
        invariant
            i <= items@.len(),
            lines_of(items@.take(i as int)) == Ok::<Seq<LineText>, RequestError>(texts(lines@)),
        decreases items.len() - i,
    {
        proof {
            assert(items@.take(i + 1).drop_last() == items@.take(i as int));
            assert(items@.take(i + 1).last() == items@[i as int]);
        }
        let ghost before = lines@;
        match line_from_value(&items[i]) {
            Ok(line) => {
                lines.push(line);
                assert(texts(lines@) == texts(before).push((line.path@, line.line@)));
            },
            Err(error) => {
                proof {
                    lemma_first_error_stays(items@, i + 1);
                }
                return Err(error);
            },
        }
        i += 1;
    }
    assert(items@.take(i as int) == items@);
    Ok(lines)
}

/// Once an item describes no line, no further items change the outcome.
proof fn lemma_first_error_stays(items: Seq<Value>, n: int)
    requires
        0 <= n <= items.len(),
        lines_of(items.take(n)) is Err,
    ensures
        lines_of(items) == lines_of(items.take(n)),
    decreases items.len() - n,
{
    if n < items.len() {
        assert(items.take(n + 1).drop_last() == items.take(n));
        lemma_first_error_stays(items, n + 1);
    } else {
        assert(items.take(n) == items);
    }
}

/// What the map `arg` asks as a request for matches: the query, the
/// context, the number of matches and the lines, read in this order.
pub open spec fn match_request_of(arg: Value) -> Result<
    (Seq<char>, Seq<char>, u64, Seq<LineText>),
    RequestError,
> {
    match text_field(arg, Field::Query) {
        Err(error) => Err(error),
        Ok(query) => match text_field(arg, Field::Context) {
            Err(error) => Err(error),
            Ok(context) => match field_of(arg, Field::NumMatches.key_spec()) {
                Err(error) => Err(RequestError::Missing(Field::NumMatches, error)),
                Ok(number) => match value_u64(number) {
                    None => Err(RequestError::WrongType(Field::NumMatches)),
                    Some(num_matches) => match field_of(arg, Field::Lines.key_spec()) {
                        Err(error) => Err(RequestError::Missing(Field::Lines, error)),
                        Ok(array) => match value_items(array) {
                            None => Err(RequestError::WrongType(Field::Lines)),
                            Some(items) => match lines_of(items) {
                                Err(error) => Err(error),
                                Ok(lines) => Ok((query, context, num_matches, lines)),
                            },
                        },
                    },
                },
            },
        },
    }
}

impl MatchRequest {
    /// The request as plain values.
    pub open spec fn view_spec(&self) -> (Seq<char>, Seq<char>, u64, Seq<LineText>) {
        (self.query@, self.context@, self.num_matches, texts(self.lines@))
    }
}

/// Reads a request for matches from the map `arg`.
pub fn match_request_from_value(arg: &Value) -> (request: Result<MatchRequest, RequestError>)
    ensures
        request matches Ok(r) ==> match_request_of(*arg) == Ok::<
            (Seq<char>, Seq<char>, u64, Seq<LineText>),
            RequestError,
        >(r.view_spec()),
        request matches Err(error) ==> match_request_of(*arg) == Err::<
            (Seq<char>, Seq<char>, u64, Seq<LineText>),
            RequestError,
        >(error),
{
    let query = match read_text(arg, Field::Query) {
        Ok(query) => query,
        Err(error) => {
            return Err(error);
        },
    };
    let context = match read_text(arg, Field::Context) {
        Ok(context) => context,
        Err(error) => {
            return Err(error);
        },
    };
    let number = match lookup(arg, Field::NumMatches.key()) {
        Ok(number) => number,
        Err(error) => {
            return Err(RequestError::Missing(Field::NumMatches, error));
        },
    };
    let num_matches = match value_as_u64(number) {
        Some(num_matches) => num_matches,
        None => {
            return Err(RequestError::WrongType(Field::NumMatches));
        },
    };
    let array = match lookup(arg, Field::Lines.key()) {
        Ok(array) => array,
        Err(error) => {
            return Err(RequestError::Missing(Field::Lines, error));
        },
    };
    let items = match value_as_array(array) {
        Some(items) => items,
        None => {
            return Err(RequestError::WrongType(Field::Lines));
        },
    };
    let lines = match lines_from_values(items) {
        Ok(lines) => lines,
        Err(error) => {
            return Err(error);
        },
    };
    Ok(MatchRequest { query: query.to_owned(), context: context.to_owned(), num_matches, lines })
}

/// Reads the request named `name` from its argument: `match` asks for
/// matches, `selected` reports a selection.
pub fn request_from_value(name: &str, arg: &Value) -> (request: Result<Request, RequestError>)
    ensures
        name@ == "match"@ ==> match request {
            Ok(Request::Match(r)) => match_request_of(*arg) == Ok::<
                (Seq<char>, Seq<char>, u64, Seq<LineText>),
                RequestError,
            >(r.view_spec()),
            Ok(Request::Selected(_)) => false,
            Err(error) => match_request_of(*arg) == Err::<
                (Seq<char>, Seq<char>, u64, Seq<LineText>),
                RequestError,
            >(error),
        },
        name@ != "match"@ && name@ == "selected"@ ==> match request {
            Ok(Request::Selected(l)) => line_of(*arg) == Ok::<LineText, RequestError>(
                (l.path@, l.line@),
            ),
            Ok(Request::Match(_)) => false,
            Err(error) => line_of(*arg) == Err::<LineText, RequestError>(error),
        },
        name@ != "match"@ && name@ != "selected"@ ==> request matches Err(
            RequestError::NoSuchFunction,
        ),
{
    let name = name.to_owned();
    if name == "match".to_owned() {
        match match_request_from_value(arg) {
            Ok(request) => Ok(Request::Match(request)),
            Err(error) => Err(error),
        }
    } else if name == "selected".to_owned() {
        match line_from_value(arg) {
            Ok(line) => Ok(Request::Selected(line)),
            Err(error) => Err(error),
        }
    } else {
        Err(RequestError::NoSuchFunction)
    }
}

/// Answers a request: a request for matches with the best matches of its
/// lines; a selection by recording it, unless the clock of the scorer can
/// count no further.
pub fn serve(matcher: &mut Matcher, request: Request) -> (reply: Reply)
    requires
        old(matcher).wf(),
    ensures
        final(matcher).wf(),
        match request {
            Request::Match(r) => {
                &&& final(matcher)@ == old(matcher)@
                &&& reply matches Reply::Matches(results)
                &&& is_top_k(
                    results@,
                    candidates(old(matcher)@, r.query@, r.context@, r.lines@),
                    r.num_matches as nat,
                )
            },
            Request::Selected(line) => {
                &&& reply is Noted
                &&& final(matcher)@ == if old(matcher)@.clock < usize::MAX {
                    old(matcher)@.after_update(line.path@)
                } else {
                    old(matcher)@
                }
            },
        },
{
    match request {
        Request::Match(r) => {
            let results = matcher.best_matches(
                r.query.as_str(),
                r.context.as_str(),
                r.num_matches,
                r.lines.as_slice(),
            );
            Reply::Matches(results)
        },
        Request::Selected(line) => {
            if matcher.clock() < usize::MAX {
                matcher.update(line.path.as_str());
            }
            Reply::Noted
        },
    }
}

} // verus!
