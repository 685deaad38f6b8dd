//! A log as a flat list of columns.
//!
//! A log that arrives as a JSON object is spread out breadth first: the
//! fields of the object come first, in their order, then the fields of the
//! objects among them, and so on. A field of a nested object is called by the
//! path that leads to it, the names joined by dots. Arrays are left out.

use crate::common::log::{
    error_message, fields_view, json_document, Json, JsonView, ParseLogErr, ParseLogErrView,
};
use std::collections::VecDeque;
use vstd::prelude::*;
use vstd::string::*;
use vstd::utf8::encode_utf8;

verus! {

/// The kinds of value a column can hold.
#[derive(Debug, Clone, Copy, PartialEq, Eq, Structural)]
pub enum ColumnType {
    Null,
    Bool,
    Number,
    String,
}

/// One value of a log with the path that names it.
#[derive(Debug)]
pub struct Column {
    pub key: String,
    pub column_type: ColumnType,
    pub value: Json,
}

/// A [`Column`] as a mathematical value.
pub struct ColumnView {
    pub key: Seq<char>,
    pub column_type: ColumnType,
    pub value: JsonView,
}

impl View for Column {
    type V = ColumnView;

    open spec fn view(&self) -> ColumnView {
        ColumnView { key: self.key@, column_type: self.column_type, value: self.value@ }
    }
}

/// The columns of a list as mathematical values.
pub open spec fn columns_view(columns: Seq<Column>) -> Seq<ColumnView> {
    Seq::new(columns.len(), |i: int| columns[i]@)
}

/// The number of values in a document, arrays counted as one.
pub open spec fn json_size(value: JsonView) -> nat
    decreases value,
{
    match value {
        JsonView::Object(fields) => 1 + fields_size(fields),
        _ => 1,
    }
}

/// The number of values in a row of fields.
pub open spec fn fields_size(fields: Seq<(Seq<char>, JsonView)>) -> nat
    decreases fields,
{
    if fields.len() == 0 {
        0
    } else {
        json_size(fields[0].1) + fields_size(fields.drop_first())
    }
}

/// The fields of a nested object, each called by its path: the path of the
/// object, a dot, the field's own name.
pub open spec fn prefixed(key: Seq<char>, fields: Seq<(Seq<char>, JsonView)>) -> Seq<
    (Seq<char>, JsonView),
> {
    Seq::new(fields.len(), |i: int| (key + "."@ + fields[i].0, fields[i].1))
}

/// The kind of a value that is neither object nor array.
pub open spec fn leaf_type(value: JsonView) -> ColumnType {
    match value {
        JsonView::Bool(_) => ColumnType::Bool,
        JsonView::Number { .. } => ColumnType::Number,
        JsonView::String(_) => ColumnType::String,
        _ => ColumnType::Null,
    }
}

/// The columns of the values in `pending`, breadth first: the first value is
/// dealt with, then the rest, then what the first value added behind them.
pub open spec fn flattened(pending: Seq<(Seq<char>, JsonView)>) -> Seq<ColumnView>
    decreases fields_size(pending),
    via flattened_decreases
{
    if pending.len() == 0 {
        Seq::empty()
    } else {
        let key = pending[0].0;
        let rest = pending.drop_first();
        match pending[0].1 {
            JsonView::Object(fields) => flattened(rest + prefixed(key, fields)),
            JsonView::Array(_) => flattened(rest),
            leaf => seq![ColumnView { key, column_type: leaf_type(leaf), value: leaf }] + flattened(
                rest,
            ),
        }
    }
}

#[via_fn]
proof fn flattened_decreases(pending: Seq<(Seq<char>, JsonView)>) {
    if pending.len() > 0 {
        lemma_size_of_first(pending);
    }
}

/// Dealing with the first of the pending values leaves fewer values to deal
/// with, whatever the first value adds behind the rest.
proof fn lemma_size_of_first(pending: Seq<(Seq<char>, JsonView)>)
    requires
        pending.len() > 0,
    ensures
        fields_size(pending.drop_first()) < fields_size(pending),
        pending[0].1 matches JsonView::Object(fields) ==> fields_size(
            pending.drop_first() + prefixed(pending[0].0, fields),
        ) < fields_size(pending),
{
    let rest = pending.drop_first();
    assert(fields_size(pending) == json_size(pending[0].1) + fields_size(rest));
    match pending[0].1 {
        JsonView::Object(fields) => {
            assert(json_size(pending[0].1) == 1 + fields_size(fields));
            lemma_size_of_prefixed(pending[0].0, fields);
            lemma_size_adds(rest, prefixed(pending[0].0, fields));
        },
        _ => {
            assert(json_size(pending[0].1) == 1);
        },
    }
}

/// Two rows of fields hold as many values as both together.
proof fn lemma_size_adds(a: Seq<(Seq<char>, JsonView)>, b: Seq<(Seq<char>, JsonView)>)
    ensures
        fields_size(a + b) == fields_size(a) + fields_size(b),
    decreases a.len(),
{
    if a.len() == 0 {
        assert(a + b =~= b);
    } else {
        lemma_size_adds(a.drop_first(), b);
        assert((a + b).drop_first() =~= a.drop_first() + b);
    }
}

/// Calling fields by their path does not change how many values they hold.
proof fn lemma_size_of_prefixed(key: Seq<char>, fields: Seq<(Seq<char>, JsonView)>)
    ensures
        fields_size(prefixed(key, fields)) == fields_size(fields),
    decreases fields.len(),
{
    if fields.len() > 0 {
        lemma_size_of_prefixed(key, fields.drop_first());
        assert(prefixed(key, fields).drop_first() =~= prefixed(key, fields.drop_first()));
    }
}

/// What the columns of a payload are, given what the JSON parser made of it:
/// those of its fields if it is an object, else the reason why there are
/// none.
pub open spec fn columns_of(text: Seq<char>, document: Result<JsonView, Seq<char>>) -> Result<
    Seq<ColumnView>,
    ParseLogErrView,
> {
    match document {
        Err(error) => Err(ParseLogErrView::ParseError { log: text, error }),
        Ok(JsonView::Object(fields)) => Ok(flattened(fields)),
        Ok(_) => Err(ParseLogErrView::NotAnObject),
    }
}

/// The outcome of spreading out a payload as a mathematical value.
pub open spec fn columns_outcome_view(outcome: Result<Vec<Column>, ParseLogErr>) -> Result<
    Seq<ColumnView>,
    ParseLogErrView,
> {
    match outcome {
        Ok(columns) => Ok(columns_view(columns@)),
        Err(error) => Err(error@),
    }
}

/// Moves the fields into a queue, keeping their order.
fn into_queue(fields: Vec<(String, Json)>) -> (queue: VecDeque<(String, Json)>)
    ensures
        queue@ == fields@,
{
    let mut fields = fields;
    let ghost all = fields@;
    let mut queue: VecDeque<(String, Json)> = VecDeque::new();
    while fields.len() > 0
        invariant
            fields@.len() <= all.len(),
            fields@ =~= all.take(fields@.len() as int),
            queue@ =~= all.skip(fields@.len() as int),
        decreases fields.len(),
    {
        let last = fields.pop().unwrap();
        queue.push_front(last);
    }
    assert(all.skip(0) =~= all);
    queue
}

/// The kind of a value that is neither object nor array.
fn column_type_of(value: &Json) -> (kind: ColumnType)
    ensures
        kind == leaf_type(value@),
{
    match value {
        Json::Bool(_) => ColumnType::Bool,
        Json::Number { .. } => ColumnType::Number,
        Json::String(_) => ColumnType::String,
        _ => ColumnType::Null,
    }
}

/// Spreads the fields of an object out into columns.
pub fn columns_of_fields(fields: Vec<(String, Json)>) -> (columns: Vec<Column>)
    ensures
        columns_view(columns@) == flattened(fields_view(fields@)),
{
    let ghost all = fields_view(fields@);
    let mut pending = into_queue(fields);
    let mut columns: Vec<Column> = Vec::new();
    assert(columns_view(columns@) + flattened(fields_view(pending@)) =~= flattened(all));
    loop
        invariant
            columns_view(columns@) + flattened(fields_view(pending@)) == flattened(all),
        ensures
            columns_view(columns@) == flattened(all),
        decreases fields_size(fields_view(pending@)),
    {
        let ghost waiting = fields_view(pending@);
        let ghost done = columns_view(columns@);
        match pending.pop_front() {
            None => {
                assert(done + Seq::<ColumnView>::empty() =~= done);
                break ;
            },
            Some((key, value)) => {
                let ghost rest = fields_view(pending@);
                assert(rest =~= waiting.drop_first());
                assert(waiting[0] == (key@, value@));
                proof {
                    lemma_size_of_first(waiting);
                }
                match value {
                    Json::Object(children) => {
                        let ghost added = prefixed(key@, fields_view(children@));
                        let mut children = into_queue(children);
                        let ghost nested = fields_view(children@);
                        let ghost base = pending@;
                        assert(fields_view(pending@) + prefixed(key@, nested).skip(0) =~= rest
                            + added);
                        loop
                            invariant
                                children@.len() <= nested.len(),
                                fields_view(children@) == nested.skip(
                                    nested.len() - children@.len(),
                                ),
                                fields_view(pending@) + prefixed(key@, nested).skip(
                                    nested.len() - children@.len(),
                                ) == rest + added,
                                added == prefixed(key@, nested),
                            ensures
                                fields_view(pending@) == rest + added,
                            decreases children@.len(),
                        {
                            let ghost at = nested.len() - children@.len();
                            let ghost before = fields_view(pending@);
                            let ghost left = children@;
                            match children.pop_front() {
                                None => {
                                    assert(added.skip(at) =~= Seq::<
                                        (Seq<char>, JsonView),
                                    >::empty());
                                    assert(before + Seq::<(Seq<char>, JsonView)>::empty()
                                        =~= before);
                                    break ;
                                },
                                Some((name, child)) => {
                                    assert(nested.skip(at)[0] == (name@, child@));
                                    assert(fields_view(children@) =~= fields_view(
                                        left,
                                    ).drop_first());
                                    assert(nested.skip(at).drop_first() =~= nested.skip(at + 1));
                                    let mut path = key.clone();
                                    path.append(".");
                                    path.append(name.as_str());
                                    assert(added[at] == (path@, child@));
                                    pending.push_back((path, child));
                                    assert(fields_view(pending@) =~= before.push(added[at]));
                                    assert(before.push(added[at]) + added.skip(at + 1) =~= before
                                        + added.skip(at));
                                },
                            }
                        }
                    },
                    Json::Array(_) => {},
                    leaf => {
                        let ghost made = ColumnView {
                            key: key@,
                            column_type: leaf_type(leaf@),
                            value: leaf@,
                        };
                        let column_type = column_type_of(&leaf);
                        columns.push(Column { key, column_type, value: leaf });
                        assert(columns_view(columns@) =~= done.push(made));
                        assert(done.push(made) + flattened(rest) =~= done + (seq![made]
                            + flattened(rest)));
                    },
                }
            },
        }
    }
    columns
}

/// Spreads a payload out into columns. The payload has to be a JSON object.
pub fn parse_log_into_columns(raw_json: String) -> (outcome: Result<Vec<Column>, ParseLogErr>)
    ensures
        columns_outcome_view(outcome) == columns_of(
            raw_json@,
            json_document(encode_utf8(raw_json@)),
        ),
{
    match Json::parse(raw_json.as_str().as_bytes()) {
        Err(error) => Err(ParseLogErr::ParseError { log: raw_json, error }),
        Ok(Json::Object(fields)) => Ok(columns_of_fields(fields)),
        Ok(_) => Err(ParseLogErr::NotAnObject),
    }
}

/// A log that was taken in: its identifier, its time and its columns.
#[derive(Debug)]
pub struct Log {
    pub gid: String,
    pub time: u64,
    pub columns: Vec<Column>,
}

/// Why a payload was not taken in.
#[derive(Debug)]
pub struct AddLogErr {
    pub message: String,
}

/// The time a list of columns gives: the value of the first column called
/// `time`, which has to be an unsigned number of at most 64 bits. Else the
/// message that says what is wrong.
pub open spec fn time_of(columns: Seq<ColumnView>) -> Result<u64, Seq<char>>
    decreases columns.len(),
{
    if columns.len() == 0 {
        Err("'time' column is missing"@)
    } else if columns[0].key == "time"@ {
        match columns[0].value {
            JsonView::Number { unsigned: Some(time), .. } => Ok(time),
            _ => Err("'time' column has wrong format"@),
        }
    } else {
        time_of(columns.drop_first())
    }
}

/// What becomes of a payload, given its columns or the reason why it has
/// none: the time of the log, or the message that turns the payload away.
pub open spec fn taken_in(columns: Result<Seq<ColumnView>, ParseLogErrView>) -> Result<
    u64,
    Seq<char>,
> {
    match columns {
        Err(error) => Err(error_message(error)),
        Ok(columns) => time_of(columns),
    }
}

/// Makes a log of columns: its time is that of the first column called
/// `time`.
pub fn log_from_columns(columns: Vec<Column>, gid: String) -> (outcome: Result<Log, AddLogErr>)
    ensures
        match time_of(columns_view(columns@)) {
            Ok(time) => outcome matches Ok(log) && log.time == time && log.gid == gid
                && log.columns == columns,
            Err(message) => outcome matches Err(error) && error.message@ == message,
        },
{
    let ghost all = columns_view(columns@);
    let key = String::from_str("time");
    let mut i: usize = 0;
    assert(all.skip(0) =~= all);
    while i < columns.len()
        invariant
            i <= columns.len(),
            key@ == "time"@,
            all == columns_view(columns@),
            time_of(all) == time_of(all.skip(i as int)),
        decreases columns.len() - i,
    {
        let ghost rest = all.skip(i as int);
        assert(rest[0] == columns@[i as int]@);
        assert(rest.drop_first() =~= all.skip(i as int + 1));
        if columns[i].key == key {
            return match &columns[i].value {
                Json::Number { unsigned: Some(time), .. } => {
                    let time: u64 = *time;
                    Ok(Log { gid, time, columns })
                },
                _ => Err(AddLogErr { message: String::from_str("'time' column has wrong format") }),
            };
        }
        i += 1;
    }
    Err(AddLogErr { message: String::from_str("'time' column is missing") })
}

/// Takes in a payload: spreads it out into columns, reads its time and gives
/// it the identifier `gid`, which the caller has drawn for it.
pub fn add_log(req_body: String, gid: String) -> (outcome: Result<Log, AddLogErr>)
    ensures
        match taken_in(columns_of(req_body@, json_document(encode_utf8(req_body@)))) {
            Ok(time) => outcome matches Ok(log) && log.time == time && log.gid == gid && Ok::<
                Seq<ColumnView>,
                ParseLogErrView,
            >(columns_view(log.columns@)) == columns_of(
                req_body@,
                json_document(encode_utf8(req_body@)),
            ),
            Err(message) => outcome matches Err(error) && error.message@ == message,
        },
{
    match parse_log_into_columns(req_body) {
        Err(error) => Err(AddLogErr { message: error.message() }),
        Ok(columns) => log_from_columns(columns, gid),
    }
}

/// The answer to a request that brought a payload: the status, and the
/// message that goes with a refusal.
pub fn add_log_wrap(outcome: &Result<Log, AddLogErr>) -> (response: (u16, String))
    ensures
        match outcome {
            Ok(_) => response.0 == 200 && response.1@ == Seq::<char>::empty(),
            Err(error) => response.0 == 400 && response.1@ == error.message@,
        },
{
    match outcome {
        Ok(_) => (200, String::new()),
        Err(error) => (400, error.message.clone()),
    }
}

} // verus!
