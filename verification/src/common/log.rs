//! The log record and its codec.
//!
//! A record is accepted if its payload is a JSON object with a field `time`
//! that holds a non-negative integer of at most 64 bits. The record keeps the
//! payload exactly as it came in, so that every stage forwards the same bytes.

use bytes::Bytes;
use vstd::prelude::*;
use vstd::string::*;

verus! {

/// Milliseconds since the epoch.
pub type Timestamp = u64;

/// `bytes::Bytes`, an immutable byte buffer. Verus sees nothing inside it;
/// [`bytes_seq`] names what it holds.
#[verifier::external_type_specification]
#[verifier::external_body]
pub struct ExBytes(Bytes);

/// `serde_json::Value`, a parsed JSON document. Verus sees nothing inside
/// it; [`value_view`] names what it holds. It only passes from the parser to
/// the conversion into [`Json`].
#[verifier::external_type_specification]
#[verifier::external_body]
pub struct ExValue(serde_json::Value);

/// The bytes a buffer holds.
pub uninterp spec fn bytes_seq(buffer: Bytes) -> Seq<u8>;

/// The document a `serde_json::Value` holds: its tree of values, each number
/// with what `as_u64` reads of it and what its `Display` prints, the fields
/// of each object in the order in which its map hands them out.
pub uninterp spec fn value_view(value: serde_json::Value) -> JsonView;

/// What `serde_json::from_slice` makes of `bytes` when asked for a
/// `serde_json::Value`: the document, or the text of the parser's error.
pub uninterp spec fn json_document(bytes: Seq<u8>) -> Result<JsonView, Seq<char>>;

/// The text `String::from_utf8_lossy` gives for `bytes`.
pub uninterp spec fn utf8_lossy_text(bytes: Seq<u8>) -> Seq<char>;

/// The text that `{:?}` prints for a string: quoted and escaped.
pub uninterp spec fn debug_text(text: Seq<char>) -> Seq<char>;

/// A JSON document.
#[derive(Debug)]
pub enum Json {
    Null,
    Bool(bool),
    /// A number: its value where it is a non-negative integer that fits 64
    /// bits, which is what a timestamp has to be, and the number as JSON
    /// text, which every number has.
    Number { unsigned: Option<u64>, text: String },
    String(String),
    Array(Vec<Json>),
    /// An object: its fields with their names.
    Object(Vec<(String, Json)>),
}

/// A JSON document as a mathematical value.
pub enum JsonView {
    Null,
    Bool(bool),
    Number { unsigned: Option<u64>, text: Seq<char> },
    String(Seq<char>),
    Array(Seq<JsonView>),
    Object(Seq<(Seq<char>, JsonView)>),
}

/// The mathematical value of a document.
pub open spec fn json_view(json: Json) -> JsonView
    decreases json,
{
    match json {
        Json::Null => JsonView::Null,
        Json::Bool(value) => JsonView::Bool(value),
        Json::Number { unsigned, text } => JsonView::Number { unsigned, text: text@ },
        Json::String(text) => JsonView::String(text@),
        Json::Array(items) => JsonView::Array(
            Seq::new(
                items@.len(),
                |i: int|
                    if 0 <= i < items@.len() {
                        json_view(items@[i])
                    } else {
                        JsonView::Null
                    },
            ),
        ),
        Json::Object(fields) => JsonView::Object(fields_view(fields@)),
    }
}

/// The fields of an object as mathematical values.
pub open spec fn fields_view(fields: Seq<(String, Json)>) -> Seq<(Seq<char>, JsonView)>
    decreases fields,
{
    Seq::new(
        fields.len(),
        |i: int|
            if 0 <= i < fields.len() {
                (fields[i].0@, json_view(fields[i].1))
            } else {
                (Seq::empty(), JsonView::Null)
            },
    )
}

impl View for Json {
    type V = JsonView;

    open spec fn view(&self) -> JsonView {
        json_view(*self)
    }
}

/// Turns a `serde_json::Value` into a [`Json`] that holds the same document:
/// each variant becomes the variant of the same name, an object's fields stay
/// in the order in which `serde_json::Map` hands them out. A number is read
/// with `serde_json::Number::as_u64` and printed with its `Display`.
#[verifier::external_body]
fn json_from_value(value: &serde_json::Value) -> (json: Json)
    ensures
        json@ == value_view(*value),
{
    match value {
        serde_json::Value::Null => Json::Null,
        serde_json::Value::Bool(flag) => Json::Bool(*flag),
        serde_json::Value::Number(number) => Json::Number {
            unsigned: number.as_u64(),
            text: number.to_string(),
        },
        serde_json::Value::String(text) => Json::String(text.clone()),
        serde_json::Value::Array(items) => Json::Array(items.iter().map(json_from_value).collect()),
        serde_json::Value::Object(fields) => Json::Object(
            fields.iter().map(|(name, field)| (name.clone(), json_from_value(field))).collect(),
        ),
    }
}

/// Calls `serde_json::from_slice` for a `serde_json::Value`. The parser reads
/// nothing but `bytes`, so its outcome is a function of them; no more is
/// claimed. An error is handed on as the text it prints.
#[verifier::external_body]
fn parse_value(bytes: &[u8]) -> (parsed: Result<serde_json::Value, String>)
    ensures
        json_document(bytes@) == match parsed {
            Ok(value) => Ok::<JsonView, Seq<char>>(value_view(value)),
            Err(error) => Err::<JsonView, Seq<char>>(error@),
        },
{
    match serde_json::from_slice::<serde_json::Value>(bytes) {
        Ok(value) => Ok(value),
        Err(error) => Err(format!("{}", error)),
    }
}

/// The outcome of parsing as a mathematical value.
pub open spec fn document_view(parsed: Result<Json, String>) -> Result<JsonView, Seq<char>> {
    match parsed {
        Ok(document) => Ok(document@),
        Err(error) => Err(error@),
    }
}

/// Calls `bytes::Bytes::copy_from_slice`, which copies `data` into a new
/// buffer.
#[verifier::external_body]
fn copy_to_bytes(data: &[u8]) -> (buffer: Bytes)
    ensures
        bytes_seq(buffer) == data@,
{
    Bytes::copy_from_slice(data)
}

/// `Clone::clone` of `bytes::Bytes` hands out a second handle to the same
/// bytes.
pub assume_specification[ <Bytes as Clone>::clone ](buffer: &Bytes) -> (copy: Bytes)
    ensures
        bytes_seq(copy) == bytes_seq(*buffer),
;

/// Calls `AsRef::<[u8]>::as_ref` of `bytes::Bytes`, which lends the bytes the
/// buffer holds.
#[verifier::external_body]
fn bytes_as_slice(buffer: &Bytes) -> (data: &[u8])
    ensures
        data@ == bytes_seq(*buffer),
{
    buffer.as_ref()
}

/// Calls `String::from_utf8_lossy`, which decodes UTF-8 and puts U+FFFD where
/// the bytes are not valid. The text depends on the bytes alone.
#[verifier::external_body]
fn lossy_text(bytes: &[u8]) -> (text: String)
    ensures
        text@ == utf8_lossy_text(bytes@),
{
    String::from_utf8_lossy(bytes).into_owned()
}

/// Formats a string with `{:?}`, that is with `<str as Debug>::fmt`: in
/// double quotes, with escapes. The result depends on the string alone.
#[verifier::external_body]
fn quoted(text: &String) -> (shown: String)
    ensures
        shown@ == debug_text(text@),
{
    format!("{:?}", text)
}

/// Why a payload is not a log record.
#[derive(Debug)]
pub enum ParseLogErr {
    /// The payload is not JSON at all. `log` is the payload as text, `error`
    /// what the parser said.
    ParseError { log: String, error: String },
    /// The payload is JSON, but not an object.
    NotAnObject,
    /// The object has no field `time`.
    TimeColumnMissing,
    /// The field `time` is not a non-negative integer of at most 64 bits.
    TimeColumnHasWrongFormat,
}

/// A [`ParseLogErr`] as a mathematical value.
pub enum ParseLogErrView {
    ParseError { log: Seq<char>, error: Seq<char> },
    NotAnObject,
    TimeColumnMissing,
    TimeColumnHasWrongFormat,
}

impl View for ParseLogErr {
    type V = ParseLogErrView;

    open spec fn view(&self) -> ParseLogErrView {
        match self {
            ParseLogErr::ParseError { log, error } => ParseLogErrView::ParseError {
                log: log@,
                error: error@,
            },
            ParseLogErr::NotAnObject => ParseLogErrView::NotAnObject,
            ParseLogErr::TimeColumnMissing => ParseLogErrView::TimeColumnMissing,
            ParseLogErr::TimeColumnHasWrongFormat => ParseLogErrView::TimeColumnHasWrongFormat,
        }
    }
}

/// The message of each error.
pub open spec fn error_message(error: ParseLogErrView) -> Seq<char> {
    match error {
        ParseLogErrView::ParseError { log, error } => "Could not parse json. Log: '"@ + debug_text(
            log,
        ) + "'. Error: '"@ + debug_text(error) + "'"@,
        ParseLogErrView::NotAnObject => "Payload is not an object"@,
        ParseLogErrView::TimeColumnMissing => "'time' column is missing"@,
        ParseLogErrView::TimeColumnHasWrongFormat => "'time' column has wrong format"@,
    }
}

impl ParseLogErr {
    /// A message for people. Callers that must tell the errors apart match on
    /// the variant.
    pub fn message(&self) -> (message: String)
        ensures
            message@ == error_message(self@),
    {
        match self {
            ParseLogErr::ParseError { log, error } => {
                let mut message = String::from_str("Could not parse json. Log: '");
                let log_shown = quoted(log);
                message.append(log_shown.as_str());
                message.append("'. Error: '");
                let error_shown = quoted(error);
                message.append(error_shown.as_str());
                message.append("'");
                message
            },
            ParseLogErr::NotAnObject => String::from_str("Payload is not an object"),
            ParseLogErr::TimeColumnMissing => String::from_str("'time' column is missing"),
            ParseLogErr::TimeColumnHasWrongFormat => String::from_str(
                "'time' column has wrong format",
            ),
        }
    }
}

/// The name of the field that holds a record's timestamp.
pub open spec fn time_column() -> Seq<char> {
    "time"@
}

/// The first field of an object that is called `name`.
pub open spec fn field(fields: Seq<(Seq<char>, JsonView)>, name: Seq<char>) -> Option<JsonView>
    decreases fields.len(),
{
    if fields.len() == 0 {
        None
    } else if fields[0].0 == name {
        Some(fields[0].1)
    } else {
        field(fields.drop_first(), name)
    }
}

/// A log record: a payload that passed the codec, with the timestamp found
/// in it.
#[derive(Debug)]
pub struct Log {
    /// The value of the payload's `time` field.
    pub time: Timestamp,
    /// The payload, byte for byte as it was received.
    pub original_data: Bytes,
    /// The length of the payload.
    pub size_in_bytes: usize,
}

/// A [`Log`] as a mathematical value.
pub struct LogView {
    pub time: Timestamp,
    pub original_data: Seq<u8>,
    pub size_in_bytes: nat,
}

impl View for Log {
    type V = LogView;

    open spec fn view(&self) -> LogView {
        LogView {
            time: self.time,
            original_data: bytes_seq(self.original_data),
            size_in_bytes: self.size_in_bytes as nat,
        }
    }
}

impl Clone for Log {
    fn clone(&self) -> (copy: Log)
        ensures
            copy@ == self@,
    {
        Log {
            time: self.time,
            original_data: self.original_data.clone(),
            size_in_bytes: self.size_in_bytes,
        }
    }
}

/// What the codec makes of a payload, given what the JSON parser made of it
/// and the payload as text.
pub open spec fn decoded(
    bytes: Seq<u8>,
    document: Result<JsonView, Seq<char>>,
    text: Seq<char>,
) -> Result<LogView, ParseLogErrView> {
    match document {
        Err(error) => Err(ParseLogErrView::ParseError { log: text, error }),
        Ok(JsonView::Object(fields)) => match field(fields, time_column()) {
            None => Err(ParseLogErrView::TimeColumnMissing),
            Some(JsonView::Number { unsigned: Some(time), .. }) => Ok(
                LogView { time, original_data: bytes, size_in_bytes: bytes.len() },
            ),
            Some(_) => Err(ParseLogErrView::TimeColumnHasWrongFormat),
        },
        Ok(_) => Err(ParseLogErrView::NotAnObject),
    }
}

/// What the codec makes of a payload.
pub open spec fn decoded_payload(bytes: Seq<u8>) -> Result<LogView, ParseLogErrView> {
    decoded(bytes, json_document(bytes), utf8_lossy_text(bytes))
}

/// A payload that is an object with an unsigned 64-bit `time` decodes to a
/// record that holds the payload unchanged and that time.
pub proof fn lemma_decode_round_trip(
    bytes: Seq<u8>,
    fields: Seq<(Seq<char>, JsonView)>,
    time: Timestamp,
)
    requires
        json_document(bytes) == Ok::<JsonView, Seq<char>>(JsonView::Object(fields)),
        field(fields, time_column()) matches Some(JsonView::Number { unsigned: Some(found), .. })
            && found == time,
    ensures
        decoded_payload(bytes) matches Ok(log) && log.time == time && log.original_data == bytes
            && log.size_in_bytes == bytes.len(),
{
}

/// The codec accepts exactly the payloads that are an object with an
/// unsigned 64-bit `time`, and each error comes with the first rule that the
/// payload breaks.
pub proof fn lemma_decode_rejections(bytes: Seq<u8>)
    ensures
        decoded_payload(bytes) is Ok <==> (json_document(bytes) matches Ok(JsonView::Object(fields))
            && field(fields, time_column()) matches Some(
            JsonView::Number { unsigned: Some(_), .. },
        )),
        decoded_payload(bytes) matches Err(ParseLogErrView::ParseError { .. }) <==> json_document(
            bytes,
        ) is Err,
        decoded_payload(bytes) == Err::<LogView, ParseLogErrView>(ParseLogErrView::NotAnObject)
            <==> (json_document(bytes) matches Ok(document) && !(document is Object)),
        decoded_payload(bytes) == Err::<LogView, ParseLogErrView>(
            ParseLogErrView::TimeColumnMissing,
        ) <==> (json_document(bytes) matches Ok(JsonView::Object(fields)) && field(
            fields,
            time_column(),
        ) is None),
        decoded_payload(bytes) == Err::<LogView, ParseLogErrView>(
            ParseLogErrView::TimeColumnHasWrongFormat,
        ) <==> (json_document(bytes) matches Ok(JsonView::Object(fields)) && field(
            fields,
            time_column(),
        ) matches Some(value) && !(value matches JsonView::Number { unsigned: Some(_), .. })),
{
}

/// The outcome of the codec as a mathematical value.
pub open spec fn outcome_view(outcome: Result<Log, ParseLogErr>) -> Result<LogView, ParseLogErrView> {
    match outcome {
        Ok(log) => Ok(log@),
        Err(error) => Err(error@),
    }
}

/// Finds the first field called `name`.
fn find_field<'a>(fields: &'a Vec<(String, Json)>, name: &String) -> (found: Option<&'a Json>)
    ensures
        match found {
            Some(value) => field(fields_view(fields@), name@) == Some(value@),
            None => field(fields_view(fields@), name@) is None,
        },
{
    let ghost all = fields_view(fields@);
    let mut i: usize = 0;
    assert(all.skip(0) =~= all);
    while i < fields.len()
        invariant
            i <= fields.len(),
            all == fields_view(fields@),
            field(all, name@) == field(all.skip(i as int), name@),
        decreases fields.len() - i,
    {
        let ghost rest = all.skip(i as int);
        assert(rest[0] == all[i as int]);
        assert(rest.drop_first() =~= all.skip(i as int + 1));
        if fields[i].0 == *name {
            return Some(&fields[i].1);
        }
        i += 1;
    }
    None
}

impl Json {
    /// Parses a JSON document.
    pub fn parse(bytes: &[u8]) -> (parsed: Result<Json, String>)
        ensures
            document_view(parsed) == json_document(bytes@),
    {
        match parse_value(bytes) {
            Ok(value) => Ok(json_from_value(&value)),
            Err(error) => Err(error),
        }
    }
}

impl Log {
    /// The record is what the codec makes of its own payload.
    pub open spec fn wf(&self) -> bool {
        decoded_payload(self@.original_data) == Ok::<LogView, ParseLogErrView>(self@)
    }

    /// The payload of the record.
    pub fn payload(&self) -> (data: &[u8])
        ensures
            data@ == self@.original_data,
    {
        bytes_as_slice(&self.original_data)
    }

    /// Decides about a payload once the JSON parser has spoken: the record,
    /// or the first reason why the payload is none. The payload must be an
    /// object, the object must have a field `time`, and that field must hold
    /// a non-negative integer of at most 64 bits.
    pub fn from_document(bytes: &[u8], parsed: Result<Json, String>) -> (outcome: Result<
        Log,
        ParseLogErr,
    >)
        ensures
            outcome_view(outcome) == decoded(
                bytes@,
                document_view(parsed),
                utf8_lossy_text(bytes@),
            ),
    {
        match parsed {
            Err(error) => Err(ParseLogErr::ParseError { log: lossy_text(bytes), error }),
            Ok(Json::Object(fields)) => {
                let key = String::from_str("time");
                match find_field(&fields, &key) {
                    None => Err(ParseLogErr::TimeColumnMissing),
                    Some(Json::Number { unsigned: Some(time), .. }) => Ok(
                        Log {
                            time: *time,
                            original_data: copy_to_bytes(bytes),
                            size_in_bytes: bytes.len(),
                        },
                    ),
                    Some(_) => Err(ParseLogErr::TimeColumnHasWrongFormat),
                }
            },
            Ok(_) => Err(ParseLogErr::NotAnObject),
        }
    }

    /// Decodes a payload into a record.
    pub fn try_from(bytes: &[u8]) -> (outcome: Result<Log, ParseLogErr>)
        ensures
            outcome_view(outcome) == decoded_payload(bytes@),
            outcome matches Ok(log) ==> log.wf(),
    {
        Log::from_document(bytes, Json::parse(bytes))
    }
}

} // verus!
