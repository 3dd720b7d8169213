//! The history of past images: what is asked of the store and how its
//! answers are handed on.
//!
//! The store itself is reached from outside the library. This module says
//! which statement each operation runs, in which steps, which failure
//! becomes which error, and how an answer is framed as a reply.

use vstd::prelude::*;
use vstd::string::*;

verus! {

/// The environment variable that names the store.
pub const DATABASE_VARIABLE: &'static str = "DATABASE_URL";

/// What can go wrong around the history.
#[derive(Debug, Clone, PartialEq, Eq)]
pub enum Error {
    /// An environment variable could not be read.
    EnvVar { env: String, source: String },
    /// The store reported a failure.
    PgError { source: String },
    /// A value could not be inserted into a table.
    PgInsert { table: String, value: String, source: String },
    /// A query failed.
    PgQuery { query: String, source: String },
    /// Rows could not be written as JSON.
    JsonError { source: String },
    /// A reply could not be built.
    HttpError { source: String },
    /// A body could not be compressed.
    EncodeError { source: String },
    /// A text is no point in time.
    ParseDateError { source: String },
    /// The store holds no image for the point in time asked for.
    NotFound,
}

/// A point in time: seconds since the start of 1970 in UTC, and the
/// nanoseconds into that second.
#[derive(Debug, Clone, Copy, PartialEq, Eq, Structural)]
pub struct Instant {
    pub secs: i64,
    pub nanos: u32,
}

/// One entry of the history: an image and the time at which the store took it.
#[derive(Debug, Clone)]
pub struct LogoState {
    pub time: Instant,
    pub logo: Vec<u8>,
}

/// The time of one entry of the history.
#[derive(Debug, Clone, Copy, PartialEq, Eq, Structural)]
pub struct HistoryIndex {
    pub time: Instant,
}

/// How much of the history is asked for.
#[derive(Debug, Copy, Clone)]
pub struct GetHistoryOptions {
    /// The greatest number of entries wanted; all of them where absent.
    pub limit: Option<u32>,
}

impl Default for GetHistoryOptions {
    fn default() -> (r: Self)
        ensures
            r.limit is None,
    {
        GetHistoryOptions { limit: None }
    }
}

/// A value bound to a placeholder of a statement.
#[derive(Debug, Clone)]
pub enum Param {
    /// An encoded image.
    Image(Vec<u8>),
    /// A point in time.
    Time(Instant),
}

/// A statement for the store, with the values of its placeholders in order.
#[derive(Debug, Clone)]
pub struct Statement {
    pub text: String,
    pub params: Vec<Param>,
}

/// The base64 text of a byte sequence, in the standard alphabet with padding.
pub uninterp spec fn base64_text(bytes: Seq<u8>) -> Seq<char>;

/// Encodes bytes as base64.
///
/// Calls `base64::encode`, which encodes in the standard alphabet with
/// padding. The contract names the text that it returns. The size asked for
/// keeps the length of the text, four characters for every three bytes
/// started, inside a `usize`, where the crate would otherwise panic.
#[verifier::external_body]
fn encode_base64(bytes: &Vec<u8>) -> (text: String)
    requires
        4 * (bytes@.len() / 3) + 4 <= usize::MAX,
    ensures
        text@ == base64_text(bytes@),
{
    base64::encode(bytes)
}

/// The text that stands for a byte sequence in a JSON document.
pub fn as_base64(key: &Vec<u8>) -> (text: String)
    requires
        4 * (key@.len() / 3) + 4 <= usize::MAX,
    ensures
        text@ == base64_text(key@),
{
    encode_base64(key)
}

impl LogoState {
    /// The image as it is written in a JSON document.
    pub fn encoded_logo(&self) -> (text: String)
        requires
            4 * (self.logo@.len() / 3) + 4 <= usize::MAX,
        ensures
            text@ == base64_text(self.logo@),
    {
        as_base64(&self.logo)
    }
}

/// The character that stands for a digit.
pub open spec fn digit_char(d: nat) -> char
    recommends
        d < 10,
{
    if d == 0 {
        '0'
    } else if d == 1 {
        '1'
    } else if d == 2 {
        '2'
    } else if d == 3 {
        '3'
    } else if d == 4 {
        '4'
    } else if d == 5 {
        '5'
    } else if d == 6 {
        '6'
    } else if d == 7 {
        '7'
    } else if d == 8 {
        '8'
    } else {
        '9'
    }
}

/// A number in decimal digits, without leading zeros.
pub open spec fn decimal_text(n: nat) -> Seq<char>
    decreases n,
{
    if n < 10 {
        seq![digit_char(n)]
    } else {
        decimal_text(n / 10).push(digit_char(n % 10))
    }
}

fn digit_text(d: u32) -> (r: &'static str)
    requires
        d < 10,
    ensures
        r@ == seq![digit_char(d as nat)],
{
    proof {
        reveal_strlit("0");
        reveal_strlit("1");
        reveal_strlit("2");
        reveal_strlit("3");
        reveal_strlit("4");
        reveal_strlit("5");
        reveal_strlit("6");
        reveal_strlit("7");
        reveal_strlit("8");
        reveal_strlit("9");
    }
    let r = if d == 0 {
        "0"
    } else if d == 1 {
        "1"
    } else if d == 2 {
        "2"
    } else if d == 3 {
        "3"
    } else if d == 4 {
        "4"
    } else if d == 5 {
        "5"
    } else if d == 6 {
        "6"
    } else if d == 7 {
        "7"
    } else if d == 8 {
        "8"
    } else {
        "9"
    };
    assert(r@ =~= seq![digit_char(d as nat)]);
    r
}

/// Writes a number in decimal digits.
pub fn decimal(n: u32) -> (text: String)
    ensures
        text@ == decimal_text(n as nat),
    decreases n,
{
    if n < 10 {
        String::from_str(digit_text(n))
    } else {
        let head = decimal(n / 10);
        let text = head.concat(digit_text(n % 10));
        assert(text@ =~= decimal_text(n as nat));
        text
    }
}

/// The statement that makes the table of the history where there is none.
pub open spec fn create_table_text() -> Seq<char> {
    "CREATE TABLE IF NOT EXISTS timeline (
            created_at TIMESTAMPTZ NOT NULL DEFAULT NOW() PRIMARY KEY,
            image_png BYTEA NOT NULL
        )"@
}

/// The statement that adds an image to the history.
pub open spec fn insert_text() -> Seq<char> {
    "INSERT INTO timeline (image_png) VALUES ($1)"@
}

/// The query for the whole history, oldest entry first.
pub open spec fn history_text() -> Seq<char> {
    "SELECT created_at, image_png FROM timeline ORDER BY created_at"@
}

/// The query for the image taken at a point in time.
pub open spec fn image_at_text() -> Seq<char> {
    "SELECT image_png FROM timeline WHERE created_at=$1"@
}

/// The query for the times of all entries, oldest first.
pub open spec fn index_text() -> Seq<char> {
    "SELECT created_at FROM timeline ORDER BY created_at"@
}

/// The query for the history with the given options: the whole history, or
/// its first `limit` entries.
pub open spec fn history_query_text(options: GetHistoryOptions) -> Seq<char> {
    match options.limit {
        Some(limit) => history_text() + " LIMIT "@ + decimal_text(limit as nat),
        None => history_text(),
    }
}

/// The statement that prepares the store: it is run in a transaction of its
/// own and makes the table of the history where there is none.
pub fn init_db() -> (statement: Statement)
    ensures
        statement.text@ == create_table_text(),
        statement.params@.len() == 0,
{
    Statement {
        text: String::from_str(
            "CREATE TABLE IF NOT EXISTS timeline (
            created_at TIMESTAMPTZ NOT NULL DEFAULT NOW() PRIMARY KEY,
            image_png BYTEA NOT NULL
        )",
        ),
        params: Vec::new(),
    }
}

/// The statement that stores an image: it is run in a transaction of its
/// own, with the image as its only value. The store sets the time.
pub fn save_logo(logo_png: &[u8]) -> (statement: Statement)
    ensures
        statement.text@ == insert_text(),
        statement.params@.len() == 1,
        statement.params@[0] matches Param::Image(image) && image@ == logo_png@,
{
    let mut image: Vec<u8> = Vec::new();
    let mut i: usize = 0;
    while i < logo_png.len()
        invariant
            i <= logo_png@.len(),
            image@ == logo_png@.take(i as int),
        decreases logo_png@.len() - i,
    {
        image.push(logo_png[i]);
        assert(image@ =~= logo_png@.take(i + 1));
        i += 1;
    }
    assert(logo_png@.take(logo_png@.len() as int) =~= logo_png@);
    let mut params: Vec<Param> = Vec::new();
    params.push(Param::Image(image));
    Statement { text: String::from_str("INSERT INTO timeline (image_png) VALUES ($1)"), params }
}

/// The query for the history, oldest entry first, cut off after `limit`
/// entries where a limit is given.
pub fn get_history(options: GetHistoryOptions) -> (statement: Statement)
    ensures
        statement.text@ == history_query_text(options),
        statement.params@.len() == 0,
{
    let mut text = String::from_str("SELECT created_at, image_png FROM timeline ORDER BY created_at");
    match options.limit {
        Some(limit) => {
            text.append(" LIMIT ");
            let digits = decimal(limit);
            text.append(digits.as_str());
        },
        None => {},
    }
    Statement { text, params: Vec::new() }
}

/// The query for the times of all entries, oldest first.
pub fn get_history_index() -> (statement: Statement)
    ensures
        statement.text@ == index_text(),
        statement.params@.len() == 0,
{
    Statement {
        text: String::from_str("SELECT created_at FROM timeline ORDER BY created_at"),
        params: Vec::new(),
    }
}

/// What an operation on the store consists of.
#[derive(Debug, Clone, Copy, PartialEq, Eq, Structural)]
pub enum Operation {
    /// A statement that changes the store, run in a transaction of its own.
    Write,
    /// A query.
    Read,
}

/// One step of an operation on the store.
#[derive(Debug, Clone, Copy, PartialEq, Eq, Structural)]
pub enum Step {
    /// Read where the store is and connect to it.
    Connect,
    /// Open a transaction.
    Begin,
    /// Run the statement.
    Execute,
    /// Commit the transaction.
    Commit,
}

/// Why a step did not succeed.
#[derive(Debug, Clone)]
pub enum Failure {
    /// The variable that names the store could not be read.
    Variable(String),
    /// The store reported a failure.
    Store(String),
}

/// The step that follows a step that succeeded; `None` where the operation
/// is done. A write connects, opens a transaction, runs its statement and
/// commits; a read connects and runs its statement.
pub open spec fn following(operation: Operation, step: Step) -> Option<Step> {
    match (operation, step) {
        (Operation::Write, Step::Connect) => Some(Step::Begin),
        (Operation::Write, Step::Begin) => Some(Step::Execute),
        (Operation::Write, Step::Execute) => Some(Step::Commit),
        (Operation::Read, Step::Connect) => Some(Step::Execute),
        _ => None,
    }
}

/// Whether `error` is what a failure becomes: a variable that could not be
/// read is reported with the variable's name, anything else as a failure of
/// the store, both with the text that came with the failure.
pub open spec fn reports(error: Error, failure: Failure) -> bool {
    match failure {
        Failure::Variable(text) => error matches Error::EnvVar { env, source } && env@
            == DATABASE_VARIABLE@ && source == text,
        Failure::Store(text) => error matches Error::PgError { source } && source == text,
    }
}

/// The error that a failed step is reported as.
pub fn store_error(failure: Failure) -> (error: Error)
    ensures
        reports(error, failure),
{
    match failure {
        Failure::Variable(text) => Error::EnvVar { env: String::from_str(DATABASE_VARIABLE), source: text },
        Failure::Store(text) => Error::PgError { source: text },
    }
}

/// The first step of every operation.
pub fn first_step() -> (step: Step)
    ensures
        step == Step::Connect,
{
    Step::Connect
}

/// Decides how an operation goes on after a step: with the next step, with
/// nothing where the operation is done, or with an error where the step
/// failed. No step is tried after one that failed.
pub fn after_step(operation: Operation, step: Step, result: Result<(), Failure>) -> (next: Result<
    Option<Step>,
    Error,
>)
    ensures
        match result {
            Ok(()) => next == Ok::<Option<Step>, Error>(following(operation, step)),
            Err(failure) => next is Err && reports(next->Err_0, failure),
        },
{
    match result {
        Err(failure) => Err(store_error(failure)),
        Ok(()) => match (operation, step) {
            (Operation::Write, Step::Connect) => Ok(Some(Step::Begin)),
            (Operation::Write, Step::Begin) => Ok(Some(Step::Execute)),
            (Operation::Write, Step::Execute) => Ok(Some(Step::Commit)),
            (Operation::Read, Step::Connect) => Ok(Some(Step::Execute)),
            _ => Ok(None),
        },
    }
}

/// A write takes four steps and a read two, each ending after its last.
pub proof fn lemma_operations_end()
    ensures
        following(Operation::Write, Step::Connect) == Some(Step::Begin),
        following(Operation::Write, Step::Begin) == Some(Step::Execute),
        following(Operation::Write, Step::Execute) == Some(Step::Commit),
        following(Operation::Write, Step::Commit) is None,
        following(Operation::Read, Step::Connect) == Some(Step::Execute),
        following(Operation::Read, Step::Execute) is None,
{
}

/// The point in time that a text stands for, read as a relaxed form of
/// RFC 3339, or the words in which the text is refused.
pub uninterp spec fn parsed_time(text: Seq<char>) -> Result<Instant, Seq<char>>;

/// Reads a point in time from a text.
///
/// Calls `str::parse` for `chrono::DateTime<chrono::Utc>` and takes the
/// seconds and nanoseconds of the result with `DateTime::timestamp` and
/// `DateTime::timestamp_subsec_nanos`; a refusal is given as the text of
/// chrono's error. The contract only names the result.
#[verifier::external_body]
fn parse_time(text: &str) -> (r: Result<Instant, String>)
    ensures
        match r {
            Ok(time) => parsed_time(text@) == Ok::<Instant, Seq<char>>(time),
            Err(words) => parsed_time(text@) == Err::<Instant, Seq<char>>(words@),
        },
{
    text.parse::<chrono::DateTime<chrono::Utc>>().map(
        |time| Instant { secs: time.timestamp(), nanos: time.timestamp_subsec_nanos() },
    ).map_err(|e| e.to_string())
}

/// The query for the image taken at a point in time, once the text that
/// names the time has been read: the query with the time as its only value,
/// or the error that tells why the text names no time.
pub fn image_query(parsed: Result<Instant, String>) -> (r: Result<Statement, Error>)
    ensures
        match parsed {
            Ok(time) => r matches Ok(statement) && statement.text@ == image_at_text()
                && statement.params@.len() == 1 && statement.params@[0] == Param::Time(time),
            Err(words) => r matches Err(Error::ParseDateError { source }) && source == words,
        },
{
    match parsed {
        Err(words) => Err(Error::ParseDateError { source: words }),
        Ok(time) => {
            let mut params: Vec<Param> = Vec::new();
            params.push(Param::Time(time));
            Ok(
                Statement {
                    text: String::from_str("SELECT image_png FROM timeline WHERE created_at=$1"),
                    params,
                },
            )
        },
    }
}

/// The query for the image taken at the point in time that `index` names.
pub fn get_history_from_date(index: String) -> (r: Result<Statement, Error>)
    ensures
        match parsed_time(index@) {
            Ok(time) => r matches Ok(statement) && statement.text@ == image_at_text()
                && statement.params@.len() == 1 && statement.params@[0] == Param::Time(time),
            Err(words) => r matches Err(Error::ParseDateError { source }) && source@ == words,
        },
{
    image_query(parse_time(index.as_str()))
}

/// What is sent back to one who asked for part of the history.
#[derive(Debug, Clone)]
pub struct Reply {
    /// The media type of the body.
    pub content_type: String,
    /// How the body is encoded, where it is.
    pub content_encoding: Option<String>,
    /// The body.
    pub body: Vec<u8>,
}

impl Reply {
    /// Whether the reply has this media type, this encoding and this body.
    pub open spec fn carries(self, content_type: Seq<char>, encoding: Option<Seq<char>>, body: Seq<u8>) -> bool {
        &&& self.content_type@ == content_type
        &&& match encoding {
            Some(name) => self.content_encoding is Some && self.content_encoding->0@ == name,
            None => self.content_encoding is None,
        }
        &&& self.body@ == body
    }
}

/// The gzip stream that holds the given bytes, compressed for speed, or the
/// words in which the compressor refuses them.
pub uninterp spec fn gzip_fast(data: Seq<u8>) -> Result<Seq<u8>, Seq<char>>;

/// Compresses bytes as a gzip stream.
///
/// Calls `flate2::write::GzEncoder::new` on an empty buffer with
/// `Compression::fast()`, writes the bytes with `write_all` and ends the
/// stream with `finish`; a refusal is given as the text of the error. The
/// contract only names the result.
#[verifier::external_body]
fn compress(data: &Vec<u8>) -> (r: Result<Vec<u8>, String>)
    ensures
        match r {
            Ok(stream) => gzip_fast(data@) == Ok::<Seq<u8>, Seq<char>>(stream@),
            Err(words) => gzip_fast(data@) == Err::<Seq<u8>, Seq<char>>(words@),
        },
{
    let mut encoder = flate2::write::GzEncoder::new(Vec::new(), flate2::Compression::fast());
    let written = std::io::Write::write_all(&mut encoder, data);
    written.and_then(|_| encoder.finish()).map_err(|e| e.to_string())
}

/// The reply that carries the history, once its JSON document has been
/// compressed: the stream as a JSON body in gzip encoding, or the error
/// that tells why there is no stream.
pub fn compressed_reply(compressed: Result<Vec<u8>, String>) -> (r: Result<Reply, Error>)
    ensures
        match compressed {
            Ok(stream) => r matches Ok(reply) && reply.carries(
                "application/json"@,
                Some("gzip"@),
                stream@,
            ),
            Err(words) => r matches Err(Error::EncodeError { source }) && source == words,
        },
{
    match compressed {
        Err(words) => Err(Error::EncodeError { source: words }),
        Ok(stream) => Ok(
            Reply {
                content_type: String::from_str("application/json"),
                content_encoding: Some(String::from_str("gzip")),
                body: stream,
            },
        ),
    }
}

/// The reply that carries the history, given as a JSON document: the
/// document compressed, as a JSON body in gzip encoding.
pub fn history_reply(json: &Vec<u8>) -> (r: Result<Reply, Error>)
    ensures
        match gzip_fast(json@) {
            Ok(stream) => r matches Ok(reply) && reply.carries(
                "application/json"@,
                Some("gzip"@),
                stream,
            ),
            Err(words) => r matches Err(Error::EncodeError { source }) && source@ == words,
        },
{
    compressed_reply(compress(json))
}

/// The reply that carries the image taken at a point in time, given the
/// images that the store found for it: the first of them as a PNG body, or
/// `NotFound` where the store found none.
pub fn image_reply(found: Vec<Vec<u8>>) -> (r: Result<Reply, Error>)
    ensures
        found@.len() == 0 ==> r == Err::<Reply, Error>(Error::NotFound),
        found@.len() > 0 ==> (r matches Ok(reply) && reply.carries("image/png"@, None, found@[0]@)),
{
    let mut found = found;
    if found.len() == 0 {
        Err(Error::NotFound)
    } else {
        let body = found.swap_remove(0);
        Ok(Reply { content_type: String::from_str("image/png"), content_encoding: None, body })
    }
}

/// The reply that carries the times of all entries, given as a JSON
/// document: the document as it is, as a JSON body.
pub fn index_reply(json: String) -> (r: Reply)
    ensures
        r.carries("application/json"@, None, vstd::utf8::encode_utf8(json@)),
{
    Reply {
        content_type: String::from_str("application/json"),
        content_encoding: None,
        body: json.as_str().as_bytes_vec(),
    }
}

} // verus!
