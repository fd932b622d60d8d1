//! Single-instance IPC: the requests, the line framing, the version check and
//! what is answered when something goes wrong.

use crate::handoff::RawHandles;
use crate::text::{
    chars, concat, concat3, from_utf8, same_str, string, to_decimal, trim, trimmed,
};
use vstd::prelude::*;
use vstd::utf8::encode_utf8;

verus! {

/// The protocol version this build speaks.
pub const PROTOCOL_VERSION: u32 = 1;

/// Largest request accepted, in bytes.
pub const MAX_REQUEST_BYTES: usize = 4 << 20;

/// A command to run in a new surface.
#[derive(Clone, Debug, PartialEq)]
pub enum CommandSpec {
    /// A profile name, else a program.
    Line(String),
    /// An explicit argument vector.
    Argv(Vec<String>),
}

/// One request.
#[derive(Clone, Debug, PartialEq)]
pub enum Request {
    NewWindow { cwd: Option<String>, command: Option<CommandSpec> },
    NewTab {
        cwd: Option<String>,
        command: Option<CommandSpec>,
        /// The window to add the tab to; the last-focused one when absent.
        window: Option<u64>,
    },
    /// Bring a window, and a tab or pane in it, forward.
    Focus { window: Option<u64>, tab: Option<u64>, pane: Option<u64> },
    /// Paste text into a pane.
    InputText { text: String, window: Option<u64>, pane: Option<u64> },
    /// Run a keybind action.
    RunAction { action: String, window: Option<u64> },
    List,
    /// Adopt a default-terminal handoff that process `pid` received.
    Handoff { pid: u32, handles: RawHandles, title: String, show_window: u16 },
}

/// A pane in a listing.
#[derive(Clone, Debug, PartialEq)]
pub struct PaneInfo {
    pub id: u64,
    pub title: String,
    pub focused: bool,
    pub cwd: Option<String>,
}

/// A tab in a listing.
#[derive(Clone, Debug, PartialEq)]
pub struct TabInfo {
    pub id: u64,
    pub title: String,
    pub active: bool,
    pub panes: Vec<PaneInfo>,
}

/// A window in a listing.
#[derive(Clone, Debug, PartialEq)]
pub struct WindowInfo {
    pub id: u64,
    pub title: String,
    pub focused: bool,
    pub tabs: Vec<TabInfo>,
}

/// The answer to one request.
#[derive(Clone, Debug, PartialEq)]
pub struct Response {
    pub v: u32,
    pub ok: bool,
    pub error: Option<String>,
    pub window: Option<u64>,
    pub tab: Option<u64>,
    pub pane: Option<u64>,
    pub windows: Option<Vec<WindowInfo>>,
}

impl Response {
    /// Whether the answer names nothing.
    pub open spec fn bare(&self) -> bool {
        &&& self.window is None
        &&& self.tab is None
        &&& self.pane is None
        &&& self.windows is None
    }

    /// Whether the answer says that the request failed, and why.
    pub open spec fn says(&self, msg: Seq<char>) -> bool {
        &&& self.v == PROTOCOL_VERSION
        &&& !self.ok
        &&& self.error matches Some(e) && e@ == msg
        &&& self.bare()
    }

    /// The answer that says no more than that it worked.
    pub fn ok() -> (r: Self)
        ensures
            r.v == PROTOCOL_VERSION,
            r.ok,
            r.error is None,
            r.bare(),
    {
        Response {
            v: PROTOCOL_VERSION,
            ok: true,
            error: None,
            window: None,
            tab: None,
            pane: None,
            windows: None,
        }
    }

    /// The answer that says why it did not.
    pub fn err(msg: &str) -> (r: Self)
        ensures
            r.says(msg@),
    {
        Response {
            v: PROTOCOL_VERSION,
            ok: false,
            error: Some(msg.to_owned()),
            window: None,
            tab: None,
            pane: None,
            windows: None,
        }
    }
}

/// A message as one line on the wire.
pub fn framed(json: &str) -> (s: String)
    ensures
        s@ == json@.push('\n'),
{
    proof {
        reveal_strlit("\n");
    }
    let s = concat(json, "\n");
    assert(s@ =~= json@.push('\n'));
    s
}

/// The number that `serde_json` reads from a message: the member `key` of an
/// object, where it is a number of 64 bits without sign, or the parser's
/// complaint about a text that is not JSON.
pub uninterp spec fn json_number(text: Seq<char>, key: Seq<char>) -> Result<Option<u64>, Seq<char>>;

/// `serde_json::from_str` into a `Value`, then `Value::get` of `key` and
/// `Value::as_u64`: the number a message carries under `key`, or the parser's
/// complaint.
#[verifier::external_body]
fn read_number(text: &str, key: &str) -> (r: Result<Option<u64>, String>)
    ensures
        match r {
            Ok(v) => json_number(text@, key@) == Ok::<Option<u64>, Seq<char>>(v),
            Err(e) => json_number(text@, key@) == Err::<Option<u64>, Seq<char>>(e@),
        },
{
    match serde_json::from_str::<serde_json::Value>(text) {
        Ok(value) => Ok(value.get(key).and_then(serde_json::Value::as_u64)),
        Err(e) => Err(e.to_string()),
    }
}

/// The complaint about a version: one that is missing, or newer than this
/// build's. `None` for one that can be spoken.
pub open spec fn version_complaint(v: Option<u64>) -> Option<Seq<char>> {
    match v {
        None => Some("missing protocol version \"v\""@),
        Some(v) => if v > PROTOCOL_VERSION {
            Some(
                "unsupported protocol version "@ + crate::text::decimal(v as nat)
                    + " (this geist speaks "@ + crate::text::decimal(PROTOCOL_VERSION as nat) + ")"@,
            )
        } else {
            None
        },
    }
}

/// Check the version a message carries.
pub fn check_version(v: Option<u64>) -> (r: Result<(), String>)
    ensures
        match r {
            Ok(_) => version_complaint(v) is None,
            Err(e) => version_complaint(v) == Some(e@),
        },
{
    match v {
        None => Err("missing protocol version \"v\"".to_owned()),
        Some(v) => {
            if v > PROTOCOL_VERSION as u64 {
                let given = to_decimal(v);
                let spoken = to_decimal(PROTOCOL_VERSION as u64);
                let head = concat3(
                    "unsupported protocol version ",
                    given.as_str(),
                    " (this geist speaks ",
                );
                Err(concat3(head.as_str(), spoken.as_str(), ")"))
            } else {
                Ok(())
            }
        },
    }
}

/// Why a line is refused before its fields are looked at; its version is the
/// member `v`.
pub open spec fn line_complaint(line: Seq<char>) -> Option<Seq<char>> {
    match json_number(trim(line), "v"@) {
        Err(e) => Some("malformed JSON: "@ + e),
        Ok(v) => version_complaint(v),
    }
}

/// Check that a line is JSON and carries a version that can be spoken, so that a
/// newer client gets a precise answer.
pub fn check_request(line: &str) -> (r: Result<(), String>)
    ensures
        match r {
            Ok(_) => line_complaint(line@) is None,
            Err(e) => line_complaint(line@) == Some(e@),
        },
{
    let cs = chars(line);
    let text = string(trimmed(cs.as_slice()));
    match read_number(text.as_str(), "v") {
        Ok(v) => check_version(v),
        Err(e) => Err(concat("malformed JSON: ", e.as_str())),
    }
}

/// A line that could not be read.
#[derive(Clone, Copy, Debug, PartialEq, Eq, Structural)]
pub enum LineError {
    TooLarge,
    NotUtf8,
}

impl LineError {
    /// What is said of it.
    pub open spec fn text(self) -> Seq<char> {
        match self {
            LineError::TooLarge => "request too large"@,
            LineError::NotUtf8 => "request is not UTF-8"@,
        }
    }

    /// What is said of it.
    pub fn message(&self) -> (s: String)
        ensures
            s@ == self.text(),
    {
        match self {
            LineError::TooLarge => "request too large".to_owned(),
            LineError::NotUtf8 => "request is not UTF-8".to_owned(),
        }
    }
}

/// What the bytes read so far mean.
#[derive(Clone, Copy, Debug, PartialEq, Eq, Structural)]
pub enum LineState {
    /// Read on.
    More,
    /// The line is complete.
    Complete,
    TooLarge,
}

/// The place of the first newline; the length where there is none.
pub open spec fn newline(b: Seq<u8>) -> int
    decreases b.len(),
{
    if b.len() == 0 || b[0] == 10 {
        0
    } else {
        1 + newline(b.skip(1))
    }
}

/// The bytes up to the first newline.
pub open spec fn first_line(b: Seq<u8>) -> Seq<u8> {
    b.take(newline(b))
}

proof fn lemma_newline(b: Seq<u8>)
    ensures
        0 <= newline(b) <= b.len(),
        newline(b) < b.len() ==> b[newline(b)] == 10,
        forall|i: int| 0 <= i < newline(b) ==> b[i] != 10,
    decreases b.len(),
{
    if b.len() > 0 && b[0] != 10 {
        lemma_newline(b.skip(1));
        assert forall|i: int| 0 <= i < newline(b) implies b[i] != 10 by {
            if i > 0 {
                assert(b.skip(1)[i - 1] == b[i]);
            }
        }
    }
}

proof fn lemma_newline_at(b: Seq<u8>, n: int)
    requires
        0 <= n <= b.len(),
        n < b.len() ==> b[n] == 10,
        forall|i: int| 0 <= i < n ==> b[i] != 10,
    ensures
        newline(b) == n,
{
    lemma_newline(b);
    if newline(b) < n {
        assert(b[newline(b)] != 10);
    } else if n < newline(b) {
        assert(b[n] != 10);
    }
}

/// The text that bytes spell.
pub open spec fn text_of(b: Seq<u8>) -> Result<Seq<char>, LineError> {
    if vstd::utf8::valid_utf8(b) {
        Ok(vstd::utf8::decode_utf8(b))
    } else {
        Err(LineError::NotUtf8)
    }
}

/// A line read, by its characters.
pub open spec fn outcome(r: Result<String, LineError>) -> Result<Seq<char>, LineError> {
    match r {
        Ok(s) => Ok(s@),
        Err(e) => Err(e),
    }
}

/// Reads one line out of the chunks that arrive.
pub struct LineReader {
    buf: Vec<u8>,
    max: usize,
}

impl LineReader {
    /// The bytes of the line so far.
    pub closed spec fn bytes(&self) -> Seq<u8> {
        self.buf@
    }

    /// The most bytes a line may have.
    pub closed spec fn limit(&self) -> usize {
        self.max
    }

    /// Nothing read yet; at most `max` bytes to be read.
    pub fn new(max: usize) -> (r: Self)
        ensures
            r.bytes() == Seq::<u8>::empty(),
            r.limit() == max,
    {
        LineReader { buf: Vec::new(), max }
    }

    /// Take one chunk. An empty one is the end of the stream and completes the
    /// line, as a newline does; a line of more than the limit is too large.
    pub fn push(&mut self, chunk: &[u8]) -> (s: LineState)
        ensures
            final(self).limit() == old(self).limit(),
            final(self).bytes() == old(self).bytes() + first_line(chunk@),
            s == if final(self).bytes().len() > old(self).limit() {
                LineState::TooLarge
            } else if chunk@.len() == 0 || newline(chunk@) < chunk@.len() {
                LineState::Complete
            } else {
                LineState::More
            },
    {
        let n: usize = chunk.len();
        let mut i: usize = 0;
        while i < n && chunk[i] != 10
            invariant
                i <= n == chunk@.len(),
                self.max == old(self).max,
                self.buf@ == old(self).buf@ + chunk@.take(i as int),
                forall|k: int| 0 <= k < i ==> chunk@[k] != 10,
            ensures
                i <= n,
                i < n ==> chunk@[i as int] == 10,
                self.max == old(self).max,
                self.buf@ == old(self).buf@ + chunk@.take(i as int),
                forall|k: int| 0 <= k < i ==> chunk@[k] != 10,
            decreases n - i,
        {
            self.buf.push(chunk[i]);
            i += 1;
            assert(self.buf@ =~= old(self).buf@ + chunk@.take(i as int));
        }
        proof {
            lemma_newline_at(chunk@, i as int);
        }
        if self.buf.len() > self.max {
            LineState::TooLarge
        } else if n == 0 || i < n {
            LineState::Complete
        } else {
            LineState::More
        }
    }

    /// The line read, if it is text of no more than the limit.
    pub fn finish(self) -> (r: Result<String, LineError>)
        ensures
            outcome(r) == capped_text(self.bytes(), self.limit()),
    {
        if self.buf.len() > self.max {
            return Err(LineError::TooLarge);
        }
        match from_utf8(self.buf) {
            Some(s) => Ok(s),
            None => Err(LineError::NotUtf8),
        }
    }
}

/// The text of a line of at most `max` bytes.
pub open spec fn capped_text(line: Seq<u8>, max: usize) -> Result<Seq<char>, LineError> {
    if line.len() > max {
        Err(LineError::TooLarge)
    } else {
        text_of(line)
    }
}

/// The bytes of a stream that comes in chunks; an empty chunk, or no further
/// one, is its end.
pub open spec fn stream(chunks: Seq<&[u8]>) -> Seq<u8>
    decreases chunks.len(),
{
    if chunks.len() == 0 || chunks[0]@.len() == 0 {
        Seq::empty()
    } else {
        chunks[0]@ + stream(chunks.skip(1))
    }
}

proof fn lemma_first_line_behind(buf: Seq<u8>, c: Seq<u8>, rest: Seq<u8>)
    requires
        newline(buf) == buf.len(),
    ensures
        newline(c) < c.len() ==> first_line(buf + (c + rest)) == buf + first_line(c),
        newline(c) == c.len() ==> newline(buf + c) == (buf + c).len() && first_line(c) == c,
        first_line(buf + (c + rest)).len() >= (buf + first_line(c)).len(),
        first_line(buf) == buf,
{
    let all = buf + (c + rest);
    let n = newline(c);
    lemma_newline(buf);
    lemma_newline(c);
    lemma_newline(all);
    assert forall|i: int| 0 <= i < buf.len() + n implies all[i] != 10 by {
        if i >= buf.len() {
            assert(all[i] == c[i - buf.len()]);
        }
    }
    assert(first_line(buf) =~= buf);
    if n < c.len() {
        assert(all[buf.len() + n] == c[n]);
        lemma_newline_at(all, buf.len() + n);
        assert(first_line(all) =~= buf + first_line(c));
    } else {
        assert forall|i: int| 0 <= i < (buf + c).len() implies (buf + c)[i] != 10 by {}
        lemma_newline_at(buf + c, (buf + c).len() as int);
        assert(first_line(c) =~= c);
    }
    if newline(all) < buf.len() + n {
        assert(all[newline(all)] != 10);
    }
}

/// Read one line, at most `max` bytes long, from the chunks of a stream. A
/// stream that ends before a newline still yields what arrived.
pub fn read_line_capped(chunks: &[&[u8]], max: usize) -> (r: Result<String, LineError>)
    ensures
        outcome(r) == capped_text(first_line(stream(chunks@)), max),
{
    let mut reader = LineReader::new(max);
    let mut i: usize = 0;
    let ghost all = stream(chunks@);
    assert(chunks@.skip(0) =~= chunks@);
    assert(Seq::<u8>::empty() + all =~= all);
    while i < chunks.len()
        invariant
            i <= chunks@.len(),
            reader.limit() == max,
            newline(reader.bytes()) == reader.bytes().len(),
            all == stream(chunks@),
            all == reader.bytes() + stream(chunks@.skip(i as int)),
            reader.bytes().len() <= max,
        decreases chunks@.len() - i,
    {
        let ghost before = reader.bytes();
        let c = chunks[i];
        let ghost rest = stream(chunks@.skip(i + 1));
        proof {
            assert(chunks@.skip(i as int).skip(1) =~= chunks@.skip(i + 1));
            if c@.len() == 0 {
                assert(before + (c@ + Seq::<u8>::empty()) =~= all);
                lemma_first_line_behind(before, c@, Seq::empty());
                assert(before + first_line(c@) =~= before);
                assert(all =~= before);
            } else {
                assert(all == before + (c@ + rest));
                lemma_first_line_behind(before, c@, rest);
            }
        }
        match reader.push(c) {
            LineState::Complete => {
                return reader.finish();
            },
            LineState::TooLarge => {
                return Err(LineError::TooLarge);
            },
            LineState::More => {
                proof {
                    lemma_newline(c@);
                    assert(before + c@ + rest =~= before + (c@ + rest));
                }
            },
        }
        i += 1;
    }
    proof {
        assert(all =~= reader.bytes());
        lemma_first_line_behind(all, Seq::empty(), Seq::empty());
    }
    reader.finish()
}

/// However a stream is cut into chunks, the same line is read of it.
pub proof fn law_chunks_do_not_matter(a: Seq<&[u8]>, b: Seq<&[u8]>, max: usize)
    requires
        stream(a) == stream(b),
    ensures
        capped_text(first_line(stream(a)), max) == capped_text(first_line(stream(b)), max),
{
}

/// A line is refused for its size exactly where it has more bytes than the
/// limit, whatever comes behind it.
pub proof fn law_only_long_lines_are_refused(b: Seq<u8>, rest: Seq<u8>, max: usize)
    requires
        newline(b) == b.len(),
    ensures
        capped_text(first_line(b.push(10) + rest), max) == capped_text(b, max),
        (capped_text(first_line(b.push(10) + rest), max) == Err::<Seq<char>, LineError>(
            LineError::TooLarge,
        )) == (b.len() > max),
{
    lemma_newline(b);
    let all = b.push(10) + rest;
    assert forall|i: int| 0 <= i < b.len() implies all[i] != 10 by {
        assert(all[i] == b[i]);
    }
    lemma_newline_at(all, b.len() as int);
    assert(first_line(all) =~= b);
}

/// The bytes of a character, but for a newline's, are no newline.
proof fn lemma_scalar_bytes(c: u32)
    by (bit_vector)
    requires
        c != 10,
    ensures
        vstd::utf8::has_width_1_encoding(c) ==> vstd::utf8::leading_byte_width_1(c) != 10,
        vstd::utf8::leading_byte_width_2(c) != 10,
        vstd::utf8::leading_byte_width_3(c) != 10,
        vstd::utf8::leading_byte_width_4(c) != 10,
        vstd::utf8::last_continuation_byte(c) != 10,
        vstd::utf8::second_last_continuation_byte(c) != 10,
        vstd::utf8::third_last_continuation_byte(c) != 10,
{
}

/// The bytes of a text that a newline ends: none of them but the last is one.
proof fn lemma_framed_bytes(json: Seq<char>)
    requires
        !json.contains('\n'),
    ensures
        encode_utf8(json.push('\n')) == encode_utf8(json).push(10),
        forall|i: int| 0 <= i < encode_utf8(json).len() ==> encode_utf8(json)[i] != 10,
    decreases json.len(),
{
    let all = json.push('\n');
    if json.len() == 0 {
        assert(all.drop_first() =~= json);
        assert(vstd::utf8::leading_byte_width_1(10) == 10) by (bit_vector);
        assert(all[0] as u32 == 10);
        reveal_with_fuel(encode_utf8, 2);
        assert(encode_utf8(all) =~= seq![10u8]);
        assert(encode_utf8(json) =~= Seq::empty());
    } else {
        let rest = json.drop_first();
        let head = vstd::utf8::encode_scalar(json[0] as u32);
        assert forall|i: int| 0 <= i < rest.len() implies rest[i] != '\n' by {
            assert(json.contains(json[i + 1]));
        }
        assert(json.contains(json[0]));
        lemma_framed_bytes(rest);
        assert(all.drop_first() =~= rest.push('\n'));
        vstd::utf8::char_is_scalar(json[0]);
        if json[0] as u32 == 10 {
            vstd::utf8::char_u32_cast(json[0], 10);
        }
        lemma_scalar_bytes(json[0] as u32);
        assert(head + encode_utf8(rest).push(10) =~= (head + encode_utf8(rest)).push(10));
    }
}

/// A message comes through the wire as it was: however the line of a message
/// without a newline is cut into chunks, what is read of it is the message.
pub proof fn law_framed_message_reads_back(json: Seq<char>, chunks: Seq<&[u8]>, max: usize)
    requires
        !json.contains('\n'),
        stream(chunks) == encode_utf8(json.push('\n')),
        encode_utf8(json).len() <= max,
    ensures
        capped_text(first_line(stream(chunks)), max) == Ok::<Seq<char>, LineError>(json),
{
    lemma_framed_bytes(json);
    let b = encode_utf8(json);
    lemma_newline_at(b.push(10), b.len() as int);
    assert(first_line(b.push(10)) =~= b);
    vstd::utf8::encode_utf8_valid_utf8(json);
    vstd::utf8::encode_utf8_decode_utf8(json);
}

/// Why a connection is answered without the request being carried out.
pub enum Failure {
    /// The stream failed.
    Io(String),
    Line(LineError),
    /// The line is no request.
    Request(String),
    ShuttingDown,
    TimedOut,
}

impl Failure {
    /// What is said of it.
    pub open spec fn text(self) -> Seq<char> {
        match self {
            Failure::Io(e) => e@,
            Failure::Line(e) => e.text(),
            Failure::Request(e) => e@,
            Failure::ShuttingDown => "geist is shutting down"@,
            Failure::TimedOut => "timed out waiting for geist"@,
        }
    }

    /// The answer that says so.
    pub fn response(&self) -> (r: Response)
        ensures
            r.says(self.text()),
    {
        match self {
            Failure::Io(e) => Response::err(e.as_str()),
            Failure::Line(e) => Response::err(e.message().as_str()),
            Failure::Request(e) => Response::err(e.as_str()),
            Failure::ShuttingDown => Response::err("geist is shutting down"),
            Failure::TimedOut => Response::err("timed out waiting for geist"),
        }
    }
}

/// The outcome of trying to reach a running instance.
#[derive(Debug)]
pub enum SendError {
    /// Nothing is listening.
    NoServer,
    /// Something is listening but the exchange failed.
    Failed(String),
}

/// Whether an error says `msg`.
pub open spec fn fails_with(e: SendError, msg: Seq<char>) -> bool {
    e matches SendError::Failed(s) && s@ == msg
}

/// Why the pipe could not be opened.
pub enum OpenError {
    NotFound,
    Busy,
    Other(String),
}

/// What to do about it.
pub enum ConnectStep {
    /// Wait for an instance and open again.
    Retry,
    /// Wait for an instance, then give up.
    GiveUp(SendError),
    Fail(SendError),
}

/// The tries that are left to open the pipe.
pub struct Connect {
    left: u32,
}

impl Connect {
    /// The tries that are left.
    pub closed spec fn tries(&self) -> u32 {
        self.left
    }

    /// Twenty tries.
    pub fn new() -> (c: Self)
        ensures
            c.tries() == 20,
    {
        Connect { left: 20 }
    }

    /// Decide what follows a try that failed.
    pub fn failed(&mut self, e: OpenError) -> (s: ConnectStep)
        requires
            old(self).tries() > 0,
        ensures
            final(self).tries() == old(self).tries() - 1,
            match e {
                OpenError::NotFound => s == ConnectStep::Fail(SendError::NoServer),
                OpenError::Busy => if old(self).tries() > 1 {
                    s == ConnectStep::Retry
                } else {
                    s matches ConnectStep::GiveUp(x) && fails_with(x, "the running geist is busy"@)
                },
                OpenError::Other(m) => s matches ConnectStep::Fail(x) && fails_with(x, m@),
            },
    {
        self.left = self.left - 1;
        match e {
            OpenError::NotFound => ConnectStep::Fail(SendError::NoServer),
            OpenError::Busy => {
                if self.left > 0 {
                    ConnectStep::Retry
                } else {
                    ConnectStep::GiveUp(SendError::Failed("the running geist is busy".to_owned()))
                }
            },
            OpenError::Other(m) => ConnectStep::Fail(SendError::Failed(m)),
        }
    }
}

/// An optional text.
pub open spec fn opt_text(s: Option<&str>) -> Option<Seq<char>> {
    match s {
        Some(s) => Some(s@),
        None => None,
    }
}

/// Refuse a server that does not run as this user. An identity that could not be
/// read is nobody's.
pub fn check_server(server: Option<&str>, own: Option<&str>) -> (r: Result<(), SendError>)
    ensures
        match r {
            Ok(_) => server is Some && opt_text(server) == opt_text(own),
            Err(e) => !(server is Some && opt_text(server) == opt_text(own)) && fails_with(
                e,
                "the IPC pipe is owned by another user; refusing to use it"@,
            ),
        },
{
    let same = match (server, own) {
        (Some(a), Some(b)) => same_str(a, b),
        _ => false,
    };
    if same {
        Ok(())
    } else {
        Err(
            SendError::Failed(
                "the IPC pipe is owned by another user; refusing to use it".to_owned(),
            ),
        )
    }
}

/// The name of the pipe: one that the environment gives, or one made of the
/// user's identity and the session.
pub open spec fn pipe_path(
    given: Option<Seq<char>>,
    sid: Option<Seq<char>>,
    user: Option<Seq<char>>,
    session: u32,
) -> Seq<char> {
    match given {
        Some(n) if trim(n).len() > 0 => "\\\\.\\pipe\\"@ + trim(n),
        _ => "\\\\.\\pipe\\geist-"@ + (match (sid, user) {
            (Some(s), _) => s,
            (None, Some(u)) => u,
            (None, None) => "user"@,
        }) + "-"@ + crate::text::decimal(session as nat),
    }
}

/// The name of the pipe, from the environment's name for it, the user's security
/// identifier, the user's name and the session.
pub fn pipe_name(given: Option<&str>, sid: Option<&str>, user: Option<&str>, session: u32) -> (r:
    String)
    ensures
        r@ == pipe_path(opt_text(given), opt_text(sid), opt_text(user), session),
{
    if let Some(n) = given {
        let cs = chars(n);
        let name = trimmed(cs.as_slice());
        if name.len() > 0 {
            return concat("\\\\.\\pipe\\", string(name).as_str());
        }
    }
    let who = match (sid, user) {
        (Some(s), _) => s,
        (None, Some(u)) => u,
        (None, None) => "user",
    };
    let n = to_decimal(session as u64);
    let head = concat3("\\\\.\\pipe\\geist-", who, "-");
    concat(head.as_str(), n.as_str())
}

/// The access rights of the pipe: this user's, or its owner's, and the system's.
pub fn pipe_sddl(sid: Option<&str>) -> (r: String)
    ensures
        r@ == (match opt_text(sid) {
            Some(s) => "D:P(A;;GA;;;"@ + s + ")(A;;GA;;;SY)"@,
            None => "D:P(A;;GA;;;OW)(A;;GA;;;SY)"@,
        }),
{
    match sid {
        Some(s) => concat3("D:P(A;;GA;;;", s, ")(A;;GA;;;SY)"),
        None => "D:P(A;;GA;;;OW)(A;;GA;;;SY)".to_owned(),
    }
}

/// A version is accepted exactly if it is given and not newer than this build's.
pub proof fn law_versions_accepted(v: Option<u64>)
    ensures
        version_complaint(v) is None <==> (v is Some && v->0 <= PROTOCOL_VERSION),
{
}

/// A name that the environment gives is the name, whoever runs the program; a
/// blank one is as good as none.
pub proof fn law_given_pipe_name_is_used(
    given: Seq<char>,
    sid: Option<Seq<char>>,
    user: Option<Seq<char>>,
    session: u32,
)
    ensures
        trim(given).len() > 0 ==> pipe_path(Some(given), sid, user, session) == "\\\\.\\pipe\\"@
            + trim(given),
        trim(given).len() == 0 ==> pipe_path(Some(given), sid, user, session) == pipe_path(
            None,
            sid,
            user,
            session,
        ),
{
}

/// A user's pipe is told by the identity, where it is known, whatever the user is
/// called; else by what the user is called. No two identities share a pipe, and no
/// two sessions of a user do.
pub proof fn law_users_and_sessions_have_their_own_pipes(
    a: Seq<char>,
    b: Seq<char>,
    user: Option<Seq<char>>,
    s: u32,
    t: u32,
)
    ensures
        pipe_path(None, Some(a), user, s) == pipe_path(None, None, Some(a), s),
        a != b ==> pipe_path(None, Some(a), user, s) != pipe_path(None, Some(b), user, s),
        s != t ==> pipe_path(None, Some(a), user, s) != pipe_path(None, Some(a), user, t),
        pipe_path(None, None, None, s) == pipe_path(None, None, Some("user"@), s),
        pipe_path(None, Some(a), user, s) == "\\\\.\\pipe\\"@ + ("geist-"@ + a + "-"@
            + crate::text::decimal(s as nat)),
{
    let p = "\\\\.\\pipe\\geist-"@;
    let ds = crate::text::decimal(s as nat);
    let dt = crate::text::decimal(t as nat);
    let x = pipe_path(None, Some(a), user, s);
    if a != b {
        let y = pipe_path(None, Some(b), user, s);
        if x == y {
            assert(x.len() == y.len());
            assert forall|i: int| 0 <= i < a.len() implies a[i] == b[i] by {
                assert(x[p.len() + i] == a[i]);
                assert(y[p.len() + i] == b[i]);
            }
            assert(a =~= b);
        }
    }
    if s != t {
        let y = pipe_path(None, Some(a), user, t);
        if x == y {
            let n = (p + a + "-"@).len() as int;
            assert(x.skip(n) =~= ds);
            assert(y.skip(n) =~= dt);
            crate::text::lemma_decimal(s as nat);
            crate::text::lemma_decimal(t as nat);
        }
    }
    reveal_strlit("\\\\.\\pipe\\geist-");
    reveal_strlit("\\\\.\\pipe\\");
    reveal_strlit("geist-");
    assert(p =~= "\\\\.\\pipe\\"@ + "geist-"@);
    assert(x =~= "\\\\.\\pipe\\"@ + ("geist-"@ + a + "-"@ + ds));
}

/// White space round a line does not matter.
pub proof fn law_white_space_round_a_line_does_not_matter(
    a: Seq<char>,
    line: Seq<char>,
    b: Seq<char>,
)
    requires
        crate::text::all_white(a),
        crate::text::all_white(b),
        crate::text::tight(line),
    ensures
        line_complaint(a + line + b) == line_complaint(line),
{
    crate::text::law_trim_takes_the_white_space_round(a, line, b);
    crate::text::law_trim_takes_the_white_space_round(Seq::empty(), line, Seq::empty());
    assert(Seq::<char>::empty() + line + Seq::<char>::empty() =~= line);
}

/// The complaint about a newer version names it first, and this build's behind it.
pub proof fn law_newer_version_is_named(v: u64)
    requires
        v > PROTOCOL_VERSION,
    ensures
        version_complaint(Some(v)) is Some,
        ("unsupported protocol version "@ + crate::text::decimal(v as nat)).is_prefix_of(
            version_complaint(Some(v))->0,
        ),
        ("speaks "@ + crate::text::decimal(PROTOCOL_VERSION as nat) + ")"@).is_suffix_of(
            version_complaint(Some(v))->0,
        ),
{
    reveal_strlit(" (this geist speaks ");
    reveal_strlit("speaks ");
    let c = version_complaint(Some(v))->0;
    let tail = "speaks "@ + crate::text::decimal(PROTOCOL_VERSION as nat) + ")"@;
    assert(c.subrange(c.len() - tail.len(), c.len() as int) =~= tail);
}

/// Each refusal has its words.
pub proof fn law_refusals_have_their_words(e: LineError)
    ensures
        LineError::TooLarge.text() == "request "@ + "too large"@,
        LineError::NotUtf8.text() == "request "@ + "is not UTF-8"@,
        Failure::Line(e).text() == e.text(),
        Failure::ShuttingDown.text() == "geist is shutting down"@,
        Failure::TimedOut.text() == "timed out waiting for geist"@,
{
    reveal_strlit("request ");
    reveal_strlit("too large");
    reveal_strlit("is not UTF-8");
    reveal_strlit("request too large");
    reveal_strlit("request is not UTF-8");
    assert(LineError::TooLarge.text() =~= "request "@ + "too large"@);
    assert(LineError::NotUtf8.text() =~= "request "@ + "is not UTF-8"@);
}

/// A line ends before its first newline, and without one where the bytes end; it
/// holds none, and what follows does not matter.
pub proof fn law_line_ends_at_the_first_newline(line: Seq<u8>, rest: Seq<u8>)
    requires
        !line.contains(10u8),
    ensures
        first_line(line.push(10) + rest) == line,
        first_line(line) == line,
    decreases line.len(),
{
    lemma_newline(line);
    lemma_newline(line.push(10) + rest);
    let s = line.push(10) + rest;
    assert(s[line.len() as int] == 10);
    assert forall|i: int| 0 <= i < line.len() implies s[i] != 10 by {
        assert(line.contains(line[i]));
    }
    let n = newline(s);
    if n < line.len() {
        assert(s[n] == 10);
    }
    if n > line.len() {
        assert(s[line.len() as int] != 10);
    }
    assert(first_line(s) =~= line);
    if newline(line) < line.len() {
        assert(line.contains(line[newline(line)]));
    }
    assert(first_line(line) =~= line);
}

/// Versions up to the first are spoken; a later one is refused, and so is a message
/// without a version.
pub proof fn law_first_version_is_spoken(v: u64)
    ensures
        v <= 1 ==> version_complaint(Some(v)) is None,
        v >= 2 ==> version_complaint(Some(v)) is Some,
        version_complaint(None) is Some,
{
}

} // verus!
