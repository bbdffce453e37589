//! The wire codec: from the lines and bytes of a connection to a
//! [`Request`], and from a [`Response`] to the bytes that answer it.
//!
//! Reading is a state machine. The caller owns the connection: it asks the
//! [`Parser`] what to read next, reads it, and hands it over. The parser
//! never asks for more than the request announces.

use crate::message::{
    lemma_upsert_distinct, lookup, names_distinct, Fields, Headers, Method, Request,
    RequestView, Response, ResponseView, CONTENT_LENGTH, HTTP_VERSION,
};
use crate::text::{
    chars_of, contains_text, cut, decimal_of, decode_latin1, find, latin1, parse_decimal,
    spells, split_once, strip_line_end, text_of, trim_line_end,
};
use vstd::prelude::*;
use vstd::slice::*;
use vstd::string::*;
use vstd::utf8::*;

verus! {

/// The largest body, in bytes, that a request may announce, and the most
/// that is read of one.
pub const BODY_LIMIT: usize = 1024;

/// Why a request could not be read.
#[derive(Clone, Copy, Debug, PartialEq, Eq, Structural)]
pub enum ParseError {
    /// The request line does not consist of three tokens with one space
    /// between each two.
    MalformedRequestLine,
    /// The first token is none of the four methods.
    UnsupportedMethod,
    /// The third token is not `HTTP/1.1`.
    UnsupportedVersion,
    /// A header line does not hold `": "` exactly once.
    MalformedHeader,
    /// The request announces a body of more than [`BODY_LIMIT`] bytes.
    BodyTooLarge,
    /// Reading stopped before the request was complete.
    Interrupted,
}

/// The request that a request line opens, or why the line is refused. The
/// line is taken without its line end.
pub open spec fn request_of_line(line: Seq<char>) -> Result<RequestView, ParseError> {
    match split_once(line, " "@) {
        None => Err(ParseError::MalformedRequestLine),
        Some((method, rest)) => match split_once(rest, " "@) {
            None => Err(ParseError::MalformedRequestLine),
            Some((path, version)) => if contains_text(version, " "@) {
                Err(ParseError::MalformedRequestLine)
            } else {
                match Method::of_token(method) {
                    None => Err(ParseError::UnsupportedMethod),
                    Some(method) => if version == HTTP_VERSION@ {
                        Ok(RequestView::bare(method, path))
                    } else {
                        Err(ParseError::UnsupportedVersion)
                    },
                }
            },
        },
    }
}

/// The name and value that a header line holds: what stands before and
/// after its one `": "`. `None` where the line holds none or more than one.
pub open spec fn field_of_line(line: Seq<char>) -> Option<(Seq<char>, Seq<char>)> {
    match split_once(line, ": "@) {
        None => None,
        Some((name, value)) => if contains_text(value, ": "@) {
            None
        } else {
            Some((name, value))
        },
    }
}

/// The number of body bytes that header fields announce: the decimal value
/// of `Content-Length`, and 0 where that field is missing or no number.
pub open spec fn declared_length(headers: Fields) -> nat {
    match lookup(headers, CONTENT_LENGTH@) {
        None => 0,
        Some(value) => match decimal_of(value) {
            None => 0,
            Some(n) => n,
        },
    }
}

/// The body that is taken from the bytes of one read, for a request that
/// announced `declared` bytes.
pub open spec fn body_of(bytes: Seq<u8>, declared: nat) -> Seq<char> {
    if bytes.len() <= declared {
        latin1(bytes)
    } else {
        latin1(bytes.take(declared as int))
    }
}

/// How far the reading of one request has come.
enum Phase {
    /// Nothing was read yet.
    Start,
    /// The request line was read; header lines follow.
    Head(Request),
    /// The header lines were read and announce a body of so many bytes.
    Body(Request, usize),
    /// The request is complete.
    Done(Request),
    /// The request was refused.
    Failed(ParseError),
}

/// The reader of one request. It is in one of the states of
/// [`ParserView`], and only ever in one that reading can lead to.
pub struct Parser {
    phase: Phase,
}

/// The states of a [`Parser`].
pub enum ParserView {
    /// Nothing was read yet.
    Start,
    /// The request line was read; header lines follow.
    Head(RequestView),
    /// The header lines were read and announce a body of so many bytes.
    Body(RequestView, nat),
    /// The request is complete.
    Done(RequestView),
    /// The request was refused.
    Failed(ParseError),
}

impl View for Parser {
    type V = ParserView;

    closed spec fn view(&self) -> ParserView {
        match self.phase {
            Phase::Start => ParserView::Start,
            Phase::Head(request) => ParserView::Head(request@),
            Phase::Body(request, declared) => ParserView::Body(request@, declared as nat),
            Phase::Done(request) => ParserView::Done(request@),
            Phase::Failed(error) => ParserView::Failed(error),
        }
    }
}

/// What holds of every request that was read: it speaks `HTTP/1.1`, names
/// no header field twice, and has a body of at most the announced number
/// of characters, which is at most [`BODY_LIMIT`].
pub open spec fn well_read(request: RequestView) -> bool {
    &&& request.version == HTTP_VERSION@
    &&& names_distinct(request.headers)
    &&& request.body.len() <= declared_length(request.headers) <= BODY_LIMIT
}

/// What a parser needs from the connection next.
#[derive(Clone, Copy, Debug, PartialEq, Eq, Structural)]
pub enum Demand {
    /// One line, up to and including its line feed.
    Line,
    /// The bytes of a single read of at most so many bytes.
    Bytes(usize),
    /// Nothing: the parser has its result.
    Nothing,
}

impl ParserView {
    /// What a parser in this state needs next.
    pub open spec fn demand(self) -> Demand {
        match self {
            ParserView::Start => Demand::Line,
            ParserView::Head(_) => Demand::Line,
            ParserView::Body(_, _) => Demand::Bytes(BODY_LIMIT),
            ParserView::Done(_) => Demand::Nothing,
            ParserView::Failed(_) => Demand::Nothing,
        }
    }

    /// The state after the header lines have ended.
    pub open spec fn end_of_head(request: RequestView) -> ParserView {
        let declared = declared_length(request.headers);
        if declared > BODY_LIMIT {
            ParserView::Failed(ParseError::BodyTooLarge)
        } else if declared == 0 {
            ParserView::Done(request)
        } else {
            ParserView::Body(request, declared)
        }
    }

    /// The state after the line `raw` was read. A state that asks for no
    /// line stays as it is.
    pub open spec fn line(self, raw: Seq<char>) -> ParserView {
        let line = strip_line_end(raw);
        match self {
            ParserView::Start => match request_of_line(line) {
                Ok(request) => ParserView::Head(request),
                Err(error) => ParserView::Failed(error),
            },
            ParserView::Head(request) => if line.len() == 0 {
                ParserView::end_of_head(request)
            } else {
                match field_of_line(line) {
                    Some((name, value)) => ParserView::Head(request.with_header(name, value)),
                    None => ParserView::Failed(ParseError::MalformedHeader),
                }
            },
            _ => self,
        }
    }

    /// The state after one read gave `bytes`. A state that asks for no bytes
    /// stays as it is.
    pub open spec fn bytes(self, bytes: Seq<u8>) -> ParserView {
        match self {
            ParserView::Body(request, declared) => ParserView::Done(
                request.with_body(body_of(bytes, declared)),
            ),
            _ => self,
        }
    }

    /// The state after reading failed. A parser that has its result keeps it.
    pub open spec fn interrupted(self) -> ParserView {
        match self {
            ParserView::Done(_) => self,
            ParserView::Failed(_) => self,
            _ => ParserView::Failed(ParseError::Interrupted),
        }
    }

    /// The state after each of `lines` was read in turn.
    pub open spec fn lines(self, lines: Seq<Seq<char>>) -> ParserView
        decreases lines.len(),
    {
        if lines.len() == 0 {
            self
        } else {
            self.line(lines[0]).lines(lines.drop_first())
        }
    }

    /// The request that was read, or why there is none.
    pub open spec fn outcome(self) -> Result<RequestView, ParseError> {
        match self {
            ParserView::Done(request) => Ok(request),
            ParserView::Failed(error) => Err(error),
            _ => Err(ParseError::Interrupted),
        }
    }

    /// Whether this is a state that reading can lead to.
    pub open spec fn reachable(self) -> bool {
        match self {
            ParserView::Start => true,
            ParserView::Head(request) => {
                &&& request.version == HTTP_VERSION@
                &&& names_distinct(request.headers)
                &&& request.body.len() == 0
            },
            ParserView::Body(request, declared) => {
                &&& request.version == HTTP_VERSION@
                &&& names_distinct(request.headers)
                &&& request.body.len() == 0
                &&& declared == declared_length(request.headers)
                &&& 1 <= declared <= BODY_LIMIT
            },
            ParserView::Done(request) => well_read(request),
            ParserView::Failed(_) => true,
        }
    }

    /// Reading a line leads from a reachable state to a reachable state.
    pub proof fn lemma_line_keeps_reachable(self, raw: Seq<char>)
        requires
            self.reachable(),
        ensures
            self.line(raw).reachable(),
    {
        match self {
            ParserView::Head(request) => {
                match field_of_line(strip_line_end(raw)) {
                    Some((name, value)) => {
                        lemma_upsert_distinct(request.headers, name, value);
                    },
                    None => {},
                }
            },
            _ => {},
        }
    }

    /// Reading the body leads from a reachable state to a reachable state.
    pub proof fn lemma_bytes_keep_reachable(self, bytes: Seq<u8>)
        requires
            self.reachable(),
        ensures
            self.bytes(bytes).reachable(),
    {
    }

    /// A failure of the connection leads from a reachable state to a
    /// reachable state.
    pub proof fn lemma_interruption_keeps_reachable(self)
        requires
            self.reachable(),
        ensures
            self.interrupted().reachable(),
    {
    }

    /// Reading any number of lines leads from a reachable state to a
    /// reachable state.
    pub proof fn lemma_lines_keep_reachable(self, lines: Seq<Seq<char>>)
        requires
            self.reachable(),
        ensures
            self.lines(lines).reachable(),
        decreases lines.len(),
    {
        if lines.len() > 0 {
            self.lemma_line_keeps_reachable(lines[0]);
            self.line(lines[0]).lemma_lines_keep_reachable(lines.drop_first());
        }
    }
}

/// What reading a whole request gives, when the connection delivers `lines`
/// and then, to the one read for a body, `body`. A connection that has
/// ended delivers empty lines.
pub open spec fn parsed(lines: Seq<Seq<char>>, body: Seq<u8>) -> Result<RequestView, ParseError> {
    ParserView::Start.lines(lines).line(Seq::empty()).bytes(body).outcome()
}

/// Whether `result` is the request or the error that `expected` says.
pub open spec fn agrees(
    result: Result<Request, ParseError>,
    expected: Result<RequestView, ParseError>,
) -> bool {
    match expected {
        Ok(request) => result is Ok && result->Ok_0@ == request,
        Err(error) => result == Err::<Request, ParseError>(error),
    }
}

/// Reads a request line that was stripped of its line end.
pub fn read_request_line(line: &[char]) -> (result: Result<Request, ParseError>)
    ensures
        agrees(result, request_of_line(line@)),
{
    let (method, rest) = match cut(line, " ") {
        Some(parts) => parts,
        None => {
            return Err(ParseError::MalformedRequestLine);
        },
    };
    let (path, version) = match cut(rest, " ") {
        Some(parts) => parts,
        None => {
            return Err(ParseError::MalformedRequestLine);
        },
    };
    if find(version, " ").is_some() {
        return Err(ParseError::MalformedRequestLine);
    }
    let method = match Method::from_token(method) {
        Some(method) => method,
        None => {
            return Err(ParseError::UnsupportedMethod);
        },
    };
    if !spells(version, HTTP_VERSION) {
        return Err(ParseError::UnsupportedVersion);
    }
    Ok(
        Request {
            method,
            path: text_of(path),
            version: text_of(version),
            headers: Headers::new(),
            body: String::new(),
        },
    )
}

/// Reads a header line that was stripped of its line end.
pub fn read_field(line: &[char]) -> (field: Option<(String, String)>)
    ensures
        match field_of_line(line@) {
            Some((name, value)) => field matches Some(pair) && pair.0@ == name && pair.1@ == value,
            None => field is None,
        },
{
    match cut(line, ": ") {
        None => None,
        Some((name, value)) => {
            if find(value, ": ").is_some() {
                None
            } else {
                Some((text_of(name), text_of(value)))
            }
        },
    }
}

/// The number of body bytes that `headers` announce, held at `usize::MAX`
/// where it is larger than that.
pub fn announced_length(headers: &Headers) -> (declared: usize)
    ensures
        declared == if declared_length(headers@) <= usize::MAX {
            declared_length(headers@)
        } else {
            usize::MAX as nat
        },
{
    match headers.get(CONTENT_LENGTH) {
        None => 0,
        Some(value) => {
            let digits = chars_of(value.as_str());
            match parse_decimal(digits.as_slice()) {
                None => 0,
                Some(n) => n,
            }
        },
    }
}

impl Parser {
    #[verifier::type_invariant]
    spec fn well_formed(&self) -> bool {
        self@.reachable()
    }

    /// A parser that has read nothing.
    pub fn new() -> (parser: Parser)
        ensures
            parser@ == ParserView::Start,
    {
        Parser { phase: Phase::Start }
    }

    /// What the parser needs from the connection next.
    pub fn demand(&self) -> (demand: Demand)
        ensures
            demand == self@.demand(),
    {
        match &self.phase {
            Phase::Start => Demand::Line,
            Phase::Head(_) => Demand::Line,
            Phase::Body(_, _) => Demand::Bytes(BODY_LIMIT),
            Phase::Done(_) => Demand::Nothing,
            Phase::Failed(_) => Demand::Nothing,
        }
    }

    /// Takes a line that was read from the connection, with or without its
    /// line end. An empty line after the request line ends the header.
    pub fn line(self, raw: &str) -> (next: Parser)
        ensures
            next@ == self@.line(raw@),
    {
        proof {
            use_type_invariant(&self);
            self@.lemma_line_keeps_reachable(raw@);
        }
        match self.phase {
            Phase::Start => {
                let chars = chars_of(raw);
                match read_request_line(trim_line_end(chars.as_slice())) {
                    Ok(request) => Parser { phase: Phase::Head(request) },
                    Err(error) => Parser { phase: Phase::Failed(error) },
                }
            },
            Phase::Head(request) => {
                let chars = chars_of(raw);
                let line = trim_line_end(chars.as_slice());
                if line.len() == 0 {
                    let declared = announced_length(&request.headers);
                    if declared > BODY_LIMIT {
                        Parser { phase: Phase::Failed(ParseError::BodyTooLarge) }
                    } else if declared == 0 {
                        Parser { phase: Phase::Done(request) }
                    } else {
                        Parser { phase: Phase::Body(request, declared) }
                    }
                } else {
                    match read_field(line) {
                        Some((name, value)) => {
                            let mut request = request;
                            request.headers.insert(name, value);
                            Parser { phase: Phase::Head(request) }
                        },
                        None => Parser { phase: Phase::Failed(ParseError::MalformedHeader) },
                    }
                }
            },
            phase => Parser { phase },
        }
    }

    /// Takes the bytes that the one read for the body gave. As many of them
    /// as were announced become the body; where fewer arrived, the body is
    /// what arrived.
    pub fn bytes(self, bytes: &[u8]) -> (next: Parser)
        ensures
            next@ == self@.bytes(bytes@),
    {
        proof {
            use_type_invariant(&self);
            self@.lemma_bytes_keep_reachable(bytes@);
        }
        match self.phase {
            Phase::Body(request, declared) => {
                let taken = if bytes.len() <= declared {
                    bytes
                } else {
                    slice_subrange(bytes, 0, declared)
                };
                let mut request = request;
                request.body = decode_latin1(taken);
                Parser { phase: Phase::Done(request) }
            },
            phase => Parser { phase },
        }
    }

    /// Takes note that reading failed.
    pub fn interrupted(self) -> (next: Parser)
        ensures
            next@ == self@.interrupted(),
    {
        proof {
            use_type_invariant(&self);
        }
        match self.phase {
            Phase::Done(request) => Parser { phase: Phase::Done(request) },
            Phase::Failed(error) => Parser { phase: Phase::Failed(error) },
            _ => Parser { phase: Phase::Failed(ParseError::Interrupted) },
        }
    }

    /// The request that was read, or why there is none.
    pub fn outcome(self) -> (result: Result<Request, ParseError>)
        ensures
            agrees(result, self@.outcome()),
            result matches Ok(request) ==> well_read(request@),
    {
        proof {
            use_type_invariant(&self);
        }
        match self.phase {
            Phase::Done(request) => Ok(request),
            Phase::Failed(error) => Err(error),
            _ => Err(ParseError::Interrupted),
        }
    }
}

/// Reads a request from what a connection delivered: its lines in order,
/// each with or without its line end, and the bytes of the one read that is
/// made for a body.
pub fn parse_to_request(lines: &[String], body: &[u8]) -> (result: Result<Request, ParseError>)
    ensures
        agrees(result, parsed(lines@.map_values(|line: String| line@), body@)),
        result matches Ok(request) ==> well_read(request@),
{
    let ghost texts = lines@.map_values(|line: String| line@);
    let mut parser = Parser::new();
    let mut i: usize = 0;
    assert(texts.skip(0) =~= texts);
    while i < lines.len()
        invariant
            i <= lines.len(),
            texts == lines@.map_values(|line: String| line@),
            parser@.lines(texts.skip(i as int)) == ParserView::Start.lines(texts),
        decreases lines.len() - i,
    {
        assert(texts.skip(i as int)[0] == lines@[i as int]@);
        assert(texts.skip(i as int).drop_first() =~= texts.skip(i + 1));
        parser = parser.line(lines[i].as_str());
        i += 1;
    }
    assert(texts.skip(i as int) =~= Seq::<Seq<char>>::empty());
    proof {
        reveal_strlit("");
    }
    assert(""@ =~= Seq::<char>::empty());
    parser.line("").bytes(body).outcome()
}

/// The line that a header field is written as: its name, `": "`, its value
/// and a line end.
pub open spec fn field_line(field: (Seq<char>, Seq<char>)) -> Seq<char> {
    field.0 + ": "@ + field.1 + "\r\n"@
}

/// The header lines of a message, one for each field and in their order.
pub open spec fn field_lines(fields: Fields) -> Seq<Seq<char>> {
    fields.map_values(|field: (Seq<char>, Seq<char>)| field_line(field))
}

/// The request line of a request, with its line end.
pub open spec fn request_line(request: RequestView) -> Seq<char> {
    request.method.token() + " "@ + request.path + " "@ + request.version + "\r\n"@
}

/// The status line of a response, with its line end.
pub open spec fn status_line(response: ResponseView) -> Seq<char> {
    HTTP_VERSION@ + " "@ + response.status.text() + "\r\n"@
}

/// A response as text: the status line, the header lines, an empty line,
/// and the body with nothing after it.
pub open spec fn response_text(response: ResponseView) -> Seq<char> {
    status_line(response) + field_lines(response.headers).flatten() + "\r\n"@ + response.body
}

/// A response as the bytes that go over the wire: its text in UTF-8.
pub open spec fn response_bytes(response: ResponseView) -> Seq<u8> {
    encode_utf8(response_text(response))
}

/// A request as text: the request line, the header lines, an empty line,
/// and the body with nothing after it.
pub open spec fn request_text(request: RequestView) -> Seq<char> {
    request_line(request) + field_lines(request.headers).flatten() + "\r\n"@ + request.body
}

/// Appends the header lines of `headers` to `out`.
fn push_field_lines(out: &mut String, headers: &Headers)
    ensures
        final(out)@ == old(out)@ + field_lines(headers@).flatten(),
{
    let count = headers.len();
    let mut i: usize = 0;
    assert(field_lines(headers@.take(0)) =~= Seq::<Seq<char>>::empty());
    assert(out@ =~= old(out)@ + field_lines(headers@.take(0)).flatten());
    while i < count
        invariant
            i <= count,
            count == headers@.len(),
            out@ == old(out)@ + field_lines(headers@.take(i as int)).flatten(),
        decreases count - i,
    {
        out.append(headers.name(i));
        out.append(": ");
        out.append(headers.value(i));
        out.append("\r\n");
        proof {
            let done = field_lines(headers@.take(i as int));
            let line = field_line(headers@[i as int]);
            assert(field_lines(headers@.take(i + 1)) =~= done.push(line));
            done.lemma_flatten_push(line);
            assert(out@ =~= old(out)@ + done.push(line).flatten());
        }
        i += 1;
    }
    assert(headers@.take(count as int) =~= headers@);
}

/// Appends `response`, as it goes over the wire, to `stream`.
pub fn write_response(response: Response, stream: &mut Vec<u8>)
    ensures
        final(stream)@ == old(stream)@ + response_bytes(response@),
{
    let mut text = String::new();
    text.append(HTTP_VERSION);
    text.append(" ");
    text.append(response.status.as_str());
    text.append("\r\n");
    push_field_lines(&mut text, &response.headers);
    text.append("\r\n");
    text.append(response.body.as_str());
    assert(text@ =~= response_text(response@));
    let bytes = text.as_str().as_bytes();
    let mut i: usize = 0;
    while i < bytes.len()
        invariant
            i <= bytes.len(),
            stream@ == old(stream)@ + bytes@.take(i as int),
        decreases bytes.len() - i,
    {
        stream.push(bytes[i]);
        assert(bytes@.take(i + 1) =~= bytes@.take(i as int).push(bytes@[i as int]));
        i += 1;
    }
    assert(bytes@.take(bytes.len() as int) =~= bytes@);
}

impl Request {
    /// The request as text, as it came over the wire but for the order and
    /// repetition of its header fields.
    pub fn to_string(&self) -> (text: String)
        ensures
            text@ == request_text(self@),
    {
        let mut text = String::new();
        text.append(self.method.as_str());
        text.append(" ");
        text.append(self.path.as_str());
        text.append(" ");
        text.append(self.version.as_str());
        text.append("\r\n");
        push_field_lines(&mut text, &self.headers);
        text.append("\r\n");
        text.append(self.body.as_str());
        assert(text@ =~= request_text(self@));
        text
    }
}

} // verus!
