//! What holds of the server as a whole, stated over the models of the
//! other modules and proved from them.

use crate::codec::{
    body_of, declared_length, field_line, field_lines, field_of_line, parsed, request_line,
    request_of_line, response_bytes, response_text, status_line, well_read, Demand, ParseError,
    ParserView, BODY_LIMIT,
};
use crate::handlers::{
    answered, file_plan, handled, post_file_step, resolved, route_of, safe_name, subpath,
    ActionView, FileEvent, FileOp, FileTaskView, Route,
};
use crate::message::{
    lemma_field_index, lemma_lookup_upsert, lookup, names_distinct, upsert, Fields, Method,
    RequestView, ResponseView, Status, CONTENT_LENGTH, CONTENT_TYPE, HTTP_VERSION, TEXT_PLAIN,
    USER_AGENT,
};
use crate::text::{
    contains_text, decimal_text, lemma_absent_character, lemma_decimal_round_trip,
    lemma_position, lemma_split_once_at, lemma_split_once_first, lemma_strip_line_end,
    lemma_utf8_concat, occurs_at, strip_line_end, utf8_len,
};
use vstd::prelude::*;
use vstd::string::*;
use vstd::utf8::*;

verus! {

/// Whether a response says truly how long its body is: its `Content-Length`
/// is the number of bytes of the body in decimal, or it has no such field
/// and no body.
pub open spec fn announces_body(response: ResponseView) -> bool {
    match lookup(response.headers, CONTENT_LENGTH@) {
        Some(length) => length == decimal_text(utf8_len(response.body)),
        None => response.body.len() == 0,
    }
}

/// Whether every response that `action` sends says truly how long its body
/// is.
pub open spec fn replies_announce_body(action: ActionView) -> bool {
    action matches ActionView::Reply(response) ==> announces_body(response)
}

/// A response without header fields or body says truly how long its body is.
pub proof fn lemma_bare_announces_body(status: Status)
    ensures
        announces_body(ResponseView::bare(status)),
{
}

/// A plain-text response has the two fields that describe its body, and the
/// length it announces is the number of bytes of the body.
pub proof fn lemma_plain_announces_body(status: Status, body: Seq<char>)
    ensures
        lookup(ResponseView::plain(status, body).headers, CONTENT_TYPE@) == Some(TEXT_PLAIN@),
        lookup(ResponseView::plain(status, body).headers, CONTENT_LENGTH@) == Some(
            decimal_text(utf8_len(body)),
        ),
        announces_body(ResponseView::plain(status, body)),
{
    reveal_strlit("Content-Type");
    reveal_strlit("Content-Length");
    assert(CONTENT_TYPE@.len() == 12);
    assert(CONTENT_LENGTH@.len() == 14);
    let length = decimal_text(utf8_len(body));
    let typed = upsert(Fields::empty(), CONTENT_TYPE@, TEXT_PLAIN@);
    lemma_lookup_upsert(Fields::empty(), CONTENT_TYPE@, TEXT_PLAIN@, CONTENT_TYPE@);
    lemma_lookup_upsert(typed, CONTENT_LENGTH@, length, CONTENT_TYPE@);
    lemma_lookup_upsert(typed, CONTENT_LENGTH@, length, CONTENT_LENGTH@);
}

/// Whatever the request, a response that answers it says truly how long
/// its body is.
pub proof fn lemma_handled_announces_body(directory: Seq<char>, request: RequestView)
    ensures
        replies_announce_body(handled(directory, request)),
{
    lemma_plain_announces_body(Status::Http200, "Hello World"@);
    lemma_plain_announces_body(Status::Http200, request.body);
    lemma_plain_announces_body(Status::Http200, subpath(request.path));
    match lookup(request.headers, USER_AGENT@) {
        Some(agent) => {
            lemma_plain_announces_body(Status::Http200, agent);
        },
        None => {},
    }
}

/// Whatever the outcome of reading a request, a response that answers it
/// says truly how long its body is.
pub proof fn lemma_answered_announces_body(
    directory: Seq<char>,
    parsed: Result<RequestView, ParseError>,
)
    ensures
        replies_announce_body(answered(directory, parsed)),
{
    match parsed {
        Ok(request) => {
            lemma_handled_announces_body(directory, request);
        },
        Err(_) => {},
    }
}

/// Whatever happens to a file, a response that tells of it says truly how
/// long its body is.
pub proof fn lemma_file_reply_announces_body(task: FileTaskView, event: FileEvent)
    ensures
        replies_announce_body(task.advance(event)),
{
    match event {
        FileEvent::Content(text) => {
            lemma_plain_announces_body(Status::Http200, text@);
        },
        _ => {},
    }
}

/// A client that reads the announced length of a response the way this
/// server reads that of a request gets the number of bytes of the body.
pub proof fn lemma_announced_length_round_trip(response: ResponseView)
    requires
        announces_body(response),
    ensures
        declared_length(response.headers) == utf8_len(response.body),
{
    lemma_decimal_round_trip(utf8_len(response.body));
    if response.body.len() == 0 {
        assert(encode_utf8(response.body) =~= Seq::<u8>::empty());
    }
}

/// On the wire a response ends with its body, and with nothing after it:
/// the last bytes, as many as it announces, are the body in UTF-8.
pub proof fn lemma_wire_ends_with_body(response: ResponseView)
    requires
        announces_body(response),
    ensures
        declared_length(response.headers) <= response_bytes(response).len(),
        response_bytes(response).skip(
            response_bytes(response).len() - declared_length(response.headers),
        ) == encode_utf8(response.body),
{
    lemma_announced_length_round_trip(response);
    let head = status_line(response) + field_lines(response.headers).flatten() + "\r\n"@;
    assert(response_text(response) =~= head + response.body);
    lemma_utf8_concat(head, response.body);
    let wire = response_bytes(response);
    assert(wire.skip(wire.len() - encode_utf8(response.body).len()) =~= encode_utf8(
        response.body,
    ));
}

/// A path that belongs to no handler is answered with 404, whatever the
/// method and whatever else the request holds.
pub proof fn lemma_unknown_path_is_not_found(directory: Seq<char>, request: RequestView)
    requires
        route_of(request.path) == Route::Unknown,
    ensures
        handled(directory, request) == ActionView::Reply(ResponseView::bare(Status::Http404)),
{
}

/// A name that begins with `..` or holds a `/` is answered with 400 at
/// once: no file is looked at.
pub proof fn lemma_unsafe_name_is_refused(directory: Seq<char>, request: RequestView)
    requires
        !safe_name(subpath(request.path)),
    ensures
        file_plan(directory, request) == ActionView::Reply(ResponseView::bare(Status::Http400)),
{
}

/// Every file the file handler asks about is named by a safe name and lies
/// in the served directory.
pub proof fn lemma_probed_file_is_inside(directory: Seq<char>, request: RequestView)
    ensures
        file_plan(directory, request) matches ActionView::Probe(task) ==> {
            &&& safe_name(subpath(request.path))
            &&& task.path == resolved(directory, subpath(request.path))
        },
        !(file_plan(directory, request) is Perform),
{
}

/// A task never moves to another file or another operation: what is to be
/// performed after a probe is the operation that was probed for, on the
/// same file and with the same content to write, and nothing is performed
/// unless the probe said so.
pub proof fn lemma_task_stays_on_its_file(task: FileTaskView, event: FileEvent)
    ensures
        !(task.advance(event) is Probe),
        task.advance(event) matches ActionView::Perform(next) ==> {
            &&& event is Exists
            &&& next.op == task.op
            &&& next.path == task.path
            &&& task.op == FileOp::Create ==> next.content == task.content
        },
{
}

/// A file that is there is never created anew: a probe that finds it is
/// answered with 409.
pub proof fn lemma_existing_file_is_kept(path: Seq<char>, body: Seq<char>)
    ensures
        post_file_step(path, body, FileEvent::Exists(true)) == ActionView::Reply(
            ResponseView::bare(Status::Http409),
        ),
{
}

/// Every request that is read from a connection speaks `HTTP/1.1`, names no
/// header field twice, and has a body of at most the announced number of
/// characters, which is at most [`BODY_LIMIT`].
pub proof fn lemma_parsed_request_is_well_read(lines: Seq<Seq<char>>, body: Seq<u8>)
    ensures
        parsed(lines, body) matches Ok(request) ==> well_read(request),
{
    ParserView::Start.lemma_lines_keep_reachable(lines);
    let read = ParserView::Start.lines(lines);
    read.lemma_line_keeps_reachable(Seq::empty());
    read.line(Seq::empty()).lemma_bytes_keep_reachable(body);
}

/// A parser asks for bytes only when the header of the request has just
/// ended and announces a body of at least one byte and at most
/// [`BODY_LIMIT`].
pub proof fn lemma_bytes_only_when_announced(state: ParserView, raw: Seq<char>)
    requires
        state.demand() == Demand::Line,
    ensures
        state.line(raw).demand() is Bytes ==> {
            &&& state matches ParserView::Head(request)
            &&& strip_line_end(raw).len() == 0
            &&& 1 <= declared_length(request.headers) <= BODY_LIMIT
        },
{
}

/// A request that announces no body is complete when its header ends. The
/// parser then asks for nothing more, whatever the connection still holds.
pub proof fn lemma_no_body_no_read(request: RequestView, raw: Seq<char>)
    requires
        declared_length(request.headers) == 0,
        strip_line_end(raw).len() == 0,
    ensures
        ParserView::Head(request).line(raw) == ParserView::Done(request),
        ParserView::Head(request).line(raw).demand() == Demand::Nothing,
{
}

/// A request line that is written as the protocol says is read as the
/// request it was written for.
pub proof fn lemma_request_line_is_read(method: Method, path: Seq<char>)
    requires
        !path.contains(' '),
    ensures
        request_of_line(method.token() + " "@ + path + " "@ + HTTP_VERSION@) == Ok::<
            RequestView,
            ParseError,
        >(RequestView::bare(method, path)),
{
    reveal_strlit(" ");
    reveal_strlit("GET");
    reveal_strlit("POST");
    reveal_strlit("PUT");
    reveal_strlit("DELETE");
    reveal_strlit("HTTP/1.1");
    let token = method.token();
    let rest = path + " "@ + HTTP_VERSION@;
    let line = token + " "@ + path + " "@ + HTTP_VERSION@;
    assert(line =~= token + " "@ + rest);
    lemma_split_once_at(token, " "@, rest);
    lemma_split_once_at(path, " "@, HTTP_VERSION@);
    lemma_absent_character(HTTP_VERSION@, " "@);
}

/// A request line and an empty line are a whole request: the parser reads
/// the request they stand for and then asks for nothing more. It never
/// waits for a body that was not announced.
pub proof fn lemma_bare_request_is_complete(method: Method, path: Seq<char>)
    requires
        !path.contains(' '),
    ensures
        ({
            let first = method.token() + " "@ + path + " "@ + HTTP_VERSION@ + "\r\n"@;
            let state = ParserView::Start.line(first).line("\r\n"@);
            &&& state == ParserView::Done(RequestView::bare(method, path))
            &&& state.demand() == Demand::Nothing
        }),
{
    reveal_strlit("HTTP/1.1");
    let line = method.token() + " "@ + path + " "@ + HTTP_VERSION@;
    lemma_strip_line_end(line);
    lemma_request_line_is_read(method, path);
}

/// A header line that is written as the protocol says is read as the field
/// it was written for.
pub proof fn lemma_header_line_is_read(name: Seq<char>, value: Seq<char>)
    requires
        !contains_text(name, ": "@),
        !contains_text(value, ": "@),
    ensures
        field_of_line(name + ": "@ + value) == Some((name, value)),
{
    reveal_strlit(": ");
    let separator = ": "@;
    let line = name + separator + value;
    lemma_position(name, separator);
    assert forall|k: int| 0 <= k < name.len() implies !occurs_at(line, separator, k) by {
        if occurs_at(line, separator, k) {
            let window = line.skip(k).subrange(0, 2);
            assert(window[0] == ':' && window[1] == ' ');
            assert(line[k] == ':' && line[k + 1] == ' ');
            if k + 1 < name.len() {
                assert(name.skip(k).subrange(0, 2) =~= separator);
                assert(occurs_at(name, separator, k));
            }
        }
    }
    lemma_split_once_first(name, separator, value);
}

/// Whether a header field can be written on a line and read back: neither
/// its name nor its value holds `": "`, and its value does not end with a
/// carriage return or a line feed.
pub open spec fn writable_field(field: (Seq<char>, Seq<char>)) -> bool {
    &&& !contains_text(field.0, ": "@)
    &&& !contains_text(field.1, ": "@)
    &&& field.1.len() > 0 ==> field.1.last() != '\r' && field.1.last() != '\n'
}

/// Whether a request can be written and read back: it speaks `HTTP/1.1`,
/// its path holds no space, no header field is named twice, and every
/// header field is writable.
pub open spec fn writable(request: RequestView) -> bool {
    &&& request.version == HTTP_VERSION@
    &&& !request.path.contains(' ')
    &&& names_distinct(request.headers)
    &&& forall|i: int| 0 <= i < request.headers.len() ==> writable_field(#[trigger] request.headers[i])
}

/// Reading some lines and then one more is reading them all.
pub proof fn lemma_lines_push(state: ParserView, lines: Seq<Seq<char>>, last: Seq<char>)
    ensures
        state.lines(lines.push(last)) == state.lines(lines).line(last),
    decreases lines.len(),
{
    let all = lines.push(last);
    if lines.len() == 0 {
        assert(all.drop_first() =~= Seq::<Seq<char>>::empty());
        assert(state.line(last).lines(all.drop_first()) == state.line(last));
    } else {
        assert(all.drop_first() =~= lines.drop_first().push(last));
        assert(all[0] == lines[0]);
        lemma_lines_push(state.line(lines[0]), lines.drop_first(), last);
    }
}

/// The lines that a request is written as, up to the empty line, are read
/// as the request without its body.
pub proof fn lemma_written_head_is_read(request: RequestView)
    requires
        writable(request),
    ensures
        ParserView::Start.line(request_line(request)).lines(field_lines(request.headers))
            == ParserView::Head(request.with_body(Seq::empty())),
    decreases request.headers.len(),
{
    let start = ParserView::Start.line(request_line(request));
    let fields = request.headers;
    if fields.len() == 0 {
        reveal_strlit("HTTP/1.1");
        let line = request.method.token() + " "@ + request.path + " "@ + HTTP_VERSION@;
        lemma_strip_line_end(line);
        lemma_request_line_is_read(request.method, request.path);
        assert(field_lines(fields) =~= Seq::<Seq<char>>::empty());
        assert(fields =~= Fields::empty());
    } else {
        let field = fields.last();
        let before = RequestView {
            method: request.method,
            path: request.path,
            version: request.version,
            headers: fields.drop_last(),
            body: request.body,
        };
        assert(writable(before)) by {
            assert forall|i: int| 0 <= i < before.headers.len() implies writable_field(
                #[trigger] before.headers[i],
            ) by {
                assert(before.headers[i] == fields[i]);
            }
        }
        lemma_written_head_is_read(before);
        assert(request_line(before) == request_line(request));
        assert(field_lines(fields) =~= field_lines(before.headers).push(field_line(field)));
        lemma_lines_push(start, field_lines(before.headers), field_line(field));
        reveal_strlit(": ");
        let line = field.0 + ": "@ + field.1;
        lemma_strip_line_end(line);
        assert(line.len() > 0);
        assert(line.last() != '\r' && line.last() != '\n') by {
            if field.1.len() > 0 {
                assert(line.last() == field.1.last());
            } else {
                assert(line.last() == ' ');
            }
        }
        lemma_header_line_is_read(field.0, field.1);
        lemma_field_index(before.headers, field.0);
        assert(upsert(before.headers, field.0, field.1) =~= fields);
    }
}

/// A request that is written as the protocol says is read as itself: the
/// parser, given the request line, the header lines and an empty line,
/// gives the request with the body that the bytes of the one read for it
/// hold, and asks for those bytes only where the request announces any.
pub proof fn lemma_written_request_is_read(request: RequestView, bytes: Seq<u8>)
    requires
        writable(request),
        declared_length(request.headers) <= BODY_LIMIT,
        request.body == body_of(bytes, declared_length(request.headers)),
    ensures
        parsed(
            seq![request_line(request)] + field_lines(request.headers) + seq!["\r\n"@],
            bytes,
        ) == Ok::<RequestView, ParseError>(request),
{
    let head = seq![request_line(request)] + field_lines(request.headers);
    let lines = head + seq!["\r\n"@];
    assert(lines =~= head.push("\r\n"@));
    lemma_lines_push(ParserView::Start, head, "\r\n"@);
    assert(head.drop_first() =~= field_lines(request.headers));
    assert(head[0] == request_line(request));
    lemma_written_head_is_read(request);
    lemma_strip_line_end(Seq::empty());
    let declared = declared_length(request.headers);
    if declared == 0 {
        assert(request.body =~= Seq::<char>::empty());
    }
    assert(request.with_body(Seq::empty()).with_body(request.body) == request);
}

} // verus!
