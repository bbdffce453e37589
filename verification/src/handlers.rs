//! The router and the four handlers: greeting, echo, client identification
//! and files.
//!
//! The file handler never touches a file itself. It says what is to be
//! looked up or done ([`Action::Probe`], [`Action::Perform`]), the caller
//! does it and reports back ([`FileEvent`]), and the handler decides what
//! follows.

use crate::codec::ParseError;
use crate::message::{
    Method, Request, RequestView, Response, ResponseView, State, Status, TEXT_PLAIN, USER_AGENT,
};
use crate::text::{
    chars_of, contains_text, find, lemma_position, same_text, spells, split_once, starts_with,
};
use std::sync::Arc;
use vstd::prelude::*;
use vstd::slice::*;
use vstd::string::*;

verus! {

/// What stands in `path` after its second `/`, and nothing where `path` has
/// fewer than two.
pub open spec fn subpath(path: Seq<char>) -> Seq<char> {
    match split_once(path, "/"@) {
        None => Seq::empty(),
        Some((_, rest)) => match split_once(rest, "/"@) {
            None => Seq::empty(),
            Some((_, tail)) => tail,
        },
    }
}

/// The part of `path` that follows its second `/`.
pub fn get_subpath(path: &str) -> (tail: &str)
    ensures
        tail@ == subpath(path@),
{
    proof {
        reveal_strlit("/");
        reveal_strlit("");
    }
    let chars = chars_of(path);
    let chars = chars.as_slice();
    let end = chars.len();
    match find(chars, "/") {
        None => "",
        Some(first) => {
            proof {
                lemma_position(chars@, "/"@);
            }
            let rest = slice_subrange(chars, first + 1, end);
            match find(rest, "/") {
                None => "",
                Some(second) => {
                    proof {
                        lemma_position(rest@, "/"@);
                    }
                    let start = first + 1 + second + 1;
                    assert(path@.subrange(start as int, end as int) =~= rest@.skip(second + 1));
                    path.substring_char(start, end)
                },
            }
        },
    }
}

/// The answer to a request for `/`.
pub open spec fn root_reply(request: RequestView) -> ResponseView {
    if request.method == Method::Get {
        ResponseView::plain(Status::Http200, "Hello World"@)
    } else {
        ResponseView::bare(Status::Http405)
    }
}

/// Greets whoever asks with GET.
pub fn root_handler(request: Request) -> (response: Response)
    ensures
        response@ == root_reply(request@),
{
    if request.method != Method::Get {
        return Response::new(Status::Http405);
    }
    Response::new(Status::Http200).with_body("Hello World").with_content_type_and_current_length(
        TEXT_PLAIN,
    )
}

/// The answer to a request for `/echo` or a path under it.
pub open spec fn echo_reply(request: RequestView) -> ResponseView {
    match request.method {
        Method::Post => if request.path == "/echo"@ {
            ResponseView::plain(Status::Http200, request.body)
        } else {
            ResponseView::bare(Status::Http405)
        },
        Method::Get => ResponseView::plain(Status::Http200, subpath(request.path)),
        _ => ResponseView::bare(Status::Http405),
    }
}

/// Sends back the rest of the path on GET, and the body on a POST to `/echo`
/// itself.
pub fn echo_handler(request: Request) -> (response: Response)
    ensures
        response@ == echo_reply(request@),
{
    let body = match request.method {
        Method::Post => {
            if !same_text(request.path.as_str(), "/echo") {
                return Response::new(Status::Http405);
            }
            request.body.as_str()
        },
        Method::Get => get_subpath(request.path.as_str()),
        _ => {
            return Response::new(Status::Http405);
        },
    };
    Response::new(Status::Http200).with_body(body).with_content_type_and_current_length(TEXT_PLAIN)
}

/// The answer to a request for `/user-agent`.
pub open spec fn user_agent_reply(request: RequestView) -> ResponseView {
    if request.method != Method::Get {
        ResponseView::bare(Status::Http405)
    } else {
        match request.header(USER_AGENT@) {
            None => ResponseView::bare(Status::Http400),
            Some(agent) => ResponseView::plain(Status::Http200, agent),
        }
    }
}

/// Tells a client, on GET, what it called itself.
pub fn user_agent_handler(request: Request) -> (response: Response)
    ensures
        response@ == user_agent_reply(request@),
{
    if request.method != Method::Get {
        return Response::new(Status::Http405);
    }
    match request.headers.get(USER_AGENT) {
        None => Response::new(Status::Http400),
        Some(agent) => Response::new(Status::Http200).with_body(
            agent.as_str(),
        ).with_content_type_and_current_length(TEXT_PLAIN),
    }
}

/// What is done to a file.
#[derive(Clone, Copy, Debug, PartialEq, Eq, Structural)]
pub enum FileOp {
    /// Read the whole file as text.
    Read,
    /// Create the file, which must not exist, and write the content to it.
    Create,
    /// Remove the file.
    Remove,
}

/// One operation on one file.
pub struct FileTask {
    pub op: FileOp,
    /// The file, as a path under the served directory.
    pub path: String,
    /// What to write to the file; empty for other operations.
    pub content: String,
}

/// The mathematical content of a [`FileTask`].
pub struct FileTaskView {
    pub op: FileOp,
    pub path: Seq<char>,
    pub content: Seq<char>,
}

impl View for FileTask {
    type V = FileTaskView;

    open spec fn view(&self) -> FileTaskView {
        FileTaskView { op: self.op, path: self.path@, content: self.content@ }
    }
}

/// What the caller is to do next for a request.
pub enum Action {
    /// Send this response; the request is dealt with.
    Reply(Response),
    /// Find out whether the task's file exists and report
    /// [`FileEvent::Exists`].
    Probe(FileTask),
    /// Carry the task out and report how it ended.
    Perform(FileTask),
}

/// The mathematical content of an [`Action`].
pub enum ActionView {
    Reply(ResponseView),
    Probe(FileTaskView),
    Perform(FileTaskView),
}

impl View for Action {
    type V = ActionView;

    open spec fn view(&self) -> ActionView {
        match self {
            Action::Reply(response) => ActionView::Reply(response@),
            Action::Probe(task) => ActionView::Probe(task@),
            Action::Perform(task) => ActionView::Perform(task@),
        }
    }
}

/// What the caller found or did for a [`FileTask`].
pub enum FileEvent {
    /// The answer to a probe: whether the file exists.
    Exists(bool),
    /// The file was read and holds this text.
    Content(String),
    /// The file was created and written, or was removed.
    Completed,
    /// The file to create was there already.
    AlreadyExists,
    /// The file to read or remove was not there.
    NotFound,
    /// The operation failed for any other reason.
    Failed,
}

/// Whether `name` may name a file of the served directory: it does not
/// begin with `..` and holds no `/`.
pub open spec fn safe_name(name: Seq<char>) -> bool {
    !".."@.is_prefix_of(name) && !contains_text(name, "/"@)
}

/// The path of the file called `name` in `directory`.
pub open spec fn resolved(directory: Seq<char>, name: Seq<char>) -> Seq<char> {
    directory + "/"@ + name
}

/// The first step for a request for a path under `/files/`.
pub open spec fn file_plan(directory: Seq<char>, request: RequestView) -> ActionView {
    let name = subpath(request.path);
    let path = resolved(directory, name);
    if !safe_name(name) {
        ActionView::Reply(ResponseView::bare(Status::Http400))
    } else {
        match request.method {
            Method::Get => ActionView::Probe(
                FileTaskView { op: FileOp::Read, path, content: Seq::empty() },
            ),
            Method::Post => ActionView::Probe(
                FileTaskView { op: FileOp::Create, path, content: request.body },
            ),
            Method::Delete => ActionView::Probe(
                FileTaskView { op: FileOp::Remove, path, content: Seq::empty() },
            ),
            Method::Put => ActionView::Reply(ResponseView::bare(Status::Http405)),
        }
    }
}

/// Maps a request for `/files/<name>` to an operation on the file `<name>`
/// of the served directory. A name that could lead out of the directory or
/// below it is refused before any file is looked at.
pub fn file_handler(state: Arc<State>, request: Request) -> (action: Action)
    ensures
        action@ == file_plan(state.directory@, request@),
{
    let name = get_subpath(request.path.as_str());
    let letters = chars_of(name);
    if starts_with(letters.as_slice(), "..") {
        return Action::Reply(Response::new(Status::Http400));
    }
    if find(letters.as_slice(), "/").is_some() {
        return Action::Reply(Response::new(Status::Http400));
    }
    let mut path = state.directory.clone();
    path.append("/");
    path.append(name);
    if request.method == Method::Get {
        Action::Probe(FileTask { op: FileOp::Read, path, content: String::new() })
    } else if request.method == Method::Post {
        Action::Probe(FileTask { op: FileOp::Create, path, content: request.body })
    } else if request.method == Method::Delete {
        Action::Probe(FileTask { op: FileOp::Remove, path, content: String::new() })
    } else {
        Action::Reply(Response::new(Status::Http405))
    }
}

/// What follows `event` when the file at `path` is to be read.
pub open spec fn get_file_step(path: Seq<char>, event: FileEvent) -> ActionView {
    match event {
        FileEvent::Exists(true) => ActionView::Perform(
            FileTaskView { op: FileOp::Read, path, content: Seq::empty() },
        ),
        FileEvent::Exists(false) => ActionView::Reply(ResponseView::bare(Status::Http404)),
        FileEvent::NotFound => ActionView::Reply(ResponseView::bare(Status::Http404)),
        FileEvent::Content(text) => ActionView::Reply(ResponseView::plain(Status::Http200, text@)),
        _ => ActionView::Reply(ResponseView::bare(Status::Http500)),
    }
}

/// Reads a file: a file that is not there is answered with 404, one that is
/// there is read, and its text is sent with 200. Any other event is a
/// failure of the store and answered with 500.
pub fn get_file(path: String, event: FileEvent) -> (action: Action)
    ensures
        action@ == get_file_step(path@, event),
{
    match event {
        FileEvent::Exists(true) => Action::Perform(
            FileTask { op: FileOp::Read, path, content: String::new() },
        ),
        FileEvent::Exists(false) => Action::Reply(Response::new(Status::Http404)),
        FileEvent::NotFound => Action::Reply(Response::new(Status::Http404)),
        FileEvent::Content(text) => Action::Reply(
            Response::new(Status::Http200).with_body(
                text.as_str(),
            ).with_content_type_and_current_length(TEXT_PLAIN),
        ),
        _ => Action::Reply(Response::new(Status::Http500)),
    }
}

/// What follows `event` when the file at `path` is to be created with the
/// content `body`.
pub open spec fn post_file_step(path: Seq<char>, body: Seq<char>, event: FileEvent) -> ActionView {
    match event {
        FileEvent::Exists(false) => ActionView::Perform(
            FileTaskView { op: FileOp::Create, path, content: body },
        ),
        FileEvent::Exists(true) => ActionView::Reply(ResponseView::bare(Status::Http409)),
        FileEvent::AlreadyExists => ActionView::Reply(ResponseView::bare(Status::Http409)),
        FileEvent::Completed => ActionView::Reply(ResponseView::bare(Status::Http201)),
        _ => ActionView::Reply(ResponseView::bare(Status::Http500)),
    }
}

/// Creates a file: a file that is there already is answered with 409 and
/// left alone, one that is not there is created with the body as its
/// content, and that is answered with 201. Any other event is a failure of
/// the store and answered with 500.
pub fn post_file(path: String, body: String, event: FileEvent) -> (action: Action)
    ensures
        action@ == post_file_step(path@, body@, event),
{
    match event {
        FileEvent::Exists(false) => Action::Perform(
            FileTask { op: FileOp::Create, path, content: body },
        ),
        FileEvent::Exists(true) => Action::Reply(Response::new(Status::Http409)),
        FileEvent::AlreadyExists => Action::Reply(Response::new(Status::Http409)),
        FileEvent::Completed => Action::Reply(Response::new(Status::Http201)),
        _ => Action::Reply(Response::new(Status::Http500)),
    }
}

/// What follows `event` when the file at `path` is to be removed.
pub open spec fn delete_file_step(path: Seq<char>, event: FileEvent) -> ActionView {
    match event {
        FileEvent::Exists(true) => ActionView::Perform(
            FileTaskView { op: FileOp::Remove, path, content: Seq::empty() },
        ),
        FileEvent::Exists(false) => ActionView::Reply(ResponseView::bare(Status::Http404)),
        FileEvent::NotFound => ActionView::Reply(ResponseView::bare(Status::Http404)),
        FileEvent::Completed => ActionView::Reply(ResponseView::bare(Status::Http200)),
        _ => ActionView::Reply(ResponseView::bare(Status::Http500)),
    }
}

/// Removes a file: a file that is not there is answered with 404, one that
/// is there is removed, and that is answered with 200. Any other event is a
/// failure of the store and answered with 500.
pub fn delete_file(path: String, event: FileEvent) -> (action: Action)
    ensures
        action@ == delete_file_step(path@, event),
{
    match event {
        FileEvent::Exists(true) => Action::Perform(
            FileTask { op: FileOp::Remove, path, content: String::new() },
        ),
        FileEvent::Exists(false) => Action::Reply(Response::new(Status::Http404)),
        FileEvent::NotFound => Action::Reply(Response::new(Status::Http404)),
        FileEvent::Completed => Action::Reply(Response::new(Status::Http200)),
        _ => Action::Reply(Response::new(Status::Http500)),
    }
}

impl FileTaskView {
    /// What follows `event`.
    pub open spec fn advance(self, event: FileEvent) -> ActionView {
        match self.op {
            FileOp::Read => get_file_step(self.path, event),
            FileOp::Create => post_file_step(self.path, self.content, event),
            FileOp::Remove => delete_file_step(self.path, event),
        }
    }
}

impl FileTask {
    /// Takes what the caller found or did and says what follows.
    pub fn advance(self, event: FileEvent) -> (action: Action)
        ensures
            action@ == self@.advance(event),
    {
        match self.op {
            FileOp::Read => get_file(self.path, event),
            FileOp::Create => post_file(self.path, self.content, event),
            FileOp::Remove => delete_file(self.path, event),
        }
    }
}

/// The handler that a path belongs to.
#[derive(Clone, Copy, Debug, PartialEq, Eq, Structural)]
pub enum Route {
    Root,
    UserAgent,
    Echo,
    Files,
    Unknown,
}

/// The handler for `path`. Paths are compared letter for letter, as
/// received.
pub open spec fn route_of(path: Seq<char>) -> Route {
    if path == "/"@ {
        Route::Root
    } else if path == "/user-agent"@ {
        Route::UserAgent
    } else if path == "/echo"@ || "/echo/"@.is_prefix_of(path) {
        Route::Echo
    } else if "/files/"@.is_prefix_of(path) {
        Route::Files
    } else {
        Route::Unknown
    }
}

/// Finds the handler for `path`.
pub fn route(path: &str) -> (route: Route)
    ensures
        route == route_of(path@),
{
    let chars = chars_of(path);
    let chars = chars.as_slice();
    if spells(chars, "/") {
        Route::Root
    } else if spells(chars, "/user-agent") {
        Route::UserAgent
    } else if spells(chars, "/echo") || starts_with(chars, "/echo/") {
        Route::Echo
    } else if starts_with(chars, "/files/") {
        Route::Files
    } else {
        Route::Unknown
    }
}

/// The first step for a request, for a server that serves `directory`.
pub open spec fn handled(directory: Seq<char>, request: RequestView) -> ActionView {
    match route_of(request.path) {
        Route::Root => ActionView::Reply(root_reply(request)),
        Route::UserAgent => ActionView::Reply(user_agent_reply(request)),
        Route::Echo => ActionView::Reply(echo_reply(request)),
        Route::Files => file_plan(directory, request),
        Route::Unknown => ActionView::Reply(ResponseView::bare(Status::Http404)),
    }
}

/// Hands a request to the handler its path belongs to. A path that belongs
/// to none is answered with 404.
pub fn handle_request(state: Arc<State>, request: Request) -> (action: Action)
    ensures
        action@ == handled(state.directory@, request@),
{
    match route(request.path.as_str()) {
        Route::Root => Action::Reply(root_handler(request)),
        Route::UserAgent => Action::Reply(user_agent_handler(request)),
        Route::Echo => Action::Reply(echo_handler(request)),
        Route::Files => file_handler(state, request),
        Route::Unknown => Action::Reply(Response::new(Status::Http404)),
    }
}

/// The first step after the reading of a request has ended.
pub open spec fn answered(
    directory: Seq<char>,
    parsed: Result<RequestView, ParseError>,
) -> ActionView {
    match parsed {
        Ok(request) => handled(directory, request),
        Err(_) => ActionView::Reply(ResponseView::bare(Status::Http400)),
    }
}

/// Deals with what the parser gave: a request is handled, and a request
/// that could not be read is answered with 400.
pub fn handle_parsed(state: Arc<State>, parsed: Result<Request, ParseError>) -> (action: Action)
    ensures
        action@ == answered(
            state.directory@,
            match parsed {
                Ok(request) => Ok(request@),
                Err(error) => Err(error),
            },
        ),
{
    match parsed {
        Ok(request) => handle_request(state, request),
        Err(_) => Action::Reply(Response::new(Status::Http400)),
    }
}

} // verus!
