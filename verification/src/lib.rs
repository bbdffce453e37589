//! The protocol layer of a small HTTP/1.1 server: reading requests, routing
//! them, answering them, and writing the answers, each as a function on
//! plain values with a proved contract. Sockets and files stay with the
//! caller.

pub mod codec;
pub mod handlers;
pub mod laws;
pub mod message;
pub mod text;

pub use crate::codec::{
    parse_to_request, write_response, Demand, ParseError, Parser, BODY_LIMIT,
};
pub use crate::handlers::{
    delete_file, echo_handler, file_handler, get_file, get_subpath, handle_parsed,
    handle_request, post_file, root_handler, route, user_agent_handler, Action, FileEvent,
    FileOp, FileTask, Route,
};
pub use crate::message::{
    Headers, Method, Request, Response, State, Status, CONTENT_LENGTH, CONTENT_TYPE,
    HTTP_VERSION, TEXT_PLAIN, USER_AGENT,
};
