//! The values that travel through the server: methods, statuses, header
//! fields, requests and responses, each with its mathematical view.

use crate::text::{byte_len, decimal_text, format_decimal, same_text, spells, utf8_len};
use vstd::prelude::*;
use vstd::string::*;

verus! {

/// Name of the header that announces the length of a body in bytes.
pub const CONTENT_LENGTH: &'static str = "Content-Length";

/// Name of the header that announces the kind of a body.
pub const CONTENT_TYPE: &'static str = "Content-Type";

/// Name of the header by which a client identifies itself.
pub const USER_AGENT: &'static str = "User-Agent";

/// The one content type the server emits.
pub const TEXT_PLAIN: &'static str = "text/plain";

/// The protocol version the server speaks.
pub const HTTP_VERSION: &'static str = "HTTP/1.1";

/// The request methods the server understands.
#[derive(Clone, Copy, Debug, PartialEq, Eq, Structural)]
pub enum Method {
    Get,
    Post,
    Put,
    Delete,
}

impl Method {
    /// The token that names the method on a request line.
    pub open spec fn token(self) -> Seq<char> {
        match self {
            Method::Get => "GET"@,
            Method::Post => "POST"@,
            Method::Put => "PUT"@,
            Method::Delete => "DELETE"@,
        }
    }

    /// The method that a token names, if it names one. Tokens are compared
    /// letter for letter.
    pub open spec fn of_token(token: Seq<char>) -> Option<Method> {
        if token == "GET"@ {
            Some(Method::Get)
        } else if token == "POST"@ {
            Some(Method::Post)
        } else if token == "PUT"@ {
            Some(Method::Put)
        } else if token == "DELETE"@ {
            Some(Method::Delete)
        } else {
            None
        }
    }

    pub fn as_str(&self) -> (token: &str)
        ensures
            token@ == self.token(),
    {
        match self {
            Method::Get => "GET",
            Method::Post => "POST",
            Method::Put => "PUT",
            Method::Delete => "DELETE",
        }
    }

    /// Reads a method token.
    pub fn from_token(token: &[char]) -> (method: Option<Method>)
        ensures
            method == Method::of_token(token@),
    {
        if spells(token, "GET") {
            Some(Method::Get)
        } else if spells(token, "POST") {
            Some(Method::Post)
        } else if spells(token, "PUT") {
            Some(Method::Put)
        } else if spells(token, "DELETE") {
            Some(Method::Delete)
        } else {
            None
        }
    }
}

/// The statuses the server answers with.
#[derive(Clone, Copy, Debug, PartialEq, Eq, Structural)]
pub enum Status {
    Http200,
    Http201,
    Http400,
    Http404,
    Http405,
    Http409,
    Http500,
}

impl Status {
    /// The three-digit status code.
    pub open spec fn code(self) -> nat {
        match self {
            Status::Http200 => 200,
            Status::Http201 => 201,
            Status::Http400 => 400,
            Status::Http404 => 404,
            Status::Http405 => 405,
            Status::Http409 => 409,
            Status::Http500 => 500,
        }
    }

    /// The reason phrase that goes with the code.
    pub open spec fn reason(self) -> Seq<char> {
        match self {
            Status::Http200 => "OK"@,
            Status::Http201 => "Created"@,
            Status::Http400 => "Bad Request"@,
            Status::Http404 => "Not Found"@,
            Status::Http405 => "Method Not Allowed"@,
            Status::Http409 => "Conflict"@,
            Status::Http500 => "Internal Server Error"@,
        }
    }

    /// Code and reason phrase as they stand on a status line.
    pub open spec fn text(self) -> Seq<char> {
        decimal_text(self.code()) + " "@ + self.reason()
    }

    pub fn as_str(&self) -> (text: &str)
        ensures
            text@ == self.text(),
    {
        proof {
            reveal_with_fuel(decimal_text, 3);
            reveal_strlit(" ");
        }
        match self {
            Status::Http200 => {
                proof {
                    reveal_strlit("OK");
                    reveal_strlit("200 OK");
                }
                assert("200 OK"@ =~= self.text());
                "200 OK"
            },
            Status::Http201 => {
                proof {
                    reveal_strlit("Created");
                    reveal_strlit("201 Created");
                }
                assert("201 Created"@ =~= self.text());
                "201 Created"
            },
            Status::Http400 => {
                proof {
                    reveal_strlit("Bad Request");
                    reveal_strlit("400 Bad Request");
                }
                assert("400 Bad Request"@ =~= self.text());
                "400 Bad Request"
            },
            Status::Http404 => {
                proof {
                    reveal_strlit("Not Found");
                    reveal_strlit("404 Not Found");
                }
                assert("404 Not Found"@ =~= self.text());
                "404 Not Found"
            },
            Status::Http405 => {
                proof {
                    reveal_strlit("Method Not Allowed");
                    reveal_strlit("405 Method Not Allowed");
                }
                assert("405 Method Not Allowed"@ =~= self.text());
                "405 Method Not Allowed"
            },
            Status::Http409 => {
                proof {
                    reveal_strlit("Conflict");
                    reveal_strlit("409 Conflict");
                }
                assert("409 Conflict"@ =~= self.text());
                "409 Conflict"
            },
            Status::Http500 => {
                proof {
                    reveal_strlit("Internal Server Error");
                    reveal_strlit("500 Internal Server Error");
                }
                assert("500 Internal Server Error"@ =~= self.text());
                "500 Internal Server Error"
            },
        }
    }
}

/// A list of header fields, each a name and a value.
pub type Fields = Seq<(Seq<char>, Seq<char>)>;

/// Whether no name occurs twice in `fields`.
pub open spec fn names_distinct(fields: Fields) -> bool {
    forall|i: int, j: int| 0 <= i < j < fields.len() ==> fields[i].0 != fields[j].0
}

/// The index of the first field called `name`, if there is one. Names are
/// compared letter for letter.
pub open spec fn field_index(fields: Fields, name: Seq<char>) -> Option<int>
    decreases fields.len(),
{
    if fields.len() == 0 {
        None
    } else if fields[0].0 == name {
        Some(0)
    } else {
        match field_index(fields.drop_first(), name) {
            Some(i) => Some(i + 1),
            None => None,
        }
    }
}

/// The value of the field called `name`, if there is one.
pub open spec fn lookup(fields: Fields, name: Seq<char>) -> Option<Seq<char>> {
    match field_index(fields, name) {
        Some(i) => Some(fields[i].1),
        None => None,
    }
}

/// `fields` after `name` was given `value`: a field of that name keeps its
/// place and takes the new value, a new name goes to the end.
pub open spec fn upsert(fields: Fields, name: Seq<char>, value: Seq<char>) -> Fields {
    match field_index(fields, name) {
        Some(i) => fields.update(i, (name, value)),
        None => fields.push((name, value)),
    }
}

/// The mapping from names to values that `fields` stands for.
pub open spec fn as_map(fields: Fields) -> Map<Seq<char>, Seq<char>> {
    Map::new(|name: Seq<char>| lookup(fields, name) is Some, |name: Seq<char>| lookup(fields, name)->0)
}

/// What `field_index` finds has the name and is the first of that name;
/// what it does not find is no field's name.
pub proof fn lemma_field_index(fields: Fields, name: Seq<char>)
    ensures
        match field_index(fields, name) {
            Some(i) => 0 <= i < fields.len() && fields[i].0 == name && forall|k: int|
                0 <= k < i ==> fields[k].0 != name,
            None => forall|k: int| 0 <= k < fields.len() ==> fields[k].0 != name,
        },
    decreases fields.len(),
{
    if fields.len() > 0 && fields[0].0 != name {
        let rest = fields.drop_first();
        lemma_field_index(rest, name);
        assert forall|k: int| 1 <= k < fields.len() implies fields[k] == rest[k - 1] by {}
        match field_index(rest, name) {
            Some(i) => {
                assert forall|k: int| 0 <= k < i + 1 implies fields[k].0 != name by {
                    if k >= 1 {
                        assert(rest[k - 1].0 != name);
                    }
                }
            },
            None => {
                assert forall|k: int| 0 <= k < fields.len() implies fields[k].0 != name by {
                    if k >= 1 {
                        assert(rest[k - 1].0 != name);
                    }
                }
            },
        }
    }
}

/// The last value given to a name is the one found, and giving a name a
/// value changes no other name's value.
pub proof fn lemma_lookup_upsert(
    fields: Fields,
    name: Seq<char>,
    value: Seq<char>,
    other: Seq<char>,
)
    ensures
        lookup(upsert(fields, name, value), other) == if other == name {
            Some(value)
        } else {
            lookup(fields, other)
        },
{
    let after = upsert(fields, name, value);
    lemma_field_index(fields, name);
    lemma_field_index(fields, other);
    lemma_field_index(after, other);
    match field_index(fields, name) {
        Some(i) => {
            assert(after[i] == (name, value));
            assert forall|k: int| 0 <= k < fields.len() && k != i implies after[k] == fields[k] by {}
            match field_index(after, other) {
                Some(j) => {
                    if j != i {
                        assert(after[j] == fields[j]);
                    }
                },
                None => {},
            }
            match field_index(fields, other) {
                Some(j) => {
                    if j != i {
                        assert(after[j] == fields[j]);
                    }
                },
                None => {},
            }
        },
        None => {
            assert(after[fields.len() as int] == (name, value));
            assert forall|k: int| 0 <= k < fields.len() implies after[k] == fields[k] by {}
            match field_index(after, other) {
                Some(j) => {
                    if j < fields.len() {
                        assert(after[j] == fields[j]);
                    }
                },
                None => {},
            }
            match field_index(fields, other) {
                Some(j) => {
                    assert(after[j] == fields[j]);
                },
                None => {},
            }
        },
    }
}

/// Giving a name a value keeps the names distinct.
pub proof fn lemma_upsert_distinct(fields: Fields, name: Seq<char>, value: Seq<char>)
    requires
        names_distinct(fields),
    ensures
        names_distinct(upsert(fields, name, value)),
{
    lemma_field_index(fields, name);
}

/// As a mapping, giving a name a value is an insertion.
pub proof fn lemma_upsert_as_map(fields: Fields, name: Seq<char>, value: Seq<char>)
    ensures
        as_map(upsert(fields, name, value)) == as_map(fields).insert(name, value),
{
    assert forall|other: Seq<char>|
        lookup(upsert(fields, name, value), other) == if other == name {
            Some(value)
        } else {
            lookup(fields, other)
        } by {
        lemma_lookup_upsert(fields, name, value, other);
    }
    assert(as_map(upsert(fields, name, value)) =~= as_map(fields).insert(name, value));
}

/// The header fields of a message: an insertion-ordered mapping from names
/// to values in which no name occurs twice.
#[derive(Debug)]
pub struct Headers {
    fields: Vec<(String, String)>,
}

impl View for Headers {
    type V = Fields;

    /// The fields in the order in which their names were first inserted.
    closed spec fn view(&self) -> Fields {
        self.fields@.map_values(|field: (String, String)| (field.0@, field.1@))
    }
}

impl Headers {
    #[verifier::type_invariant]
    spec fn well_formed(&self) -> bool {
        names_distinct(self@)
    }

    /// No fields.
    pub fn new() -> (headers: Headers)
        ensures
            headers@ == Fields::empty(),
    {
        let headers = Headers { fields: Vec::new() };
        assert(headers@ =~= Fields::empty());
        headers
    }

    /// The number of fields. No two of them share a name.
    pub fn len(&self) -> (n: usize)
        ensures
            n == self@.len(),
            names_distinct(self@),
    {
        proof {
            use_type_invariant(self);
        }
        self.fields.len()
    }

    /// The name of the field at `index`.
    pub fn name(&self, index: usize) -> (name: &str)
        requires
            index < self@.len(),
        ensures
            name@ == self@[index as int].0,
    {
        self.fields[index].0.as_str()
    }

    /// The value of the field at `index`.
    pub fn value(&self, index: usize) -> (value: &str)
        requires
            index < self@.len(),
        ensures
            value@ == self@[index as int].1,
    {
        self.fields[index].1.as_str()
    }

    /// The place of the field called `name`.
    fn find(&self, name: &str) -> (at: Option<usize>)
        ensures
            match at {
                Some(i) => i < self.fields@.len() && field_index(self@, name@) == Some(i as int),
                None => field_index(self@, name@) == None::<int>,
            },
    {
        let mut i: usize = 0;
        while i < self.fields.len()
            invariant
                i <= self.fields.len(),
                self.fields@.len() == self@.len(),
                forall|k: int| 0 <= k < i ==> self@[k].0 != name@,
            decreases self.fields.len() - i,
        {
            assert(self@[i as int].0 == self.fields@[i as int].0@);
            if same_text(self.fields[i].0.as_str(), name) {
                proof {
                    lemma_field_index(self@, name@);
                }
                return Some(i);
            }
            i += 1;
        }
        proof {
            lemma_field_index(self@, name@);
        }
        None
    }

    /// The value of the field called `name`, if there is one.
    pub fn get(&self, name: &str) -> (value: Option<&String>)
        ensures
            match value {
                Some(v) => lookup(self@, name@) == Some(v@),
                None => lookup(self@, name@) == None::<Seq<char>>,
            },
    {
        match self.find(name) {
            Some(i) => {
                assert(self@[i as int].1 == self.fields@[i as int].1@);
                Some(&self.fields[i].1)
            },
            None => None,
        }
    }

    /// Gives `name` the value `value`. A value the name had before is
    /// replaced.
    pub fn insert(&mut self, name: String, value: String)
        ensures
            final(self)@ == upsert(old(self)@, name@, value@),
            names_distinct(final(self)@),
    {
        proof {
            use_type_invariant(&*self);
            lemma_upsert_distinct(self@, name@, value@);
        }
        let at = self.find(name.as_str());
        let mut fields: Vec<(String, String)> = Vec::new();
        std::mem::swap(&mut fields, &mut self.fields);
        assert(fields@ == old(self).fields@);
        match at {
            Some(i) => {
                fields.set(i, (name, value));
            },
            None => {
                fields.push((name, value));
            },
        }
        assert(fields@.map_values(|field: (String, String)| (field.0@, field.1@)) =~= upsert(
            old(self)@,
            name@,
            value@,
        ));
        self.fields = fields;
    }
}

/// What a server knows for its whole life.
pub struct State {
    /// The directory whose files the server serves.
    pub directory: String,
}

/// A request as the parser hands it on.
#[derive(Debug)]
pub struct Request {
    pub method: Method,
    /// The path as received, with its leading `/`.
    pub path: String,
    pub version: String,
    pub headers: Headers,
    pub body: String,
}

/// The mathematical content of a [`Request`].
pub struct RequestView {
    pub method: Method,
    pub path: Seq<char>,
    pub version: Seq<char>,
    pub headers: Fields,
    pub body: Seq<char>,
}

impl View for Request {
    type V = RequestView;

    open spec fn view(&self) -> RequestView {
        RequestView {
            method: self.method,
            path: self.path@,
            version: self.version@,
            headers: self.headers@,
            body: self.body@,
        }
    }
}

impl RequestView {
    /// A request without header fields or body.
    pub open spec fn bare(method: Method, path: Seq<char>) -> RequestView {
        RequestView { method, path, version: HTTP_VERSION@, headers: Fields::empty(), body: Seq::empty() }
    }

    /// The value of the header field called `name`, if the request has one.
    pub open spec fn header(self, name: Seq<char>) -> Option<Seq<char>> {
        lookup(self.headers, name)
    }

    /// This request with the header field `name` set to `value`.
    pub open spec fn with_header(self, name: Seq<char>, value: Seq<char>) -> RequestView {
        RequestView {
            method: self.method,
            path: self.path,
            version: self.version,
            headers: upsert(self.headers, name, value),
            body: self.body,
        }
    }

    /// This request with the body `body`.
    pub open spec fn with_body(self, body: Seq<char>) -> RequestView {
        RequestView {
            method: self.method,
            path: self.path,
            version: self.version,
            headers: self.headers,
            body,
        }
    }
}

impl Request {
    /// A request for `path` without header fields or body.
    pub fn new(method: Method, path: &str) -> (request: Self)
        ensures
            request@ == RequestView::bare(method, path@),
            names_distinct(request@.headers),
    {
        Self {
            method,
            path: path.to_owned(),
            version: HTTP_VERSION.to_owned(),
            headers: Headers::new(),
            body: String::new(),
        }
    }

    /// Sets the header field `key` to `value`.
    pub fn with_header(self, key: &str, value: &str) -> (request: Self)
        ensures
            request@ == self@.with_header(key@, value@),
            names_distinct(request@.headers),
    {
        let mut request = self;
        request.headers.insert(key.to_owned(), value.to_owned());
        request
    }

    /// Sets the body.
    pub fn with_body(self, body: &str) -> (request: Self)
        ensures
            request@ == self@.with_body(body@),
    {
        let mut request = self;
        request.body = body.to_owned();
        request
    }
}

/// A response on its way to the client.
pub struct Response {
    pub status: Status,
    pub headers: Headers,
    pub body: String,
}

/// The mathematical content of a [`Response`].
pub struct ResponseView {
    pub status: Status,
    pub headers: Fields,
    pub body: Seq<char>,
}

impl View for Response {
    type V = ResponseView;

    open spec fn view(&self) -> ResponseView {
        ResponseView { status: self.status, headers: self.headers@, body: self.body@ }
    }
}

impl ResponseView {
    /// A response without header fields or body.
    pub open spec fn bare(status: Status) -> ResponseView {
        ResponseView { status, headers: Fields::empty(), body: Seq::empty() }
    }

    /// The value of the header field called `name`, if the response has one.
    pub open spec fn header(self, name: Seq<char>) -> Option<Seq<char>> {
        lookup(self.headers, name)
    }

    /// This response with the header field `name` set to `value`.
    pub open spec fn with_header(self, name: Seq<char>, value: Seq<char>) -> ResponseView {
        ResponseView {
            status: self.status,
            headers: upsert(self.headers, name, value),
            body: self.body,
        }
    }

    /// This response with the body `body`.
    pub open spec fn with_body(self, body: Seq<char>) -> ResponseView {
        ResponseView { status: self.status, headers: self.headers, body }
    }

    /// This response with its content type set to `content_type` and its
    /// content length set to the number of bytes its body takes on the wire.
    pub open spec fn described(self, content_type: Seq<char>) -> ResponseView {
        self.with_header(CONTENT_TYPE@, content_type).with_header(
            CONTENT_LENGTH@,
            decimal_text(utf8_len(self.body)),
        )
    }

    /// A response that carries `body` as plain text, with the two header
    /// fields that describe it.
    pub open spec fn plain(status: Status, body: Seq<char>) -> ResponseView {
        ResponseView::bare(status).with_body(body).described(TEXT_PLAIN@)
    }
}

impl Response {
    /// A response without header fields or body.
    pub fn new(status: Status) -> (response: Self)
        ensures
            response@ == ResponseView::bare(status),
    {
        Self { status, headers: Headers::new(), body: String::new() }
    }

    /// Sets the header field `key` to `value`.
    pub fn with_header(self, key: &str, value: &str) -> (response: Self)
        ensures
            response@ == self@.with_header(key@, value@),
    {
        let mut response = self;
        response.headers.insert(key.to_owned(), value.to_owned());
        response
    }

    /// Sets the body.
    pub fn with_body(self, body: &str) -> (response: Self)
        ensures
            response@ == self@.with_body(body@),
    {
        let mut response = self;
        response.body = body.to_owned();
        response
    }

    /// Sets the content type, and the content length to the number of bytes
    /// of the body as it is now.
    pub fn with_content_type_and_current_length(self, content_type: &str) -> (response: Self)
        ensures
            response@ == self@.described(content_type@),
    {
        let body_length = format_decimal(byte_len(self.body.as_str()));
        self.with_header(CONTENT_TYPE, content_type).with_header(
            CONTENT_LENGTH,
            body_length.as_str(),
        )
    }
}

} // verus!
