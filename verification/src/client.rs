//! The clients: building POST requests and classifying responses.
//!
//! The library performs no I/O itself: [`BaseClient::post`] hands back a
//! fully built [`HttpRequest`] for an HTTP engine to send, and
//! [`BaseClient::classify_response`] turns the status and buffered body the
//! engine got back into the caller's result.

use vstd::prelude::*;

use crate::codec::{
    encode_task_defs, parse_error_response, spec_encode_task_defs, spec_parse_error_response_bytes,
};
use crate::error::{Error, InvalidArgument, Kind, Server};
use crate::task::TaskDef;
use crate::text::{chars_string, push_str_chars, str_chars};

verus! {

/// Whether a string is a well-formed request URI, as the HTTP engine's URI
/// parser decides it.
pub uninterp spec fn uri_ok(s: Seq<char>) -> bool;

/// Relies on hyper::Uri's FromStr implementation (the http crate's URI
/// parser): whether a string parses is a function of the string alone, and
/// parsing never panics.
#[verifier::external_body]
fn uri_is_valid(s: &str) -> (r: bool)
    ensures
        r == uri_ok(s@),
{
    s.parse::<hyper::Uri>().is_ok()
}

/// A fully built HTTP request, ready to hand to an HTTP engine: the method,
/// the request URI, the headers in order, and the body text.
#[derive(Debug)]
pub struct HttpRequest {
    pub method: String,
    pub uri: String,
    pub headers: Vec<(String, String)>,
    pub body: String,
}

/// What a well-formed JSON POST request against `uri` with body `body`
/// holds: the POST method, exactly the `content-type` and `accept` headers,
/// both naming JSON, and the body text itself.
pub open spec fn spec_post_request(uri: Seq<char>, body: Seq<char>, req: HttpRequest) -> bool {
    &&& req.method@ == "POST"@
    &&& req.uri@ == uri
    &&& req.headers@.len() == 2
    &&& req.headers@[0].0@ == "content-type"@
    &&& req.headers@[0].1@ == "application/json"@
    &&& req.headers@[1].0@ == "accept"@
    &&& req.headers@[1].1@ == "application/json"@
    &&& req.body@ == body
}

/// The statuses classified as failures: redirection, client error and
/// server error.
pub open spec fn in_error_range(status: u16) -> bool {
    300 <= status < 600
}

/// What classifying a response yields. Success is owed exactly to a status
/// outside the error ranges with an empty body. A status in the error
/// ranges yields the parsed structured error body when the body parses as
/// one, and an unexpected-status error otherwise; a status outside the
/// error ranges with a non-empty body yields an unexpected-status error.
pub open spec fn spec_classified(status: u16, body: Seq<u8>, r: Result<(), Error>) -> bool {
    match r {
        Ok(_) => !in_error_range(status) && body.len() == 0,
        Err(e) => {
            &&& e.spec_source() is None
            &&& if in_error_range(status) {
                match spec_parse_error_response_bytes(body) {
                    Some(erv) => e.spec_kind() matches Kind::Server(Server::ErrorResponse(er))
                        && er@ == erv,
                    None => e.spec_kind() == Kind::Server(Server::UnexpectedStatus(status)),
                }
            } else {
                body.len() > 0 && e.spec_kind() == Kind::Server(Server::UnexpectedStatus(status))
            }
        },
    }
}

/// The request-construction half of the client: it owns the target base URL
/// and builds JSON POST requests against paths below it.
#[derive(Debug)]
pub struct BaseClient {
    base_url: String,
}

impl BaseClient {
    /// The base URL requests are built against.
    pub closed spec fn spec_base_url(&self) -> Seq<char> {
        self.base_url@
    }

    /// Creates a client addressing the given base URL.
    pub fn new(base_url: String) -> (r: Self)
        ensures
            r.spec_base_url() == base_url@,
    {
        BaseClient { base_url }
    }

    /// Replaces the stored base URL. Takes effect for requests built after
    /// this call; a request already built is a value of its own and is
    /// unaffected.
    pub fn set_base_url(&mut self, base_url: String)
        ensures
            final(self).spec_base_url() == base_url@,
    {
        self.base_url = base_url;
    }

    /// Builds a POST request with URI `base_url + "/" + path`, the JSON
    /// content headers, and the given body text. Fails with a `Transport`
    /// error when the assembled URI is not well-formed.
    pub fn post(&self, path: &str, json_body: String) -> (r: Result<HttpRequest, Error>)
        ensures
            ({
                let uri = self.spec_base_url() + "/"@ + path@;
                match r {
                    Ok(req) => uri_ok(uri) && spec_post_request(uri, json_body@, req),
                    Err(e) => !uri_ok(uri) && e.spec_kind() == Kind::Transport && e.spec_source()
                        is None,
                }
            }),
    {
        let mut u: Vec<char> = str_chars(self.base_url.as_str());
        push_str_chars(&mut u, "/");
        push_str_chars(&mut u, path);
        let uri = chars_string(&u);
        if uri_is_valid(uri.as_str()) {
            let mut headers: Vec<(String, String)> = Vec::new();
            headers.push(("content-type".to_owned(), "application/json".to_owned()));
            headers.push(("accept".to_owned(), "application/json".to_owned()));
            Ok(HttpRequest { method: "POST".to_owned(), uri, headers, body: json_body })
        } else {
            Err(Error::new(Kind::Transport))
        }
    }

    /// Classifies the status and fully buffered body an HTTP engine got
    /// back, as [`spec_classified`] states.
    pub fn classify_response(&self, status: u16, body: &Vec<u8>) -> (r: Result<(), Error>)
        ensures
            spec_classified(status, body@, r),
    {
        if 300 <= status && status < 600 {
            match parse_error_response(body) {
                Some(er) => Err(Error::new_error_response(er)),
                None => Err(Error::new_unexpected_status(status)),
            }
        } else {
            if body.len() == 0 {
                Ok(())
            } else {
                Err(Error::new_unexpected_status(status))
            }
        }
    }
}

/// The domain-specific client for the metadata API: a [`BaseClient`] whose
/// base URL always ends in `/metadata`, and the one operation family of
/// registering task definitions.
#[derive(Debug)]
pub struct MetadataClient {
    client: BaseClient,
}

impl Default for MetadataClient {
    /// The default client addresses the fixed local development endpoint;
    /// production use requires explicit configuration through
    /// `set_base_url`.
    fn default() -> (r: Self)
        ensures
            r.spec_base_url() == "http://localhost:8080/api/metadata"@,
    {
        MetadataClient {
            client: BaseClient::new("http://localhost:8080/api/metadata".to_owned()),
        }
    }
}

impl MetadataClient {
    /// The base URL requests are built against.
    pub closed spec fn spec_base_url(&self) -> Seq<char> {
        self.client.spec_base_url()
    }

    /// Creates a client addressing the fixed local development endpoint
    /// `http://localhost:8080/api/metadata`.
    pub fn new() -> (r: Self)
        ensures
            r.spec_base_url() == "http://localhost:8080/api/metadata"@,
    {
        Self::default()
    }

    /// Reconfigures the client to address `<base_url>/metadata`. Takes
    /// effect for requests built after this call completes; a request built
    /// earlier carries the URL read at its own build time.
    pub fn set_base_url(&mut self, base_url: String)
        ensures
            final(self).spec_base_url() == base_url@ + "/metadata"@,
    {
        let mut u: Vec<char> = str_chars(base_url.as_str());
        push_str_chars(&mut u, "/metadata");
        self.client.set_base_url(chars_string(&u));
    }

    /// Builds the POST request that registers the given task definitions:
    /// the body is the JSON array encoding of the definitions, in order,
    /// and the URI is the `taskdefs` path below the configured base URL.
    /// An empty list fails eagerly with `InvalidArgument(EmptyTaskDefList)`
    /// before any request exists; a malformed base URL fails with
    /// `Transport`.
    pub fn create_new_task_definitions_request(&self, task_defs: &Vec<TaskDef>) -> (r: Result<
        HttpRequest,
        Error,
    >)
        ensures
            task_defs@.len() == 0 ==> (match r {
                Ok(_) => false,
                Err(e) => e.spec_kind() == Kind::InvalidArgument(InvalidArgument::EmptyTaskDefList)
                    && e.spec_source() is None,
            }),
            task_defs@.len() > 0 ==> ({
                let uri = self.spec_base_url() + "/"@ + "taskdefs"@;
                let body = spec_encode_task_defs(task_defs@.map_values(|d: TaskDef| d@));
                match r {
                    Ok(req) => uri_ok(uri) && spec_post_request(uri, body, req),
                    Err(e) => !uri_ok(uri) && e.spec_kind() == Kind::Transport && e.spec_source()
                        is None,
                }
            }),
    {
        if task_defs.len() == 0 {
            return Err(Error::new_empty_task_def_list());
        }
        let body = encode_task_defs(task_defs);
        self.client.post("taskdefs", body)
    }

    /// Classifies the response the HTTP engine got back for a registration
    /// request, as [`spec_classified`] states: HTTP 204 with an empty body
    /// is the owed success; error-range statuses yield the parsed error
    /// body or an unexpected-status error; a success status with an
    /// unexpected non-empty body is downgraded to a recoverable
    /// unexpected-status error.
    pub fn create_new_task_definitions_response(&self, status: u16, body: &Vec<u8>) -> (r: Result<
        (),
        Error,
    >)
        ensures
            spec_classified(status, body@, r),
    {
        self.client.classify_response(status, body)
    }
}

} // verus!
