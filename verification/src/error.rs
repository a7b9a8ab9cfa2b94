//! The error taxonomy: every fallible operation of the client returns exactly
//! one [`Error`] carrying one [`Kind`], optionally with an underlying cause.

use vstd::prelude::*;

use crate::response::{spec_display_error_response, ErrorResponse};
use crate::text::{chars_string, dec_u16, push_str_chars, spec_dec_nat};

verus! {

/// Mathematical model of a [`Cause`].
pub ghost struct CauseView {
    pub message: Seq<char>,
    pub details: Seq<char>,
}

/// An opaque underlying cause attached to an [`Error`]: the displayable and
/// debug renderings of an external failure (an HTTP engine error, a decoder
/// error), kept only for display and chaining, never matched on.
#[derive(Debug)]
pub struct Cause {
    message: String,
    details: String,
}

impl View for Cause {
    type V = CauseView;

    closed spec fn view(&self) -> CauseView {
        CauseView { message: self.message@, details: self.details@ }
    }
}

impl Cause {
    /// Wraps an external failure given its displayable rendering and its
    /// debug rendering.
    pub fn new(message: String, details: String) -> (r: Self)
        ensures
            r@ == (CauseView { message: message@, details: details@ }),
    {
        Cause { message, details }
    }

    /// The displayable rendering of the underlying failure.
    pub fn message(&self) -> (r: &str)
        ensures
            r@ == self@.message,
    {
        self.message.as_str()
    }

    /// The debug rendering of the underlying failure.
    pub fn details(&self) -> (r: &str)
        ensures
            r@ == self@.details,
    {
        self.details.as_str()
    }
}

/// An invalid argument handed to the client by the caller.
#[derive(Debug)]
pub enum InvalidArgument {
    /// The caller provided an empty list of task definitions.
    EmptyTaskDefList,
}

/// A non-success answer from the server.
#[derive(Debug)]
pub enum Server {
    /// The server returned a structured error body.
    ErrorResponse(ErrorResponse),
    /// The server returned a non-success status with an absent or
    /// unparseable structured body.
    UnexpectedStatus(u16),
}

/// The closed set of error kinds.
#[derive(Debug)]
pub enum Kind {
    /// A request- or connection-layer failure while performing the HTTP
    /// exchange.
    Transport,
    /// A failure while reading the response body.
    Stream,
    /// An invalid argument was provided to a function.
    InvalidArgument(InvalidArgument),
    /// A JSON encode or decode failure.
    Serialization,
    /// The server answered with a non-success status.
    Server(Server),
}

/// An error returned by a client operation: a kind, and an optional
/// underlying cause attached once at construction.
#[derive(Debug)]
pub struct Error {
    kind: Kind,
    source: Option<Cause>,
}

impl Error {
    /// The kind this error carries.
    pub closed spec fn spec_kind(&self) -> Kind {
        self.kind
    }

    /// The underlying cause, if one was attached.
    pub closed spec fn spec_source(&self) -> Option<Cause> {
        self.source
    }

    /// Creates an error of the given kind, with no underlying cause.
    pub fn new(kind: Kind) -> (r: Self)
        ensures
            r.spec_kind() == kind,
            r.spec_source() is None,
    {
        Error { kind, source: None }
    }

    /// Attaches an underlying cause.
    pub fn with(self, source: Cause) -> (r: Self)
        ensures
            r.spec_kind() == self.spec_kind(),
            r.spec_source() == Some(source),
    {
        Error { kind: self.kind, source: Some(source) }
    }

    /// The kind this error carries.
    pub fn kind(&self) -> (r: &Kind)
        ensures
            *r == self.spec_kind(),
    {
        &self.kind
    }

    /// The underlying cause, if one was attached.
    pub fn source(&self) -> (r: &Option<Cause>)
        ensures
            *r == self.spec_source(),
    {
        &self.source
    }

    /// Creates an invalid-argument error.
    pub fn new_invalid_argument(invalid_argument: InvalidArgument) -> (r: Self)
        ensures
            r.spec_kind() == Kind::InvalidArgument(invalid_argument),
            r.spec_source() is None,
    {
        Self::new(Kind::InvalidArgument(invalid_argument))
    }

    /// Creates the error for an empty list of task definitions.
    pub fn new_empty_task_def_list() -> (r: Self)
        ensures
            r.spec_kind() == Kind::InvalidArgument(InvalidArgument::EmptyTaskDefList),
            r.spec_source() is None,
    {
        Self::new_invalid_argument(InvalidArgument::EmptyTaskDefList)
    }

    /// Creates a server error.
    pub fn new_server(server: Server) -> (r: Self)
        ensures
            r.spec_kind() == Kind::Server(server),
            r.spec_source() is None,
    {
        Self::new(Kind::Server(server))
    }

    /// Creates the error for a structured server error body.
    pub fn new_error_response(error_response: ErrorResponse) -> (r: Self)
        ensures
            r.spec_kind() == Kind::Server(Server::ErrorResponse(error_response)),
            r.spec_source() is None,
    {
        Self::new_server(Server::ErrorResponse(error_response))
    }

    /// Creates the error for a non-success status without a parseable body.
    pub fn new_unexpected_status(status_code: u16) -> (r: Self)
        ensures
            r.spec_kind() == Kind::Server(Server::UnexpectedStatus(status_code)),
            r.spec_source() is None,
    {
        Self::new_server(Server::UnexpectedStatus(status_code))
    }
}

/// The one-line description of each kind.
pub open spec fn spec_description(k: Kind) -> Seq<char> {
    match k {
        Kind::Transport => "HTTP connection error"@,
        Kind::Stream => "HTTP stream error"@,
        Kind::InvalidArgument(InvalidArgument::EmptyTaskDefList) => (
        "Empty task def list provided"@),
        Kind::Serialization => "JSON error"@,
        Kind::Server(Server::UnexpectedStatus(_)) => "Unexpected status code from server"@,
        Kind::Server(Server::ErrorResponse(_)) => "Server returned an error"@,
    }
}

/// The full displayable rendering: the description, then the structured
/// payload when present, then the chained cause's message.
pub open spec fn spec_display_error(k: Kind, src: Option<Cause>) -> Seq<char> {
    spec_description(k) + (match k {
        Kind::Server(Server::UnexpectedStatus(c)) => ", status = "@ + spec_dec_nat(c as nat),
        Kind::Server(Server::ErrorResponse(er)) => ", error response = "@
            + spec_display_error_response(er@),
        _ => Seq::<char>::empty(),
    }) + (match src {
        Some(c) => ": "@ + c@.message,
        None => Seq::<char>::empty(),
    })
}

/// The label each kind carries in the compact debug rendering. The labels
/// are fixed log tokens, kept stable for log consumers: `Http` for
/// `Transport`, `Hyper` for `Stream` and `Json` for `Serialization`, naming
/// the engines such failures flow through.
pub open spec fn spec_kind_label(k: Kind) -> Seq<char> {
    match k {
        Kind::Transport => "Http"@,
        Kind::Stream => "Hyper"@,
        Kind::InvalidArgument(InvalidArgument::EmptyTaskDefList) => (
        "InvalidArgument(EmptyTaskDefList)"@),
        Kind::Serialization => "Json"@,
        Kind::Server(Server::UnexpectedStatus(c)) => "Server(UnexpectedStatus("@ + spec_dec_nat(
            c as nat,
        ) + "))"@,
        Kind::Server(Server::ErrorResponse(er)) => "Server(ErrorResponse("@
            + spec_display_error_response(er@) + "))"@,
    }
}

/// The compact debug rendering: a tuple of the kind's label and, when
/// present, the cause's details.
pub open spec fn spec_debug_error(k: Kind, src: Option<Cause>) -> Seq<char> {
    "Error("@ + spec_kind_label(k) + (match src {
        Some(c) => ", "@ + c@.details,
        None => Seq::<char>::empty(),
    }) + ")"@
}

impl Error {
    /// The one-line description of this error's kind.
    pub fn description(&self) -> (r: &str)
        ensures
            r@ == spec_description(self.spec_kind()),
    {
        match &self.kind {
            Kind::Transport => "HTTP connection error",
            Kind::Stream => "HTTP stream error",
            Kind::InvalidArgument(InvalidArgument::EmptyTaskDefList) => (
            "Empty task def list provided"),
            Kind::Serialization => "JSON error",
            Kind::Server(Server::UnexpectedStatus(_)) => "Unexpected status code from server",
            Kind::Server(Server::ErrorResponse(_)) => "Server returned an error",
        }
    }

    /// The full displayable rendering, safe to log directly.
    pub fn display_string(&self) -> (r: String)
        ensures
            r@ == spec_display_error(self.spec_kind(), self.spec_source()),
    {
        let mut out: Vec<char> = Vec::new();
        push_str_chars(&mut out, self.description());
        match &self.kind {
            Kind::Server(Server::UnexpectedStatus(c)) => {
                push_str_chars(&mut out, ", status = ");
                let mut digits = dec_u16(*c);
                out.append(&mut digits);
            },
            Kind::Server(Server::ErrorResponse(er)) => {
                push_str_chars(&mut out, ", error response = ");
                er.push_display(&mut out);
            },
            _ => {},
        }
        match &self.source {
            Some(c) => {
                push_str_chars(&mut out, ": ");
                push_str_chars(&mut out, c.message());
            },
            None => {},
        }
        chars_string(&out)
    }

    /// The compact debug rendering: the kind's label and, when present, the
    /// cause's details.
    pub fn debug_string(&self) -> (r: String)
        ensures
            r@ == spec_debug_error(self.spec_kind(), self.spec_source()),
    {
        let mut out: Vec<char> = Vec::new();
        push_str_chars(&mut out, "Error(");
        match &self.kind {
            Kind::Transport => push_str_chars(&mut out, "Http"),
            Kind::Stream => push_str_chars(&mut out, "Hyper"),
            Kind::InvalidArgument(InvalidArgument::EmptyTaskDefList) => push_str_chars(
                &mut out,
                "InvalidArgument(EmptyTaskDefList)",
            ),
            Kind::Serialization => push_str_chars(&mut out, "Json"),
            Kind::Server(Server::UnexpectedStatus(c)) => {
                push_str_chars(&mut out, "Server(UnexpectedStatus(");
                let mut digits = dec_u16(*c);
                out.append(&mut digits);
                push_str_chars(&mut out, "))");
            },
            Kind::Server(Server::ErrorResponse(er)) => {
                push_str_chars(&mut out, "Server(ErrorResponse(");
                er.push_display(&mut out);
                push_str_chars(&mut out, "))");
            },
        }
        match &self.source {
            Some(c) => {
                push_str_chars(&mut out, ", ");
                push_str_chars(&mut out, c.details());
            },
            None => {},
        }
        push_str_chars(&mut out, ")");
        chars_string(&out)
    }
}

} // verus!
