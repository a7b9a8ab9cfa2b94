//! The structured error body a server may return alongside a non-success
//! status: a status code, a message, and field-level validation complaints.

use vstd::prelude::*;

use crate::text::{chars_string, push_str_chars};

verus! {

/// Spec-level model of an `Option<String>`: the character content, if any.
pub open spec fn opt_view(o: Option<String>) -> Option<Seq<char>> {
    match o {
        Some(s) => Some(s@),
        None => None,
    }
}

/// Mathematical model of a [`ValidationError`].
pub ghost struct ValidationErrorView {
    pub path: Seq<char>,
    pub message: Seq<char>,
    pub invalid_value: Option<Seq<char>>,
}

/// A single field-level complaint the server raises about a submitted
/// definition, scoped to a path within the submitted structure.
#[derive(Debug)]
pub struct ValidationError {
    path: String,
    message: String,
    invalid_value: Option<String>,
}

impl View for ValidationError {
    type V = ValidationErrorView;

    closed spec fn view(&self) -> ValidationErrorView {
        ValidationErrorView {
            path: self.path@,
            message: self.message@,
            invalid_value: opt_view(self.invalid_value),
        }
    }
}

/// Mathematical model of an [`ErrorResponse`].
pub ghost struct ErrorResponseView {
    pub status: u16,
    pub code: Option<Seq<char>>,
    pub message: Seq<char>,
    pub instance: Option<Seq<char>>,
    pub retryable: bool,
    pub validation_errors: Seq<ValidationErrorView>,
}

/// A structured JSON error body returned by the server: status, optional
/// machine-readable code, message, optional instance, a retryable flag, and
/// an ordered list of validation errors.
///
/// Produced only by decoding a server response body; used for diagnostic
/// display and as the payload of a `Server` error.
#[derive(Debug)]
pub struct ErrorResponse {
    status: u16,
    code: Option<String>,
    message: String,
    instance: Option<String>,
    retryable: bool,
    validation_errors: Vec<ValidationError>,
}

impl View for ErrorResponse {
    type V = ErrorResponseView;

    closed spec fn view(&self) -> ErrorResponseView {
        ErrorResponseView {
            status: self.status,
            code: opt_view(self.code),
            message: self.message@,
            instance: opt_view(self.instance),
            retryable: self.retryable,
            validation_errors: self.validation_errors@.map_values(|v: ValidationError| v@),
        }
    }
}

impl ValidationError {
    pub(crate) fn from_parts(
        path: String,
        message: String,
        invalid_value: Option<String>,
    ) -> (r: Self)
        ensures
            r@ == (ValidationErrorView {
                path: path@,
                message: message@,
                invalid_value: opt_view(invalid_value),
            }),
    {
        ValidationError { path, message, invalid_value }
    }

    /// The path of the complained-about field.
    pub fn path(&self) -> (r: &str)
        ensures
            r@ == self@.path,
    {
        self.path.as_str()
    }

    /// The complaint itself.
    pub fn message(&self) -> (r: &str)
        ensures
            r@ == self@.message,
    {
        self.message.as_str()
    }

    /// The offending value, when the server reported one.
    pub fn invalid_value(&self) -> (r: &Option<String>)
        ensures
            opt_view(*r) == self@.invalid_value,
    {
        &self.invalid_value
    }
}

impl ErrorResponse {
    pub(crate) fn from_parts(
        status: u16,
        code: Option<String>,
        message: String,
        instance: Option<String>,
        retryable: bool,
        validation_errors: Vec<ValidationError>,
    ) -> (r: Self)
        ensures
            r@ == (ErrorResponseView {
                status,
                code: opt_view(code),
                message: message@,
                instance: opt_view(instance),
                retryable,
                validation_errors: validation_errors@.map_values(|v: ValidationError| v@),
            }),
    {
        ErrorResponse { status, code, message, instance, retryable, validation_errors }
    }

    /// The HTTP status the server reported inside the body.
    pub fn status(&self) -> (r: u16)
        ensures
            r == self@.status,
    {
        self.status
    }

    /// The machine-readable error code, when present.
    pub fn code(&self) -> (r: &Option<String>)
        ensures
            opt_view(*r) == self@.code,
    {
        &self.code
    }

    /// The human-readable message.
    pub fn message(&self) -> (r: &str)
        ensures
            r@ == self@.message,
    {
        self.message.as_str()
    }

    /// The instance the error refers to, when present.
    pub fn instance(&self) -> (r: &Option<String>)
        ensures
            opt_view(*r) == self@.instance,
    {
        &self.instance
    }

    /// Whether the server marked the failure as retryable.
    pub fn retryable(&self) -> (r: bool)
        ensures
            r == self@.retryable,
    {
        self.retryable
    }

    /// The server's validation errors, in the order it sent them.
    pub fn validation_errors(&self) -> (r: &Vec<ValidationError>)
        ensures
            r@.map_values(|v: ValidationError| v@) == self@.validation_errors,
    {
        &self.validation_errors
    }
}

/// Rendering of an optional text field: the content in `Some("...")`, or
/// `None`. The content is rendered verbatim.
pub open spec fn spec_display_opt(v: Option<Seq<char>>) -> Seq<char> {
    match v {
        Some(s) => "Some(\""@ + s + "\")"@,
        None => "None"@,
    }
}

/// Rendering of a boolean as `true` or `false`.
pub open spec fn spec_display_bool(b: bool) -> Seq<char> {
    if b {
        "true"@
    } else {
        "false"@
    }
}

/// One-line rendering of a validation error:
/// `[path="...", message="...", invalid value="..."]`.
pub open spec fn spec_display_validation_error(v: ValidationErrorView) -> Seq<char> {
    "[path=\""@ + v.path + "\", message=\""@ + v.message + "\", invalid value=\""@
        + spec_display_opt(v.invalid_value) + "\"]"@
}

/// Validation errors rendered in sequence order with no separator.
pub open spec fn spec_display_validation_errors(vs: Seq<ValidationErrorView>) -> Seq<char>
    decreases vs.len(),
{
    if vs.len() == 0 {
        Seq::empty()
    } else {
        spec_display_validation_errors(vs.drop_last()) + spec_display_validation_error(vs.last())
    }
}

/// One-line rendering of the whole error response:
/// `[code="...", message="...", instance="...", retryable="...", validation errors="[...]"]`.
pub open spec fn spec_display_error_response(e: ErrorResponseView) -> Seq<char> {
    "[code=\""@ + spec_display_opt(e.code) + "\", message=\""@ + e.message + "\", instance=\""@
        + spec_display_opt(e.instance) + "\", retryable=\""@ + spec_display_bool(e.retryable)
        + "\", validation errors=\"["@ + spec_display_validation_errors(e.validation_errors)
        + "]\"]"@
}

fn push_opt(out: &mut Vec<char>, v: &Option<String>)
    ensures
        final(out)@ == old(out)@ + spec_display_opt(opt_view(*v)),
{
    match v {
        Some(s) => {
            push_str_chars(out, "Some(\"");
            push_str_chars(out, s.as_str());
            push_str_chars(out, "\")");
        },
        None => {
            push_str_chars(out, "None");
        },
    }
}

impl ValidationError {
    pub(crate) fn push_display(&self, out: &mut Vec<char>)
        ensures
            final(out)@ == old(out)@ + spec_display_validation_error(self@),
    {
        push_str_chars(out, "[path=\"");
        push_str_chars(out, self.path.as_str());
        push_str_chars(out, "\", message=\"");
        push_str_chars(out, self.message.as_str());
        push_str_chars(out, "\", invalid value=\"");
        push_opt(out, &self.invalid_value);
        push_str_chars(out, "\"]");
    }

    /// The one-line rendering of this validation error.
    pub fn display_string(&self) -> (r: String)
        ensures
            r@ == spec_display_validation_error(self@),
    {
        let mut out: Vec<char> = Vec::new();
        self.push_display(&mut out);
        chars_string(&out)
    }
}

impl ErrorResponse {
    pub(crate) fn push_display(&self, out: &mut Vec<char>)
        ensures
            final(out)@ == old(out)@ + spec_display_error_response(self@),
    {
        let ghost views = self.validation_errors@.map_values(|v: ValidationError| v@);
        push_str_chars(out, "[code=\"");
        push_opt(out, &self.code);
        push_str_chars(out, "\", message=\"");
        push_str_chars(out, self.message.as_str());
        push_str_chars(out, "\", instance=\"");
        push_opt(out, &self.instance);
        push_str_chars(out, "\", retryable=\"");
        if self.retryable {
            push_str_chars(out, "true");
        } else {
            push_str_chars(out, "false");
        }
        push_str_chars(out, "\", validation errors=\"[");
        let ghost mid = out@;
        let mut i: usize = 0;
        while i < self.validation_errors.len()
            invariant
                i <= self.validation_errors.len(),
                views == self.validation_errors@.map_values(|v: ValidationError| v@),
                out@ == mid + spec_display_validation_errors(views.take(i as int)),
            decreases self.validation_errors.len() - i,
        {
            let ghost prev = views.take(i as int);
            self.validation_errors[i].push_display(out);
            proof {
                assert(views.take(i + 1).drop_last() =~= prev);
                assert(views.take(i + 1).last() == views[i as int]);
            }
            i = i + 1;
        }
        proof {
            assert(views.take(views.len() as int) =~= views);
        }
        push_str_chars(out, "]\"]");
    }

    /// The one-line rendering of this error response, suitable for logging.
    pub fn display_string(&self) -> (r: String)
        ensures
            r@ == spec_display_error_response(self@),
    {
        let mut out: Vec<char> = Vec::new();
        self.push_display(&mut out);
        chars_string(&out)
    }
}

} // verus!
