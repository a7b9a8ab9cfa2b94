use conductor::{Cause, Error, InvalidArgument, Kind, Server};

fn new_io_error() -> std::io::Error {
    std::io::Error::new(std::io::ErrorKind::Other, "oh no!")
}

fn with_io_source(err: Error) -> Error {
    let io = new_io_error();
    err.with(Cause::new(format!("{}", io), format!("{:?}", io)))
}

#[test]
fn when_new_error_then_kind_field_set() {
    let err = Error::new(Kind::Serialization);
    assert!(matches!(err.kind(), Kind::Serialization));
}

#[test]
fn when_new_error_then_source_is_none() {
    let err = Error::new(Kind::Serialization);
    assert!(err.source().is_none());
}

#[test]
fn given_error_with_kind_when_debug_fmt_then_print_tuple_with_kind() {
    let err = Error::new(Kind::Serialization);
    let string = err.debug_string();
    assert_eq!(string, "Error(Json)");
}

#[test]
fn given_error_with_kind_when_display_fmt_then_print_description() {
    let err = Error::new(Kind::Serialization);
    let string = err.display_string();
    assert_eq!(string, "JSON error");
}

#[test]
fn given_error_with_source_when_debug_fmt_then_print_tuple_with_source() {
    let err = with_io_source(Error::new(Kind::Serialization));
    let string = err.debug_string();
    assert_eq!(
        string,
        "Error(Json, Custom { kind: Other, error: \"oh no!\" })"
    );
}

#[test]
fn given_error_with_source_when_display_fmt_then_print_description_with_source() {
    let err = with_io_source(Error::new(Kind::Serialization));
    let string = err.display_string();
    assert_eq!(string, "JSON error: oh no!");
}

#[test]
fn given_error_with_no_source_when_get_source_then_return_none() {
    let err = Error::new(Kind::Serialization);
    assert!(matches!(err.source(), None));
}

#[test]
fn given_error_with_source_when_get_source_then_return_source() {
    let err = with_io_source(Error::new(Kind::Serialization));
    let source = err.source();
    assert!(matches!(source, Some(s) if s.message() == "oh no!"));
}

#[test]
fn transport_error_describes_the_connection() {
    let err = Error::new(Kind::Transport);
    assert_eq!(err.display_string(), "HTTP connection error");
    assert_eq!(err.debug_string(), "Error(Http)");
}

#[test]
fn stream_error_describes_the_stream() {
    let err = Error::new(Kind::Stream);
    assert_eq!(err.display_string(), "HTTP stream error");
    assert_eq!(err.debug_string(), "Error(Hyper)");
}

#[test]
fn empty_task_def_list_error_describes_the_argument() {
    let err = Error::new_empty_task_def_list();
    assert!(matches!(
        err.kind(),
        Kind::InvalidArgument(InvalidArgument::EmptyTaskDefList)
    ));
    assert_eq!(err.display_string(), "Empty task def list provided");
    assert_eq!(err.debug_string(), "Error(InvalidArgument(EmptyTaskDefList))");
}

#[test]
fn unexpected_status_error_carries_the_code() {
    let err = Error::new_unexpected_status(500);
    assert!(matches!(
        err.kind(),
        Kind::Server(Server::UnexpectedStatus(500))
    ));
    assert_eq!(
        err.display_string(),
        "Unexpected status code from server, status = 500"
    );
    assert_eq!(err.debug_string(), "Error(Server(UnexpectedStatus(500)))");
}
