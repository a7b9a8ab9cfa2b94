use conductor::{InvalidArgument, Kind, MetadataClient, Server, TaskDef};

fn client_at(base: &str) -> MetadataClient {
    let mut c = MetadataClient::new();
    c.set_base_url(base.to_string());
    c
}

#[test]
fn given_single_task_def_then_return_no_content() {
    let c = client_at("http://127.0.0.1:1234");
    let task_defs = vec![TaskDef::new("get_spam".to_string())];
    let req = c
        .create_new_task_definitions_request(&task_defs)
        .expect("request");
    assert_eq!(req.method, "POST");
    assert_eq!(req.uri, "http://127.0.0.1:1234/metadata/taskdefs");
    assert!(req
        .headers
        .iter()
        .any(|h| h.0 == "accept" && h.1 == "application/json"));
    assert!(req
        .headers
        .iter()
        .any(|h| h.0 == "content-type" && h.1 == "application/json"));
    assert_eq!(req.body, "[{\"name\":\"get_spam\"}]");
    let res = c.create_new_task_definitions_response(204, &Vec::new());
    assert!(matches!(res, Ok(())));
}

#[test]
fn given_multiple_task_def_then_return_no_content() {
    let c = client_at("http://127.0.0.1:1234");
    let task_defs = vec![
        TaskDef::new("get_spam".to_string()),
        TaskDef::new("eat_spam".to_string()),
    ];
    let req = c
        .create_new_task_definitions_request(&task_defs)
        .expect("request");
    assert_eq!(req.method, "POST");
    assert_eq!(req.uri, "http://127.0.0.1:1234/metadata/taskdefs");
    assert!(req
        .headers
        .iter()
        .any(|h| h.0 == "accept" && h.1 == "application/json"));
    assert!(req
        .headers
        .iter()
        .any(|h| h.0 == "content-type" && h.1 == "application/json"));
    assert_eq!(req.body, "[{\"name\":\"get_spam\"},{\"name\":\"eat_spam\"}]");
    let res = c.create_new_task_definitions_response(204, &Vec::new());
    assert!(matches!(res, Ok(())));
}

#[test]
fn given_one_task_def_when_create_new_task_definitions_then_return_ok() {
    let c = client_at("http://127.0.0.1:1234");
    let task_defs = vec![TaskDef::new("eat_spam".to_string())];
    let req = c
        .create_new_task_definitions_request(&task_defs)
        .expect("request");
    assert_eq!(req.body, "[{\"name\":\"eat_spam\"}]");
    let res = c.create_new_task_definitions_response(204, &Vec::new());
    assert!(matches!(res, Ok(())));
}

#[test]
fn given_multiple_task_defs_when_create_new_task_definitions_then_return_ok() {
    let c = client_at("http://127.0.0.1:1234");
    let task_defs = vec![
        TaskDef::new("get_spam".to_string()),
        TaskDef::new("eat_spam".to_string()),
    ];
    let req = c
        .create_new_task_definitions_request(&task_defs)
        .expect("request");
    assert_eq!(req.body, "[{\"name\":\"get_spam\"},{\"name\":\"eat_spam\"}]");
    let res = c.create_new_task_definitions_response(204, &Vec::new());
    assert!(matches!(res, Ok(())));
}

#[test]
fn given_empty_task_def_vec_when_create_new_task_definitions_then_return_err() {
    let c = MetadataClient::new();
    let task_defs: Vec<TaskDef> = Vec::new();
    let err = c
        .create_new_task_definitions_request(&task_defs)
        .expect_err("empty list");
    assert!(matches!(
        err.kind(),
        Kind::InvalidArgument(InvalidArgument::EmptyTaskDefList)
    ));
}

#[test]
fn success_status_with_empty_body_is_ok() {
    let c = MetadataClient::new();
    assert!(matches!(
        c.create_new_task_definitions_response(204, &Vec::new()),
        Ok(())
    ));
    assert!(matches!(
        c.create_new_task_definitions_response(200, &Vec::new()),
        Ok(())
    ));
}

#[test]
fn success_status_with_unexpected_body_is_recoverable() {
    let c = MetadataClient::new();
    let body = "surprise".as_bytes().to_vec();
    let err = c
        .create_new_task_definitions_response(200, &body)
        .expect_err("unexpected body");
    assert!(matches!(
        err.kind(),
        Kind::Server(Server::UnexpectedStatus(200))
    ));
}

#[test]
fn client_error_with_structured_body_yields_error_response() {
    let c = MetadataClient::new();
    let body =
        "{\"status\": 400, \"message\": \"bad\", \"retryable\": false, \"validationErrors\": []}"
            .as_bytes()
            .to_vec();
    let err = c
        .create_new_task_definitions_response(400, &body)
        .expect_err("client error");
    assert!(matches!(err.kind(), Kind::Server(Server::ErrorResponse(_))));
    assert!(err.display_string().contains("bad"));
    assert_eq!(
        err.display_string(),
        "Server returned an error, error response = [code=\"None\", message=\"bad\", \
         instance=\"None\", retryable=\"false\", validation errors=\"[]\"]"
    );
}

#[test]
fn full_error_response_fields_are_kept() {
    let c = MetadataClient::new();
    let body = "{\"status\": 409, \"code\": \"CONFLICT\", \"message\": \"taken\", \
                \"instance\": \"host1\", \"retryable\": true, \"validationErrors\": \
                [{\"path\": \"name\", \"message\": \"dup\", \"invalid_value\": \"x\"}, \
                {\"path\": \"name2\", \"message\": \"dup2\", \"invalid_value\": null}]}"
        .as_bytes()
        .to_vec();
    let err = c
        .create_new_task_definitions_response(409, &body)
        .expect_err("conflict");
    let kind = err.kind();
    let er = match kind {
        Kind::Server(Server::ErrorResponse(er)) => er,
        _ => panic!("wrong kind"),
    };
    assert_eq!(er.status(), 409);
    assert_eq!(er.code().as_deref(), Some("CONFLICT"));
    assert_eq!(er.message(), "taken");
    assert_eq!(er.instance().as_deref(), Some("host1"));
    assert!(er.retryable());
    assert_eq!(er.validation_errors().len(), 2);
    assert_eq!(er.validation_errors()[0].path(), "name");
    assert_eq!(er.validation_errors()[1].invalid_value().as_deref(), None);
    assert_eq!(
        er.display_string(),
        "[code=\"Some(\"CONFLICT\")\", message=\"taken\", instance=\"Some(\"host1\")\", \
         retryable=\"true\", validation errors=\"[[path=\"name\", message=\"dup\", \
         invalid value=\"Some(\"x\")\"][path=\"name2\", message=\"dup2\", \
         invalid value=\"None\"]]\"]"
    );
}

#[test]
fn server_error_with_unparseable_body_yields_unexpected_status() {
    let c = MetadataClient::new();
    let body = "oops, not json".as_bytes().to_vec();
    let err = c
        .create_new_task_definitions_response(500, &body)
        .expect_err("server error");
    assert!(matches!(
        err.kind(),
        Kind::Server(Server::UnexpectedStatus(500))
    ));
}

#[test]
fn error_body_with_bad_status_field_yields_unexpected_status() {
    let c = MetadataClient::new();
    for bad in [
        "{\"status\": 70000, \"message\": \"m\", \"retryable\": false, \"validationErrors\": []}",
        "{\"status\": 400.0, \"message\": \"m\", \"retryable\": false, \"validationErrors\": []}",
        "{\"status\": -1, \"message\": \"m\", \"retryable\": false, \"validationErrors\": []}",
        "{\"message\": \"m\", \"retryable\": false, \"validationErrors\": []}",
    ] {
        let body = bad.as_bytes().to_vec();
        let err = c
            .create_new_task_definitions_response(500, &body)
            .expect_err("bad body");
        assert!(matches!(
            err.kind(),
            Kind::Server(Server::UnexpectedStatus(500))
        ));
    }
}

#[test]
fn redirection_status_is_classified_as_an_error() {
    let c = MetadataClient::new();
    let err = c
        .create_new_task_definitions_response(301, &Vec::new())
        .expect_err("redirect");
    assert!(matches!(
        err.kind(),
        Kind::Server(Server::UnexpectedStatus(301))
    ));
}

#[test]
fn invalid_base_url_fails_with_transport_error() {
    let c = client_at("ht tp://bad url");
    let task_defs = vec![TaskDef::new("get_spam".to_string())];
    let err = c
        .create_new_task_definitions_request(&task_defs)
        .expect_err("bad uri");
    assert!(matches!(err.kind(), Kind::Transport));
}

#[test]
fn set_base_url_only_affects_later_requests() {
    let mut c = client_at("http://one.test");
    let task_defs = vec![TaskDef::new("get_spam".to_string())];
    let early = c
        .create_new_task_definitions_request(&task_defs)
        .expect("request");
    c.set_base_url("http://two.test".to_string());
    assert_eq!(early.uri, "http://one.test/metadata/taskdefs");
    let late = c
        .create_new_task_definitions_request(&task_defs)
        .expect("request");
    assert_eq!(late.uri, "http://two.test/metadata/taskdefs");
}

#[test]
fn error_body_that_is_not_utf8_yields_unexpected_status() {
    let c = MetadataClient::new();
    let body = vec![0xffu8, 0xfe, 0x80];
    let err = c
        .create_new_task_definitions_response(400, &body)
        .expect_err("binary body");
    assert!(matches!(
        err.kind(),
        Kind::Server(Server::UnexpectedStatus(400))
    ));
}

#[test]
fn error_body_status_with_leading_zero_is_rejected() {
    let c = MetadataClient::new();
    let body =
        "{\"status\": 0400, \"message\": \"m\", \"retryable\": false, \"validationErrors\": []}"
            .as_bytes()
            .to_vec();
    let err = c
        .create_new_task_definitions_response(400, &body)
        .expect_err("leading zero");
    assert!(matches!(
        err.kind(),
        Kind::Server(Server::UnexpectedStatus(400))
    ));
}

#[test]
fn error_body_tolerates_whitespace_and_unknown_fields() {
    let c = MetadataClient::new();
    let body = " { \"extra\" : { \"deep\" : [ 1 , 2 ] } , \"status\" : 503 , \"message\" : \"down\" , \
                \"retryable\" : true , \"validationErrors\" : [ ] } "
        .as_bytes()
        .to_vec();
    let err = c
        .create_new_task_definitions_response(503, &body)
        .expect_err("server error");
    let er = match err.kind() {
        Kind::Server(Server::ErrorResponse(er)) => er,
        _ => panic!("wrong kind"),
    };
    assert_eq!(er.status(), 503);
    assert_eq!(er.message(), "down");
    assert!(er.retryable());
}

#[test]
fn boundary_statuses_are_classified_by_range() {
    let c = MetadataClient::new();
    assert!(c.create_new_task_definitions_response(299, &Vec::new()).is_ok());
    assert!(c.create_new_task_definitions_response(300, &Vec::new()).is_err());
    assert!(c.create_new_task_definitions_response(599, &Vec::new()).is_err());
    assert!(c.create_new_task_definitions_response(600, &Vec::new()).is_ok());
}
