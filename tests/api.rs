use taskmaster::api::{ApiArg, ApiArgKind, ApiKind, ApiRequest, ApiRequestBuilder, RequestError};

#[test]
fn test_api_request_no_arg() {
    let req = ApiRequestBuilder::new(ApiKind::Version).build();
    let req_str = req.to_string();
    let parsed_req = ApiRequest::from_str(&req_str).unwrap();
    assert_eq!(req, parsed_req);
}

#[test]
fn test_api_request() {
    let req = ApiRequestBuilder::new(ApiKind::Version)
        .arg(ApiArgKind::Target, "appname".to_owned())
        .build();
    let req_str = req.to_string();
    let parsed_req = ApiRequest::from_str(&req_str).unwrap();
    assert_eq!(req, parsed_req);
}

fn all_kinds() -> Vec<ApiKind> {
    vec![
        ApiKind::DaemonLog,
        ApiKind::Log,
        ApiKind::Status,
        ApiKind::Kill,
        ApiKind::Foreground,
        ApiKind::Start,
        ApiKind::Restart,
        ApiKind::Shutdown,
        ApiKind::Version,
    ]
}

#[test]
fn round_trip_every_verb_with_and_without_arguments() {
    for kind in all_kinds() {
        let bare = ApiRequestBuilder::new(kind).build();
        assert_eq!(ApiRequest::from_str(&bare.to_string()).unwrap(), bare);
        let one = ApiRequestBuilder::new(kind)
            .arg(ApiArgKind::Target, "web".to_owned())
            .build();
        assert_eq!(ApiRequest::from_str(&one.to_string()).unwrap(), one);
        let two = ApiRequestBuilder::new(kind)
            .arg(ApiArgKind::Target, "a=b".to_owned())
            .arg(ApiArgKind::Target, String::new())
            .build();
        assert_eq!(ApiRequest::from_str(&two.to_string()).unwrap(), two);
    }
}

#[test]
fn request_text_format() {
    let req = ApiRequestBuilder::new(ApiKind::Kill)
        .arg(ApiArgKind::Target, "web".to_owned())
        .arg(ApiArgKind::Target, "db".to_owned())
        .build();
    assert_eq!(req.to_string(), "[kill]target=web,target=db");
    assert_eq!(ApiRequestBuilder::new(ApiKind::DaemonLog).build().to_string(), "[daemon_log]");
}

#[test]
fn decode_reads_arguments() {
    let req = ApiRequest::from_str("[foreground]target=echoer").unwrap();
    assert_eq!(*req.kind(), ApiKind::Foreground);
    assert_eq!(req.args().len(), 1);
    assert_eq!(*req.args()[0].kind(), ApiArgKind::Target);
    assert_eq!(req.args()[0].value(), "echoer");
    let empty_segments = ApiRequest::from_str("[status],,").unwrap();
    assert_eq!(*empty_segments.kind(), ApiKind::Status);
    assert_eq!(empty_segments.args().len(), 0);
}

#[test]
fn decode_errors() {
    assert_eq!(ApiRequest::from_str("xxx").unwrap_err(), RequestError::MissingBracket);
    assert_eq!(ApiRequest::from_str("").unwrap_err(), RequestError::MissingBracket);
    assert_eq!(ApiRequest::from_str("[status").unwrap_err(), RequestError::MissingBracket);
    assert_eq!(ApiRequest::from_str("[reboot]").unwrap_err(), RequestError::UnknownVerb);
    assert_eq!(ApiRequest::from_str("[kill]web").unwrap_err(), RequestError::MissingEqualSign);
    assert_eq!(ApiRequest::from_str("[kill]name=web").unwrap_err(), RequestError::UnknownArgument);
}

#[test]
fn verb_and_argument_names() {
    assert_eq!(ApiKind::from_str("daemon_log").unwrap(), ApiKind::DaemonLog);
    assert_eq!(ApiKind::from_str("nope").unwrap_err(), "nope");
    assert_eq!(ApiKind::Foreground.to_string(), "foreground");
    let arg = ApiArg::from_str("target=x=y").unwrap();
    assert_eq!(arg.value(), "x=y");
    assert_eq!(arg.to_string(), "target=x=y");
    assert_eq!(ApiArg::new(ApiArgKind::Target, "x=y".to_owned()), arg.duplicate());
}
