use lzc_sdk::service_status::{
    convert_status, distinct_service_names, status_or_unknown, status_query_error,
    status_query_error_for,
    LocalServiceStatus, UNIMPLEMENTED_CODE,
};
use lzc_sdk::{Error, ServiceState, ServiceStatus};
use tonic::{Code, Status};

#[test]
fn states_have_go_compatible_names() {
    assert_eq!(ServiceState::Unknown.as_str(), "unknown");
    assert_eq!(ServiceState::Available.as_str(), "available");
    assert_eq!(ServiceState::Unavailable.as_str(), "unavailable");
    assert_eq!(ServiceState::default(), ServiceState::Unknown);
}

#[test]
fn device_states_map_to_public_states_and_keep_reasons() {
    let available = convert_status(LocalServiceStatus {
        state: 1,
        reason: String::new(),
    });
    assert_eq!(available.state, ServiceState::Available);
    let unavailable = convert_status(LocalServiceStatus {
        state: 2,
        reason: "main client is not reachable".to_owned(),
    });
    assert_eq!(unavailable.state, ServiceState::Unavailable);
    assert_eq!(unavailable.reason, "main client is not reachable");
    for state in [0, 3, -1, 99] {
        let unknown = convert_status(LocalServiceStatus {
            state,
            reason: "r".to_owned(),
        });
        assert_eq!(unknown.state, ServiceState::Unknown);
        assert_eq!(unknown.reason, "r");
    }
    assert!(ServiceStatus::default() == ServiceStatus {
        state: ServiceState::Unknown,
        reason: String::new(),
    });
}

#[test]
fn duplicate_service_names_are_removed_in_first_seen_order() {
    let names = vec![
        "photo".to_owned(),
        "file".to_owned(),
        "photo".to_owned(),
        "missing.service".to_owned(),
        "file".to_owned(),
    ];
    assert_eq!(
        distinct_service_names(&names),
        vec!["photo".to_owned(), "file".to_owned(), "missing.service".to_owned()]
    );
    assert!(distinct_service_names(&Vec::new()).is_empty());
}

#[test]
fn unimplemented_service_status_has_typed_error() {
    assert!(matches!(
        status_query_error(Status::unimplemented("photo")),
        Error::ServiceStatusUnsupported
    ));
    assert_eq!(UNIMPLEMENTED_CODE, i32::from(Code::Unimplemented));
}

#[test]
fn other_status_codes_are_preserved() {
    match status_query_error(Status::unauthenticated("server rejects auth")) {
        Error::GrpcStatus(status) => assert_eq!(status.code(), Code::Unauthenticated),
        other => panic!("unexpected error: {other:?}"),
    }
    match status_query_error_for(Status::internal("boom"), 13) {
        Error::GrpcStatus(status) => assert_eq!(status.message(), "boom"),
        other => panic!("unexpected error: {other:?}"),
    }
    assert!(matches!(
        status_query_error_for(Status::internal("boom"), 12),
        Error::ServiceStatusUnsupported
    ));
}

#[test]
fn an_omitted_service_is_unknown() {
    let omitted = status_or_unknown(None);
    assert_eq!(omitted.state, ServiceState::Unknown);
    assert_eq!(omitted.reason, "");
    assert_eq!(omitted, ServiceStatus::default());
    let reported = ServiceStatus {
        state: ServiceState::Available,
        reason: "ready".to_owned(),
    };
    assert_eq!(status_or_unknown(Some(reported.clone())), reported);
}
