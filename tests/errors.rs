use nsswitch_service::{Error, ErrorParts, HostError, NssStatus, Report, NETDB_INTERNAL};

#[test]
fn status_codes() {
    assert_eq!(NssStatus::TryAgain.code(), -2);
    assert_eq!(NssStatus::Unavailable.code(), -1);
    assert_eq!(NssStatus::NotFound.code(), 0);
    assert_eq!(NssStatus::Success.code(), 1);
}

#[test]
fn host_error_codes() {
    assert_eq!(HostError::HostNotFound.code(), 1);
    assert_eq!(HostError::TryAgain.code(), 2);
    assert_eq!(HostError::NoRecovery.code(), 3);
    assert_eq!(HostError::NoData.code(), 4);
}

#[test]
fn success_is_never_an_error() {
    assert!(Error::try_new(NssStatus::Success, 5, NETDB_INTERNAL).is_none());
    assert!(Error::try_new(NssStatus::Success, 0, 1).is_none());
}

#[test]
fn malformed_errors_are_refused() {
    // "no problem" secondary code
    assert!(Error::try_new(NssStatus::NotFound, 5, 0).is_none());
    // deferring to an empty primary code
    assert!(Error::try_new(NssStatus::NotFound, 0, NETDB_INTERNAL).is_none());
    // the pairing reserved for an exhausted buffer
    assert!(Error::try_new(NssStatus::TryAgain, 34, NETDB_INTERNAL).is_none());
    assert!(Error::try_new(NssStatus::TryAgain, 34, 2).is_none());

    let e = Error::try_new(NssStatus::TryAgain, 11, NETDB_INTERNAL).unwrap();
    assert_eq!(e.parts(), ErrorParts { status: NssStatus::TryAgain, errno: 11, h_errno: -1 });
    let e = Error::try_new(NssStatus::NotFound, 0, 4).unwrap();
    assert_eq!(e.status(), NssStatus::NotFound);
}

#[test]
fn report_writes_primary_only_when_deferred() {
    let e = Error::with_host(NssStatus::TryAgain, 11, HostError::TryAgain);
    assert_eq!(e.report_with_host(), Report { status: NssStatus::TryAgain, errno: None, h_errno: 2 });
    let e = Error::with_errno(NssStatus::Unavailable, 13);
    assert_eq!(e.report_with_host(), Report { status: NssStatus::Unavailable, errno: Some(13), h_errno: -1 });
}

#[test]
fn internal_errors() {
    assert_eq!(
        Error::buffer_too_small().parts(),
        ErrorParts { status: NssStatus::TryAgain, errno: 34, h_errno: -1 }
    );
    assert_eq!(
        Error::invalid_args().parts(),
        ErrorParts { status: NssStatus::Unavailable, errno: 22, h_errno: -1 }
    );
}
