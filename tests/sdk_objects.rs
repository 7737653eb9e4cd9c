use proton_drive::cancellation::CancellationToken;
use proton_drive::drive::{DriveClient, DriveClientBuilder, DriveError, ProtonDriveClientCreateRequest, Session};
use proton_drive::handles::{
    CancellationTokenHandle, DownloaderHandle, DriveClientHandle, LoggerProviderHandle,
    ObservabilityHandle, SessionHandle, UploaderHandle,
};
use proton_drive::observability::{
    ObservabilityError, ObservabilityService, ObservabilityServiceBuilder, OptionalObservability,
};
use proton_drive::protobuf::ProtoBuffer;
use proton_drive::session::{ProtonClientOptions, SessionBuilder, SessionError, SessionPlatform};
use proton_drive::transfer::{
    handle_from_creation_response, DownloadError, Downloader, DownloaderBuilder, FileUploaderCreationRequest,
    UploadError, Uploader,
    UploaderBuilder,
};

#[test]
fn handles_know_null_and_raw() {
    assert!(SessionHandle::null().is_null());
    assert_eq!(SessionHandle::from(42).raw(), 42);
    assert!(!DriveClientHandle(7).is_null());
    assert_eq!(DownloaderHandle::null().raw(), 0);
    assert!(UploaderHandle::from(0).is_null());
    assert!(LoggerProviderHandle::null().is_null());
    assert_eq!(ObservabilityHandle::from(-3).raw(), -3);
    assert!(CancellationTokenHandle(-1).is_none());
    assert!(!CancellationTokenHandle(0).is_none());
    assert!(CancellationTokenHandle::null().is_null());
}

#[test]
fn cancellation_token_skips_the_no_token_marker() {
    assert!(CancellationToken::new(0).is_none());
    let t = CancellationToken::new(9).unwrap();
    assert_eq!(t.handle().raw(), 9);
    assert_eq!(t.cancel(), Some(9));
    assert_eq!(t.free(), Some(9));
    let none = CancellationToken::new(-1).unwrap();
    assert_eq!(none.cancel(), None);
    assert_eq!(none.free(), None);
}

#[test]
fn observability_start_checks_in_order() {
    assert!(matches!(
        ObservabilityService::new(SessionHandle(0), 5, ObservabilityHandle(0)),
        Err(ObservabilityError::InvalidSession)
    ));
    assert!(matches!(
        ObservabilityService::new(SessionHandle(1), 5, ObservabilityHandle(0)),
        Err(ObservabilityError::StartFailed(5))
    ));
    assert!(matches!(
        ObservabilityService::new(SessionHandle(1), 0, ObservabilityHandle(0)),
        Err(ObservabilityError::NullHandle)
    ));
    let obs = ObservabilityService::new(SessionHandle(1), 0, ObservabilityHandle(8)).unwrap();
    assert_eq!(obs.handle().raw(), 8);
    assert!(obs.is_valid());
    assert_eq!(obs.free(), Some(ObservabilityHandle(8)));
    assert!(ObservabilityService::check_session(SessionHandle(0)).is_err());
}

#[test]
fn observability_builder_and_optional_wrapper() {
    let b = ObservabilityServiceBuilder::new(SessionHandle(3));
    assert_eq!(b.session(), SessionHandle(3));
    assert!(b.build(0, ObservabilityHandle(4)).is_ok());
    let off = OptionalObservability::disabled();
    assert!(off.handle().is_null());
    assert!(!off.is_enabled());
    let on = OptionalObservability::enabled(SessionHandle(3), 0, ObservabilityHandle(4)).unwrap();
    assert_eq!(on.handle(), ObservabilityHandle(4));
    assert!(on.is_enabled());
    assert!(OptionalObservability::enabled(SessionHandle(3), 1, ObservabilityHandle(4)).is_err());
}

#[test]
fn downloader_requires_client_and_handle() {
    assert!(matches!(
        Downloader::from_created(DriveClientHandle(0), DownloaderHandle(5)),
        Err(DownloadError::InvalidClient)
    ));
    assert!(matches!(
        Downloader::from_created(DriveClientHandle(1), DownloaderHandle(0)),
        Err(DownloadError::NullHandle)
    ));
    let d = Downloader::from_created(DriveClientHandle(1), DownloaderHandle(5)).unwrap();
    assert!(d.is_valid());
    assert_eq!(d.handle(), DownloaderHandle(5));
    assert_eq!(d.free(), Some(DownloaderHandle(5)));
    assert_eq!(DownloaderBuilder::new(DriveClientHandle(2)).client(), DriveClientHandle(2));
    assert!(Downloader::check_client(DriveClientHandle(0)).is_err());
}

#[test]
fn uploader_builder_takes_request() {
    let b = UploaderBuilder::new(DriveClientHandle(1), CancellationTokenHandle(2));
    assert_eq!(b.request, FileUploaderCreationRequest { file_size: 0, number_of_samples: 0 });
    let req = FileUploaderCreationRequest { file_size: 1024, number_of_samples: 1 };
    let b = b.with_request(req);
    assert_eq!(b.request.file_size, 1024);
    assert_eq!(b.client, DriveClientHandle(1));
    assert!(matches!(
        Uploader::from_created(b.client, b.token, UploaderHandle(0)),
        Err(UploadError::NullHandle)
    ));
    let u = Uploader::from_created(b.client, b.token, UploaderHandle(6)).unwrap();
    assert_eq!(u.handle(), UploaderHandle(6));
}

#[test]
fn session_builder_announces_app_version() {
    let b = SessionBuilder::new("user@example.com".to_string(), "pw".to_string())
        .with_app_version(SessionPlatform::Linux, "sync", "1.2.3");
    assert_eq!(b.request.options.as_ref().unwrap().app_version, "external-drive-sync_linux@1.2.3");
    assert_eq!(b.request.username, "user@example.com");
    let b = b.with_rclone_app_version_spoof();
    assert_eq!(
        b.request.options.as_ref().unwrap().app_version,
        "macos-drive@1.0.0-alpha.1+proton-sdk-sys"
    );
    let b = b.with_options(ProtonClientOptions { app_version: "x".to_string() });
    assert_eq!(b.request.options.as_ref().unwrap().app_version, "x");
    assert_eq!(SessionPlatform::macOS.to_string(), "macos");
    assert_eq!(SessionPlatform::iOS.as_str(), "ios");
}

#[test]
fn proto_buffer_reports_its_bytes() {
    let p = ProtoBuffer::new(vec![1, 2, 3]);
    assert_eq!(p.len(), 3);
    assert!(!p.is_empty());
    assert_eq!(p.as_bytes(), &[1, 2, 3]);
    assert!(ProtoBuffer::new(vec![]).is_empty());
}

#[test]
fn creation_response_is_read_little_endian() {
    assert_eq!(handle_from_creation_response(&[5, 0, 0, 0, 0, 0, 0, 0]), DownloaderHandle(5));
    assert_eq!(handle_from_creation_response(&[0x01, 0x02, 0, 0, 0, 0, 0, 0, 0x7f]), DownloaderHandle(0x0201));
    assert_eq!(handle_from_creation_response(&[0xff; 8]), DownloaderHandle(-1));
    assert_eq!(handle_from_creation_response(&[0, 0, 0, 0, 0, 0, 0, 0x80]), DownloaderHandle(isize::MIN));
    assert_eq!(handle_from_creation_response(&[9, 9]), DownloaderHandle(1));
    assert_eq!(handle_from_creation_response(&[]), DownloaderHandle(1));
}

fn session(handle: isize) -> Session {
    Session::new(SessionHandle(handle), CancellationToken::new(7).unwrap())
}

#[test]
fn drive_client_creation_checks_in_order() {
    assert!(matches!(DriveClient::new(session(0), 3, DriveClientHandle(1)), Err(DriveError::InvalidSession)));
    assert!(matches!(DriveClient::new(session(1), 3, DriveClientHandle(1)), Err(DriveError::CreationFailed(3))));
    assert!(matches!(DriveClient::new(session(1), 0, DriveClientHandle(0)), Err(DriveError::NullHandle)));
    let client = DriveClient::new(session(1), 0, DriveClientHandle(12)).unwrap();
    assert_eq!(client.handle(), DriveClientHandle(12));
    assert!(client.is_valid());
    assert_eq!(client.session().handle(), SessionHandle(1));
    assert_eq!(client.session().cancellation_token().handle().raw(), 7);
    assert!(client.check_handle().is_ok());
    assert_eq!(client.free(), Some(DriveClientHandle(12)));
}

#[test]
fn operation_codes_map_to_errors() {
    assert!(DriveClient::operation_outcome("register_node_keys", 0).is_ok());
    match DriveClient::operation_outcome("register_node_keys", 4) {
        Err(DriveError::OperationFailed { operation, code }) => {
            assert_eq!(operation, "register_node_keys");
            assert_eq!(code, 4);
        }
        _ => panic!("expected an operation failure"),
    }
    assert!(matches!(Session::operation_outcome(2), Err(SessionError::OperationFailed(2))));
    assert!(Session::operation_outcome(0).is_ok());
    assert!(matches!(session(0).check_handle(), Err(SessionError::NullHandle)));
    assert!(session(5).is_valid());
}

#[test]
fn drive_client_builder_collects_settings() {
    let b = DriveClientBuilder::new(session(1));
    assert!(b.observability.is_null());
    assert!(b.request.client_id.is_none());
    let b = b
        .with_observability(ObservabilityHandle(9))
        .with_request(ProtonDriveClientCreateRequest { client_id: Some("proton-sdk-rs".to_string()) });
    assert_eq!(b.observability, ObservabilityHandle(9));
    assert_eq!(b.request.client_id.as_deref(), Some("proton-sdk-rs"));
    assert_eq!(b.session.handle(), SessionHandle(1));
}
