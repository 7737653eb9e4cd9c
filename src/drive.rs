//! An account session and the drive client opened on it.
use vstd::prelude::*;
use crate::cancellation::CancellationToken;
use crate::handles::{DriveClientHandle, ObservabilityHandle, SessionHandle};
use crate::session::SessionError;

verus! {

/// Why a drive client operation failed.
#[derive(Debug)]
pub enum DriveError {
    /// The SDK could not be reached; the message says why.
    SdkError(String),
    /// A request could not be encoded or a response decoded.
    ProtobufError(String),
    /// Listing volumes failed; the message says why.
    VolumeError(String),
    /// Listing shares failed; the message says why.
    ShareError(String),
    /// Listing a folder failed; the message says why.
    NodeError(String),
    /// The SDK answered with no bytes.
    EmptyByteArray,
    /// The SDK's create call returned this non-zero code.
    CreationFailed(i32),
    /// The named operation returned this non-zero code.
    OperationFailed { operation: String, code: i32 },
    /// The named operation failed without a code.
    OperationFailedWithoutCode { operation: String },
    /// The drive client handle is null.
    NullHandle,
    /// The session handle is null.
    InvalidSession,
}

/// An account session: its handle and the cancellation token of its
/// operations.
pub struct Session {
    handle: SessionHandle,
    cancellation_token: CancellationToken,
}

impl Session {
    pub closed spec fn handle_spec(&self) -> SessionHandle {
        self.handle
    }

    /// The session begun with `handle`, whose operations `cancellation_token`
    /// cancels.
    pub fn new(handle: SessionHandle, cancellation_token: CancellationToken) -> (r: Self)
        ensures
            r.handle_spec() == handle,
    {
        Session { handle, cancellation_token }
    }

    /// The session's handle.
    pub fn handle(&self) -> (r: SessionHandle)
        ensures
            r == self.handle_spec(),
    {
        self.handle
    }

    /// Whether the session's handle is non-null.
    pub fn is_valid(&self) -> (r: bool)
        ensures
            r == (self.handle_spec().0 != 0),
    {
        !self.handle.is_null()
    }

    /// The token that cancels the session's operations.
    pub fn cancellation_token(&self) -> &CancellationToken {
        &self.cancellation_token
    }

    /// Whether the session may call the SDK: a null handle is an error.
    pub fn check_handle(&self) -> (r: Result<(), SessionError>)
        ensures
            r is Err <==> self.handle_spec().0 == 0,
            r is Err ==> r->Err_0 is NullHandle,
    {
        if self.handle.is_null() {
            Err(SessionError::NullHandle)
        } else {
            Ok(())
        }
    }

    /// The outcome of a session operation whose SDK call returned `code`:
    /// any non-zero code is a failure carrying it.
    pub fn operation_outcome(code: i32) -> (r: Result<(), SessionError>)
        ensures
            r is Ok <==> code == 0,
            r is Err ==> match r->Err_0 {
                SessionError::OperationFailed(c) => c == code,
                _ => false,
            },
    {
        if code != 0 {
            Err(SessionError::OperationFailed(code))
        } else {
            Ok(())
        }
    }
}

/// What the SDK needs to create a drive client.
pub struct ProtonDriveClientCreateRequest {
    pub client_id: Option<String>,
}

/// The outcome of creating a client for a session with handle `session`,
/// where the SDK's create call returned `code` and `handle`.
pub open spec fn creation_outcome(session: SessionHandle, code: i32, handle: DriveClientHandle) -> Option<DriveError> {
    if session.0 == 0 {
        Some(DriveError::InvalidSession)
    } else if code != 0 {
        Some(DriveError::CreationFailed(code))
    } else if handle.0 == 0 {
        Some(DriveError::NullHandle)
    } else {
        None
    }
}

/// A drive client bound to its session.
pub struct DriveClient {
    handle: DriveClientHandle,
    session: Session,
}

impl DriveClient {
    pub closed spec fn handle_spec(&self) -> DriveClientHandle {
        self.handle
    }

    pub closed spec fn session_spec(&self) -> SessionHandle {
        self.session.handle
    }

    /// The client created for `session`, given what the SDK's create call
    /// returned: a null session, a non-zero code and a null handle are
    /// errors, checked in that order.
    pub fn new(session: Session, code: i32, handle: DriveClientHandle) -> (r: Result<Self, DriveError>)
        ensures
            creation_outcome(session.handle_spec(), code, handle) is None <==> r is Ok,
            r is Ok ==> r->Ok_0.handle_spec() == handle && r->Ok_0.session_spec() == session.handle_spec(),
            r is Err ==> match (r->Err_0, creation_outcome(session.handle_spec(), code, handle)) {
                (DriveError::InvalidSession, Some(DriveError::InvalidSession)) => true,
                (DriveError::CreationFailed(c), Some(DriveError::CreationFailed(d))) => c == d,
                (DriveError::NullHandle, Some(DriveError::NullHandle)) => true,
                _ => false,
            },
    {
        if session.handle.is_null() {
            return Err(DriveError::InvalidSession);
        }
        if code != 0 {
            return Err(DriveError::CreationFailed(code));
        }
        if handle.is_null() {
            return Err(DriveError::NullHandle);
        }
        Ok(DriveClient { handle, session })
    }

    /// The client's handle.
    pub fn handle(&self) -> (r: DriveClientHandle)
        ensures
            r == self.handle_spec(),
    {
        self.handle
    }

    /// Whether the client's handle is non-null.
    pub fn is_valid(&self) -> (r: bool)
        ensures
            r == (self.handle_spec().0 != 0),
    {
        !self.handle.is_null()
    }

    /// The session the client runs on.
    pub fn session(&self) -> (r: &Session)
        ensures
            r.handle_spec() == self.session_spec(),
    {
        &self.session
    }

    /// Whether the client may call the SDK: a null handle is an error.
    pub fn check_handle(&self) -> (r: Result<(), DriveError>)
        ensures
            r is Err <==> self.handle_spec().0 == 0,
            r is Err ==> r->Err_0 is NullHandle,
    {
        if self.handle.is_null() {
            Err(DriveError::NullHandle)
        } else {
            Ok(())
        }
    }

    /// The outcome of the named operation whose SDK call returned `code`:
    /// any non-zero code is a failure carrying the name and the code.
    pub fn operation_outcome(operation: &str, code: i32) -> (r: Result<(), DriveError>)
        ensures
            r is Ok <==> code == 0,
            r is Err ==> match r->Err_0 {
                DriveError::OperationFailed { operation: o, code: c } => o@ == operation@ && c == code,
                _ => false,
            },
    {
        if code != 0 {
            Err(DriveError::OperationFailed { operation: operation.to_owned(), code })
        } else {
            Ok(())
        }
    }

    /// Gives up the client; returns the handle to pass to the SDK's free
    /// call, or `None` where the handle is null.
    pub fn free(self) -> (r: Option<DriveClientHandle>)
        ensures
            self.handle_spec().0 == 0 ==> r is None,
            self.handle_spec().0 != 0 ==> r == Some(self.handle_spec()),
    {
        if self.handle.is_null() {
            None
        } else {
            Some(self.handle)
        }
    }
}

/// Collects what creating a drive client needs.
pub struct DriveClientBuilder {
    pub session: Session,
    pub observability: ObservabilityHandle,
    pub request: ProtonDriveClientCreateRequest,
}

impl DriveClientBuilder {
    /// A builder for `session`, without telemetry and with an empty request.
    pub fn new(session: Session) -> (r: Self)
        ensures
            r.session.handle_spec() == session.handle_spec(),
            r.observability.0 == 0,
            r.request.client_id is None,
    {
        DriveClientBuilder {
            session,
            observability: ObservabilityHandle::null(),
            request: ProtonDriveClientCreateRequest { client_id: None },
        }
    }

    /// The same builder reporting telemetry to `observability`.
    pub fn with_observability(self, observability: ObservabilityHandle) -> (r: Self)
        ensures
            r.observability == observability,
            r.session.handle_spec() == self.session.handle_spec(),
            r.request == self.request,
    {
        DriveClientBuilder { observability, ..self }
    }

    /// The same builder with the given creation request.
    pub fn with_request(self, request: ProtonDriveClientCreateRequest) -> (r: Self)
        ensures
            r.request == request,
            r.session.handle_spec() == self.session.handle_spec(),
            r.observability == self.observability,
    {
        DriveClientBuilder { request, ..self }
    }
}

} // verus!
