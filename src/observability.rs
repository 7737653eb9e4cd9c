//! The telemetry service of a session, and its optional wrapper.
use vstd::prelude::*;
use crate::handles::{ObservabilityHandle, SessionHandle};

verus! {

/// Why the observability service could not be started or used.
#[derive(Debug)]
pub enum ObservabilityError {
    /// The SDK could not be reached; the message says why.
    SdkError(String),
    /// The SDK's start call returned this non-zero code.
    StartFailed(i32),
    /// A flush failed; the message says why.
    FlushFailed(String),
    /// A flush did not complete in time.
    FlushTimeout,
    /// The service handle is null.
    NullHandle,
    /// The session handle is null.
    InvalidSession,
}

/// The outcome of starting the service for `session`, where the SDK's start
/// call returned `code` and `handle`.
pub open spec fn start_outcome(session: SessionHandle, code: i32, handle: ObservabilityHandle) -> Option<ObservabilityError> {
    if session.0 == 0 {
        Some(ObservabilityError::InvalidSession)
    } else if code != 0 {
        Some(ObservabilityError::StartFailed(code))
    } else if handle.0 == 0 {
        Some(ObservabilityError::NullHandle)
    } else {
        None
    }
}

/// A running observability service.
pub struct ObservabilityService {
    handle: ObservabilityHandle,
    session: SessionHandle,
}

impl ObservabilityService {
    pub closed spec fn handle_spec(&self) -> ObservabilityHandle {
        self.handle
    }

    pub closed spec fn session_spec(&self) -> SessionHandle {
        self.session
    }

    /// Whether a session handle may be used to start the service; the SDK is
    /// not called for a null session.
    pub fn check_session(session: SessionHandle) -> (r: Result<(), ObservabilityError>)
        ensures
            r is Err <==> session.0 == 0,
            r is Err ==> r->Err_0 is InvalidSession,
    {
        if session.is_null() {
            Err(ObservabilityError::InvalidSession)
        } else {
            Ok(())
        }
    }

    /// The service started for `session`, given what the SDK's start call
    /// returned: a null session, a non-zero code and a null handle are
    /// errors, checked in that order.
    pub fn new(session: SessionHandle, code: i32, handle: ObservabilityHandle) -> (r: Result<Self, ObservabilityError>)
        ensures
            start_outcome(session, code, handle) is None <==> r is Ok,
            r is Ok ==> r->Ok_0.handle_spec() == handle && r->Ok_0.session_spec() == session,
            r is Err ==> match (r->Err_0, start_outcome(session, code, handle)) {
                (ObservabilityError::InvalidSession, Some(ObservabilityError::InvalidSession)) => true,
                (ObservabilityError::StartFailed(c), Some(ObservabilityError::StartFailed(d))) => c == d,
                (ObservabilityError::NullHandle, Some(ObservabilityError::NullHandle)) => true,
                _ => false,
            },
    {
        if session.is_null() {
            return Err(ObservabilityError::InvalidSession);
        }
        if code != 0 {
            return Err(ObservabilityError::StartFailed(code));
        }
        if handle.is_null() {
            return Err(ObservabilityError::NullHandle);
        }
        Ok(ObservabilityService { handle, session })
    }

    /// The service's handle.
    pub fn handle(&self) -> (r: ObservabilityHandle)
        ensures
            r == self.handle_spec(),
    {
        self.handle
    }

    /// Whether the service's handle is non-null.
    pub fn is_valid(&self) -> (r: bool)
        ensures
            r == (self.handle_spec().0 != 0),
    {
        !self.handle.is_null()
    }

    /// Gives up the service; returns the handle to pass to the SDK's free
    /// call, or `None` where the handle is null.
    pub fn free(self) -> (r: Option<ObservabilityHandle>)
        ensures
            self.handle_spec().0 == 0 ==> r is None,
            self.handle_spec().0 != 0 ==> r == Some(self.handle_spec()),
    {
        if self.handle.is_null() {
            None
        } else {
            Some(self.handle)
        }
    }
}

/// Collects what starting an observability service needs.
pub struct ObservabilityServiceBuilder {
    session: SessionHandle,
}

impl ObservabilityServiceBuilder {
    pub closed spec fn session_spec(&self) -> SessionHandle {
        self.session
    }

    /// A builder for the given session.
    pub fn new(session: SessionHandle) -> (r: Self)
        ensures
            r.session_spec() == session,
    {
        ObservabilityServiceBuilder { session }
    }

    /// The session the service is to be started for.
    pub fn session(&self) -> (r: SessionHandle)
        ensures
            r == self.session_spec(),
    {
        self.session
    }

    /// The service, given what the SDK's start call returned.
    pub fn build(self, code: i32, handle: ObservabilityHandle) -> (r: Result<ObservabilityService, ObservabilityError>)
        ensures
            start_outcome(self.session_spec(), code, handle) is None <==> r is Ok,
            r is Ok ==> r->Ok_0.handle_spec() == handle && r->Ok_0.session_spec() == self.session_spec(),
    {
        ObservabilityService::new(self.session, code, handle)
    }
}

/// Telemetry that may be switched off.
pub struct OptionalObservability(pub Option<ObservabilityService>);

impl OptionalObservability {
    /// Telemetry on, with the service started for `session`.
    pub fn enabled(session: SessionHandle, code: i32, handle: ObservabilityHandle) -> (r: Result<Self, ObservabilityError>)
        ensures
            start_outcome(session, code, handle) is None <==> r is Ok,
            r is Ok ==> r->Ok_0.0 is Some && r->Ok_0.0->Some_0.handle_spec() == handle,
    {
        match ObservabilityService::new(session, code, handle) {
            Ok(s) => Ok(OptionalObservability(Some(s))),
            Err(e) => Err(e),
        }
    }

    /// Telemetry off.
    pub fn disabled() -> (r: Self)
        ensures
            r.0 is None,
    {
        OptionalObservability(None)
    }

    /// The service's handle, or the null handle when telemetry is off.
    pub fn handle(&self) -> (r: ObservabilityHandle)
        ensures
            self.0 is None ==> r.0 == 0,
            self.0 is Some ==> r == self.0->Some_0.handle_spec(),
    {
        match &self.0 {
            Some(obs) => obs.handle(),
            None => ObservabilityHandle::null(),
        }
    }

    /// Whether telemetry is on with a non-null service handle.
    pub fn is_enabled(&self) -> (r: bool)
        ensures
            r == (self.0 is Some && self.0->Some_0.handle_spec().0 != 0),
    {
        match &self.0 {
            Some(obs) => obs.is_valid(),
            None => false,
        }
    }
}

} // verus!
