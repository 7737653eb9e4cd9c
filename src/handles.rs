//! Integer handles that the SDK hands out for the objects it owns.
//!
//! The value 0 marks a null (invalid) handle; a cancellation token also knows
//! the value -1, which stands for "no token".
use vstd::prelude::*;

verus! {

/// Handle of a cancellation token source.
#[derive(Debug, Clone, Copy, PartialEq, Eq, Structural)]
pub struct CancellationTokenHandle(pub isize);

impl CancellationTokenHandle {
    /// The null (invalid) handle.
    pub fn null() -> (r: Self)
        ensures
            r.0 == 0,
    {
        CancellationTokenHandle(0)
    }

    /// Whether the handle is null.
    pub fn is_null(&self) -> (r: bool)
        ensures
            r == (self.0 == 0),
    {
        self.0 == 0
    }

    /// The raw value passed across the SDK boundary.
    pub fn raw(&self) -> (r: isize)
        ensures
            r == self.0,
    {
        self.0
    }

    /// Whether the handle is the "no token" marker, -1.
    pub fn is_none(&self) -> (r: bool)
        ensures
            r == (self.0 == -1),
    {
        self.0 == -1
    }
}

impl From<isize> for CancellationTokenHandle {
    fn from(handle: isize) -> (r: Self)
        ensures
            r.0 == handle,
    {
        CancellationTokenHandle(handle)
    }
}

impl vstd::std_specs::convert::FromSpecImpl<isize> for CancellationTokenHandle {
    open spec fn obeys_from_spec() -> bool {
        true
    }

    open spec fn from_spec(v: isize) -> Self {
        CancellationTokenHandle(v)
    }
}

/// Handle of a file downloader.
#[derive(Debug, Clone, Copy, PartialEq, Eq, Structural)]
pub struct DownloaderHandle(pub isize);

impl DownloaderHandle {
    /// The null (invalid) handle.
    pub fn null() -> (r: Self)
        ensures
            r.0 == 0,
    {
        DownloaderHandle(0)
    }

    /// Whether the handle is null.
    pub fn is_null(&self) -> (r: bool)
        ensures
            r == (self.0 == 0),
    {
        self.0 == 0
    }

    /// The raw value passed across the SDK boundary.
    pub fn raw(&self) -> (r: isize)
        ensures
            r == self.0,
    {
        self.0
    }
}

impl From<isize> for DownloaderHandle {
    fn from(handle: isize) -> (r: Self)
        ensures
            r.0 == handle,
    {
        DownloaderHandle(handle)
    }
}

impl vstd::std_specs::convert::FromSpecImpl<isize> for DownloaderHandle {
    open spec fn obeys_from_spec() -> bool {
        true
    }

    open spec fn from_spec(v: isize) -> Self {
        DownloaderHandle(v)
    }
}

/// Handle of a drive client.
#[derive(Debug, Clone, Copy, PartialEq, Eq, Structural)]
pub struct DriveClientHandle(pub isize);

impl DriveClientHandle {
    /// The null (invalid) handle.
    pub fn null() -> (r: Self)
        ensures
            r.0 == 0,
    {
        DriveClientHandle(0)
    }

    /// Whether the handle is null.
    pub fn is_null(&self) -> (r: bool)
        ensures
            r == (self.0 == 0),
    {
        self.0 == 0
    }

    /// The raw value passed across the SDK boundary.
    pub fn raw(&self) -> (r: isize)
        ensures
            r == self.0,
    {
        self.0
    }
}

impl From<isize> for DriveClientHandle {
    fn from(handle: isize) -> (r: Self)
        ensures
            r.0 == handle,
    {
        DriveClientHandle(handle)
    }
}

impl vstd::std_specs::convert::FromSpecImpl<isize> for DriveClientHandle {
    open spec fn obeys_from_spec() -> bool {
        true
    }

    open spec fn from_spec(v: isize) -> Self {
        DriveClientHandle(v)
    }
}

/// Handle of a logger provider.
#[derive(Debug, Clone, Copy, PartialEq, Eq, Structural)]
pub struct LoggerProviderHandle(pub isize);

impl LoggerProviderHandle {
    /// The null (invalid) handle.
    pub fn null() -> (r: Self)
        ensures
            r.0 == 0,
    {
        LoggerProviderHandle(0)
    }

    /// Whether the handle is null.
    pub fn is_null(&self) -> (r: bool)
        ensures
            r == (self.0 == 0),
    {
        self.0 == 0
    }

    /// The raw value passed across the SDK boundary.
    pub fn raw(&self) -> (r: isize)
        ensures
            r == self.0,
    {
        self.0
    }
}

impl From<isize> for LoggerProviderHandle {
    fn from(handle: isize) -> (r: Self)
        ensures
            r.0 == handle,
    {
        LoggerProviderHandle(handle)
    }
}

impl vstd::std_specs::convert::FromSpecImpl<isize> for LoggerProviderHandle {
    open spec fn obeys_from_spec() -> bool {
        true
    }

    open spec fn from_spec(v: isize) -> Self {
        LoggerProviderHandle(v)
    }
}

/// Handle of an observability (telemetry) service.
#[derive(Debug, Clone, Copy, PartialEq, Eq, Structural)]
pub struct ObservabilityHandle(pub isize);

impl ObservabilityHandle {
    /// The null (invalid) handle.
    pub fn null() -> (r: Self)
        ensures
            r.0 == 0,
    {
        ObservabilityHandle(0)
    }

    /// Whether the handle is null.
    pub fn is_null(&self) -> (r: bool)
        ensures
            r == (self.0 == 0),
    {
        self.0 == 0
    }

    /// The raw value passed across the SDK boundary.
    pub fn raw(&self) -> (r: isize)
        ensures
            r == self.0,
    {
        self.0
    }
}

impl From<isize> for ObservabilityHandle {
    fn from(handle: isize) -> (r: Self)
        ensures
            r.0 == handle,
    {
        ObservabilityHandle(handle)
    }
}

impl vstd::std_specs::convert::FromSpecImpl<isize> for ObservabilityHandle {
    open spec fn obeys_from_spec() -> bool {
        true
    }

    open spec fn from_spec(v: isize) -> Self {
        ObservabilityHandle(v)
    }
}

/// Handle of an account session.
#[derive(Debug, Clone, Copy, PartialEq, Eq, Structural)]
pub struct SessionHandle(pub isize);

impl SessionHandle {
    /// The null (invalid) handle.
    pub fn null() -> (r: Self)
        ensures
            r.0 == 0,
    {
        SessionHandle(0)
    }

    /// Whether the handle is null.
    pub fn is_null(&self) -> (r: bool)
        ensures
            r == (self.0 == 0),
    {
        self.0 == 0
    }

    /// The raw value passed across the SDK boundary.
    pub fn raw(&self) -> (r: isize)
        ensures
            r == self.0,
    {
        self.0
    }
}

impl From<isize> for SessionHandle {
    fn from(handle: isize) -> (r: Self)
        ensures
            r.0 == handle,
    {
        SessionHandle(handle)
    }
}

impl vstd::std_specs::convert::FromSpecImpl<isize> for SessionHandle {
    open spec fn obeys_from_spec() -> bool {
        true
    }

    open spec fn from_spec(v: isize) -> Self {
        SessionHandle(v)
    }
}

/// Handle of a file uploader.
#[derive(Debug, Clone, Copy, PartialEq, Eq, Structural)]
pub struct UploaderHandle(pub isize);

impl UploaderHandle {
    /// The null (invalid) handle.
    pub fn null() -> (r: Self)
        ensures
            r.0 == 0,
    {
        UploaderHandle(0)
    }

    /// Whether the handle is null.
    pub fn is_null(&self) -> (r: bool)
        ensures
            r == (self.0 == 0),
    {
        self.0 == 0
    }

    /// The raw value passed across the SDK boundary.
    pub fn raw(&self) -> (r: isize)
        ensures
            r == self.0,
    {
        self.0
    }
}

impl From<isize> for UploaderHandle {
    fn from(handle: isize) -> (r: Self)
        ensures
            r.0 == handle,
    {
        UploaderHandle(handle)
    }
}

impl vstd::std_specs::convert::FromSpecImpl<isize> for UploaderHandle {
    open spec fn obeys_from_spec() -> bool {
        true
    }

    open spec fn from_spec(v: isize) -> Self {
        UploaderHandle(v)
    }
}

} // verus!
