//! The owner of a cancellation token source handle.
use vstd::prelude::*;
use crate::handles::CancellationTokenHandle;

verus! {

/// The handle value that stands for "no token"; the SDK is never asked to
/// cancel or free it.
pub const NO_TOKEN: isize = -1;

/// A cancellation token source created by the SDK.
pub struct CancellationToken {
    handle: CancellationTokenHandle,
}

impl CancellationToken {
    pub closed spec fn raw_handle(&self) -> isize {
        self.handle.0
    }

    /// Takes ownership of the handle that the SDK's create call returned; the
    /// SDK reports a failed creation with 0, which gives `None`.
    pub fn new(created: isize) -> (r: Option<Self>)
        ensures
            r is None <==> created == 0,
            r is Some ==> r->Some_0.raw_handle() == created,
    {
        if created == 0 {
            None
        } else {
            Some(CancellationToken { handle: CancellationTokenHandle(created) })
        }
    }

    /// The token's handle.
    pub fn handle(&self) -> (r: CancellationTokenHandle)
        ensures
            r.0 == self.raw_handle(),
    {
        self.handle
    }

    /// The raw handle to pass to the SDK's cancel call, or `None` for the
    /// "no token" marker, which is never cancelled.
    pub fn cancel(&self) -> (r: Option<isize>)
        ensures
            self.raw_handle() == NO_TOKEN ==> r is None,
            self.raw_handle() != NO_TOKEN ==> r == Some(self.raw_handle()),
    {
        if self.handle.0 == NO_TOKEN {
            None
        } else {
            Some(self.handle.0)
        }
    }

    /// Gives up the token; returns the raw handle to pass to the SDK's free
    /// call, or `None` for the "no token" marker, which is never freed.
    pub fn free(self) -> (r: Option<isize>)
        ensures
            self.raw_handle() == NO_TOKEN ==> r is None,
            self.raw_handle() != NO_TOKEN ==> r == Some(self.raw_handle()),
    {
        if self.handle.0 == NO_TOKEN {
            None
        } else {
            Some(self.handle.0)
        }
    }
}

} // verus!
