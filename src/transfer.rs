//! Downloaders and uploaders of a drive client.
use vstd::prelude::*;
use crate::handles::{CancellationTokenHandle, DownloaderHandle, DriveClientHandle, UploaderHandle};

verus! {

/// Why a downloader could not be created or used.
#[derive(Debug)]
pub enum DownloadError {
    /// The SDK could not be reached; the message says why.
    SdkError(String),
    /// A request could not be encoded or a response decoded.
    ProtobufError(String),
    /// The SDK refused to create the downloader; the message says why.
    CreationFailed(String),
    /// A download failed; the message says why.
    DownloadFailed(String),
    /// Creating the downloader did not complete in time.
    CreationTimeout,
    /// A download did not complete in time.
    DownloadTimeout,
    /// The downloader handle is null.
    NullHandle,
    /// The drive client handle is null.
    InvalidClient,
}

/// A downloader bound to a drive client.
pub struct Downloader {
    handle: DownloaderHandle,
    client: DriveClientHandle,
}

impl Downloader {
    pub closed spec fn handle_spec(&self) -> DownloaderHandle {
        self.handle
    }

    pub closed spec fn client_spec(&self) -> DriveClientHandle {
        self.client
    }

    /// Whether a client handle may be used to create a downloader; the SDK is
    /// not called for a null client.
    pub fn check_client(client: DriveClientHandle) -> (r: Result<(), DownloadError>)
        ensures
            r is Err <==> client.0 == 0,
            r is Err ==> r->Err_0 is InvalidClient,
    {
        if client.is_null() {
            Err(DownloadError::InvalidClient)
        } else {
            Ok(())
        }
    }

    /// The downloader for `client`, given the handle that the SDK's creation
    /// completed with: a null client or a null handle is an error.
    pub fn from_created(client: DriveClientHandle, handle: DownloaderHandle) -> (r: Result<Self, DownloadError>)
        ensures
            r is Ok <==> client.0 != 0 && handle.0 != 0,
            client.0 == 0 ==> r is Err && r->Err_0 is InvalidClient,
            client.0 != 0 && handle.0 == 0 ==> r is Err && r->Err_0 is NullHandle,
            r is Ok ==> r->Ok_0.handle_spec() == handle && r->Ok_0.client_spec() == client,
    {
        if client.is_null() {
            return Err(DownloadError::InvalidClient);
        }
        if handle.is_null() {
            return Err(DownloadError::NullHandle);
        }
        Ok(Downloader { handle, client })
    }

    /// The downloader's handle.
    pub fn handle(&self) -> (r: DownloaderHandle)
        ensures
            r == self.handle_spec(),
    {
        self.handle
    }

    /// Whether the downloader's handle is non-null.
    pub fn is_valid(&self) -> (r: bool)
        ensures
            r == (self.handle_spec().0 != 0),
    {
        !self.handle.is_null()
    }

    /// Gives up the downloader; returns the handle to pass to the SDK's free
    /// call, or `None` where the handle is null.
    pub fn free(self) -> (r: Option<DownloaderHandle>)
        ensures
            self.handle_spec().0 == 0 ==> r is None,
            self.handle_spec().0 != 0 ==> r == Some(self.handle_spec()),
    {
        if self.handle.is_null() {
            None
        } else {
            Some(self.handle)
        }
    }
}

/// The signed value of a 64-bit two's-complement bit pattern.
pub open spec fn signed64(u: int) -> int {
    if u >= 0x8000_0000_0000_0000 {
        u - 0x1_0000_0000_0000_0000
    } else {
        u
    }
}

/// The value that a downloader creation response carries: its first eight
/// bytes read as a little-endian signed integer, or 1 for a shorter
/// response.
pub open spec fn creation_value(response: Seq<u8>) -> int {
    if response.len() >= 8 {
        signed64(vstd::bytes::spec_u64_from_le_bytes(response.subrange(0, 8)) as int)
    } else {
        1
    }
}

/// Reads the downloader handle out of the SDK's creation response; the
/// value becomes a handle as `as` casts it to the pointer-sized integer.
pub fn handle_from_creation_response(response: &[u8]) -> (r: DownloaderHandle)
    ensures
        r.0 == (creation_value(response@) as i64) as isize,
{
    if response.len() >= 8 {
        let first = vec![
            response[0],
            response[1],
            response[2],
            response[3],
            response[4],
            response[5],
            response[6],
            response[7],
        ];
        assert(first@ =~= response@.subrange(0, 8));
        let u = vstd::bytes::u64_from_le_bytes(first.as_slice());
        let v: i64 = if u >= 0x8000_0000_0000_0000 {
            ((u - 0x8000_0000_0000_0000) as i64) + i64::MIN
        } else {
            u as i64
        };
        DownloaderHandle(#[verifier::truncate] (v as isize))
    } else {
        DownloaderHandle(1)
    }
}

/// Collects what creating a downloader needs.
pub struct DownloaderBuilder {
    client: DriveClientHandle,
}

impl DownloaderBuilder {
    pub closed spec fn client_spec(&self) -> DriveClientHandle {
        self.client
    }

    /// A builder for the given client.
    pub fn new(client: DriveClientHandle) -> (r: Self)
        ensures
            r.client_spec() == client,
    {
        DownloaderBuilder { client }
    }

    /// The client the downloader is to be created for.
    pub fn client(&self) -> (r: DriveClientHandle)
        ensures
            r == self.client_spec(),
    {
        self.client
    }
}

/// Why an uploader could not be created or used.
#[derive(Debug)]
pub enum UploadError {
    /// The SDK could not be reached or reported a failure; the message says why.
    Ffi(String),
    /// A request could not be encoded or a response decoded.
    Protobuf(String),
    /// The SDK call returned this non-zero code.
    Failure(i32),
    /// The completion callback went away without an answer.
    CallbackClosed,
    /// The uploader handle is null.
    NullHandle,
}

/// What the SDK needs to create an uploader.
#[derive(Debug, Clone, Copy, PartialEq, Eq, Structural)]
pub struct FileUploaderCreationRequest {
    pub file_size: i64,
    pub number_of_samples: i32,
}

/// An uploader bound to a drive client.
pub struct Uploader {
    handle: UploaderHandle,
    client: DriveClientHandle,
    token: CancellationTokenHandle,
}

impl Uploader {
    pub closed spec fn handle_spec(&self) -> UploaderHandle {
        self.handle
    }

    /// The uploader, given the handle that the SDK's creation completed with;
    /// a null handle is an error.
    pub fn from_created(
        client: DriveClientHandle,
        token: CancellationTokenHandle,
        handle: UploaderHandle,
    ) -> (r: Result<Self, UploadError>)
        ensures
            r is Ok <==> handle.0 != 0,
            r is Err ==> r->Err_0 is NullHandle,
            r is Ok ==> r->Ok_0.handle_spec() == handle,
    {
        if handle.is_null() {
            Err(UploadError::NullHandle)
        } else {
            Ok(Uploader { handle, client, token })
        }
    }

    /// The uploader's handle.
    pub fn handle(&self) -> (r: UploaderHandle)
        ensures
            r == self.handle_spec(),
    {
        self.handle
    }
}

/// Collects what creating an uploader needs.
pub struct UploaderBuilder {
    pub client: DriveClientHandle,
    pub request: FileUploaderCreationRequest,
    pub token: CancellationTokenHandle,
}

impl UploaderBuilder {
    /// A builder for `client`, with an empty creation request and the
    /// session's cancellation token.
    pub fn new(client: DriveClientHandle, token: CancellationTokenHandle) -> (r: Self)
        ensures
            r.client == client,
            r.token == token,
            r.request == (FileUploaderCreationRequest { file_size: 0, number_of_samples: 0 }),
    {
        UploaderBuilder {
            client,
            request: FileUploaderCreationRequest { file_size: 0, number_of_samples: 0 },
            token,
        }
    }

    /// The same builder with the given creation request.
    pub fn with_request(self, request: FileUploaderCreationRequest) -> (r: Self)
        ensures
            r.request == request,
            r.client == self.client,
            r.token == self.token,
    {
        UploaderBuilder { request, ..self }
    }
}

} // verus!
