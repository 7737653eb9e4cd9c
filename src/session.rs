//! What opening an account session asks of the SDK: the begin request and
//! the application version it announces.
use vstd::prelude::*;

verus! {

/// Why a session operation failed.
#[derive(Debug)]
pub enum SessionError {
    /// The SDK could not be reached; the message says why.
    SdkError(String),
    /// The SDK call returned this non-zero code.
    OperationFailed(i32),
    /// A request could not be encoded or a response decoded.
    ProtobufError(String),
    /// The session handle is null.
    NullHandle,
    /// The operation was cancelled.
    Cancelled,
}

/// The platform part of an announced application version.
#[allow(non_camel_case_types)]
#[derive(Debug, Clone, Copy, PartialEq, Eq, Structural)]
pub enum SessionPlatform {
    Windows,
    macOS,
    Android,
    iOS,
    Linux,
}

pub open spec fn platform_name(p: SessionPlatform) -> Seq<char> {
    match p {
        SessionPlatform::Windows => "windows"@,
        SessionPlatform::macOS => "macos"@,
        SessionPlatform::Android => "android"@,
        SessionPlatform::iOS => "ios"@,
        SessionPlatform::Linux => "linux"@,
    }
}

impl SessionPlatform {
    /// The platform's lower-case name.
    pub fn as_str(&self) -> (r: &'static str)
        ensures
            r@ == platform_name(*self),
    {
        match self {
            SessionPlatform::Windows => "windows",
            SessionPlatform::macOS => "macos",
            SessionPlatform::Android => "android",
            SessionPlatform::iOS => "ios",
            SessionPlatform::Linux => "linux",
        }
    }

    /// The platform's lower-case name as an owned string.
    pub fn to_string(&self) -> (r: String)
        ensures
            r@ == platform_name(*self),
    {
        self.as_str().to_owned()
    }
}

/// Client options sent with the begin request.
pub struct ProtonClientOptions {
    pub app_version: String,
}

/// The request that begins a session.
pub struct SessionBeginRequest {
    pub username: String,
    pub password: String,
    pub two_factor_code: Option<String>,
    pub options: Option<ProtonClientOptions>,
}

/// The version string announced for `app_name` at `app_version` on
/// `platform`.
pub open spec fn app_version_string(platform: SessionPlatform, app_name: Seq<char>, app_version: Seq<char>) -> Seq<char> {
    "external-drive-"@ + app_name + "_"@ + platform_name(platform) + "@"@ + app_version
}

/// The version string that presents the client as the macOS drive app.
pub open spec fn spoofed_app_version() -> Seq<char> {
    "macos-drive@1.0.0-alpha.1+proton-sdk-sys"@
}

/// Collects the begin request of a session.
pub struct SessionBuilder {
    pub request: SessionBeginRequest,
}

impl SessionBuilder {
    /// A builder for the given credentials, with default client options and
    /// no second-factor code.
    pub fn new(username: String, password: String) -> (r: Self)
        ensures
            r.request.username == username,
            r.request.password == password,
            r.request.two_factor_code is None,
            r.request.options is Some,
            r.request.options->Some_0.app_version@ == Seq::<char>::empty(),
    {
        SessionBuilder {
            request: SessionBeginRequest {
                username,
                password,
                two_factor_code: None,
                options: Some(ProtonClientOptions { app_version: String::new() }),
            },
        }
    }

    /// The same builder with the given client options.
    pub fn with_options(self, options: ProtonClientOptions) -> (r: Self)
        ensures
            r.request.options == Some(options),
            r.request.username == self.request.username,
            r.request.password == self.request.password,
            r.request.two_factor_code == self.request.two_factor_code,
    {
        let mut s = self;
        s.request.options = Some(options);
        s
    }

    /// The same builder announcing `external-drive-<app_name>_<platform>@<app_version>`
    /// as its version, where client options are present.
    pub fn with_app_version(self, platform: SessionPlatform, app_name: &str, app_version: &str) -> (r: Self)
        ensures
            r.request.username == self.request.username,
            r.request.password == self.request.password,
            r.request.two_factor_code == self.request.two_factor_code,
            self.request.options is None ==> r.request.options is None,
            self.request.options is Some ==> r.request.options is Some
                && r.request.options->Some_0.app_version@ == app_version_string(
                platform,
                app_name@,
                app_version@,
            ),
    {
        let mut s = self;
        if s.request.options.is_some() {
            let mut v = "external-drive-".to_owned();
            v.append(app_name);
            v.append("_");
            v.append(platform.as_str());
            v.append("@");
            v.append(app_version);
            s.request.options = Some(ProtonClientOptions { app_version: v });
        }
        s
    }

    /// The same builder announcing the macOS drive app's version, where
    /// client options are present.
    pub fn with_rclone_app_version_spoof(self) -> (r: Self)
        ensures
            r.request.username == self.request.username,
            r.request.password == self.request.password,
            r.request.two_factor_code == self.request.two_factor_code,
            self.request.options is None ==> r.request.options is None,
            self.request.options is Some ==> r.request.options is Some
                && r.request.options->Some_0.app_version@ == spoofed_app_version(),
    {
        let mut s = self;
        if s.request.options.is_some() {
            let v = "macos-drive@1.0.0-alpha.1+proton-sdk-sys".to_owned();
            s.request.options = Some(ProtonClientOptions { app_version: v });
        }
        s
    }
}

} // verus!
