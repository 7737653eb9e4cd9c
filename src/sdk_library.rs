//! Where the SDK's shared library is looked for on each platform.
use vstd::prelude::*;

verus! {

/// An operating system the SDK ships a library for.
#[derive(Debug, Clone, Copy, PartialEq, Eq, Structural)]
pub enum TargetOs {
    Windows,
    Linux,
    MacOs,
}

/// A processor architecture, as the standard library names it.
#[derive(Debug, Clone, Copy, PartialEq, Eq, Structural)]
pub enum TargetArch {
    X86_64,
    X86,
    Aarch64,
    Arm,
    Other,
}

pub open spec fn arch_of(name: Seq<char>) -> TargetArch {
    if name == "x86_64"@ {
        TargetArch::X86_64
    } else if name == "x86"@ {
        TargetArch::X86
    } else if name == "aarch64"@ {
        TargetArch::Aarch64
    } else if name == "arm"@ {
        TargetArch::Arm
    } else {
        TargetArch::Other
    }
}

impl TargetArch {
    /// The architecture named `name` ("x86_64", "x86", "aarch64", "arm").
    pub fn from_name(name: &String) -> (r: TargetArch)
        ensures
            r == arch_of(name@),
    {
        if *name == "x86_64".to_owned() {
            TargetArch::X86_64
        } else if *name == "x86".to_owned() {
            TargetArch::X86
        } else if *name == "aarch64".to_owned() {
            TargetArch::Aarch64
        } else if *name == "arm".to_owned() {
            TargetArch::Arm
        } else {
            TargetArch::Other
        }
    }
}

pub open spec fn runtime_id_spec(os: TargetOs, arch: TargetArch) -> Option<Seq<char>> {
    match (os, arch) {
        (TargetOs::Windows, TargetArch::X86_64) => Some("win-x64"@),
        (TargetOs::Windows, TargetArch::X86) => Some("win-x86"@),
        (TargetOs::Windows, TargetArch::Aarch64) => Some("win-arm64"@),
        (TargetOs::Linux, TargetArch::X86_64) => Some("linux-x64"@),
        (TargetOs::Linux, TargetArch::X86) => Some("linux-x86"@),
        (TargetOs::Linux, TargetArch::Aarch64) => Some("linux-arm64"@),
        (TargetOs::Linux, TargetArch::Arm) => Some("linux-arm"@),
        (TargetOs::MacOs, TargetArch::X86_64) => Some("osx-x64"@),
        (TargetOs::MacOs, TargetArch::Aarch64) => Some("osx-arm64"@),
        _ => None,
    }
}

pub open spec fn library_name_spec(os: TargetOs) -> Seq<char> {
    match os {
        TargetOs::Windows => "proton_drive_sdk.dll"@,
        TargetOs::Linux => "libproton_drive_sdk.so"@,
        TargetOs::MacOs => "libproton_drive_sdk.dylib"@,
    }
}

/// The runtime identifier of a platform, or `None` where the SDK ships no
/// library for it.
pub fn runtime_id(os: TargetOs, arch: TargetArch) -> (r: Option<&'static str>)
    ensures
        r is Some <==> runtime_id_spec(os, arch) is Some,
        r is Some ==> r->Some_0@ == runtime_id_spec(os, arch)->Some_0,
{
    match (os, arch) {
        (TargetOs::Windows, TargetArch::X86_64) => Some("win-x64"),
        (TargetOs::Windows, TargetArch::X86) => Some("win-x86"),
        (TargetOs::Windows, TargetArch::Aarch64) => Some("win-arm64"),
        (TargetOs::Linux, TargetArch::X86_64) => Some("linux-x64"),
        (TargetOs::Linux, TargetArch::X86) => Some("linux-x86"),
        (TargetOs::Linux, TargetArch::Aarch64) => Some("linux-arm64"),
        (TargetOs::Linux, TargetArch::Arm) => Some("linux-arm"),
        (TargetOs::MacOs, TargetArch::X86_64) => Some("osx-x64"),
        (TargetOs::MacOs, TargetArch::Aarch64) => Some("osx-arm64"),
        _ => None,
    }
}

/// The file name of the SDK's library on an operating system.
pub fn library_name(os: TargetOs) -> (r: &'static str)
    ensures
        r@ == library_name_spec(os),
{
    match os {
        TargetOs::Windows => "proton_drive_sdk.dll",
        TargetOs::Linux => "libproton_drive_sdk.so",
        TargetOs::MacOs => "libproton_drive_sdk.dylib",
    }
}

/// The directory prefixes tried, in order, after the bare file name.
pub open spec fn fallback_prefixes() -> Seq<Seq<char>> {
    seq![
        "./"@,
        "./libs/"@,
        "../libs/"@,
        "target/debug/"@,
        "target/release/"@,
        "../target/debug/"@,
        "../target/release/"@,
    ]
}

fn prefixed(prefix: &str, name: &str) -> (r: String)
    ensures
        r@ == prefix@ + name@,
{
    let mut p = prefix.to_owned();
    p.append(name);
    p
}

/// The places where the library is looked for when the bare file name does
/// not load, in order.
pub fn fallback_paths(os: TargetOs) -> (r: Vec<String>)
    ensures
        r@.len() == fallback_prefixes().len(),
        forall|i: int|
            0 <= i < r@.len() ==> (#[trigger] r@[i])@ == fallback_prefixes()[i] + library_name_spec(os),
{
    let lib = library_name(os);
    let mut paths: Vec<String> = Vec::new();
    paths.push(prefixed("./", lib));
    paths.push(prefixed("./libs/", lib));
    paths.push(prefixed("../libs/", lib));
    paths.push(prefixed("target/debug/", lib));
    paths.push(prefixed("target/release/", lib));
    paths.push(prefixed("../target/debug/", lib));
    paths.push(prefixed("../target/release/", lib));
    paths
}

/// Every place where the library is looked for, in order: the bare file
/// name, then the fallbacks.
pub fn candidate_paths(os: TargetOs) -> (r: Vec<String>)
    ensures
        r@.len() == fallback_prefixes().len() + 1,
        r@[0]@ == library_name_spec(os),
        forall|i: int|
            1 <= i < r@.len() ==> (#[trigger] r@[i])@ == fallback_prefixes()[i - 1] + library_name_spec(os),
{
    let mut r: Vec<String> = Vec::new();
    r.push(library_name(os).to_owned());
    let mut rest = fallback_paths(os);
    let ghost fb = rest@;
    r.append(&mut rest);
    assert forall|i: int| 1 <= i < r@.len() implies (#[trigger] r@[i])@ == fallback_prefixes()[i - 1]
        + library_name_spec(os) by {
        assert(r@[i] == fb[i - 1]);
    }
    r
}

} // verus!
