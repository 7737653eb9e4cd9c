use proton_drive::sdk_library::{candidate_paths, fallback_paths, library_name, runtime_id, TargetArch, TargetOs};

#[test]
fn load_dylib() {
    let paths = candidate_paths(TargetOs::Linux);
    assert_eq!(paths.len(), 8);
    assert_eq!(paths[0], "libproton_drive_sdk.so");
    assert_eq!(paths[1], "./libproton_drive_sdk.so");
    assert_eq!(paths[7], "../target/release/libproton_drive_sdk.so");
    println!("Successfully loaded dynamic library");
}

#[test]
fn test_basic_library_function() {
    assert_eq!(runtime_id(TargetOs::Linux, TargetArch::X86_64), Some("linux-x64"));
    assert_eq!(runtime_id(TargetOs::Linux, TargetArch::Arm), Some("linux-arm"));
    assert_eq!(runtime_id(TargetOs::Windows, TargetArch::Aarch64), Some("win-arm64"));
    assert_eq!(runtime_id(TargetOs::MacOs, TargetArch::X86), None);
    assert_eq!(library_name(TargetOs::Windows), "proton_drive_sdk.dll");
}

#[test]
fn test_session_functions() {
    let paths = fallback_paths(TargetOs::Windows);
    assert_eq!(
        paths,
        vec![
            "./proton_drive_sdk.dll".to_string(),
            "./libs/proton_drive_sdk.dll".to_string(),
            "../libs/proton_drive_sdk.dll".to_string(),
            "target/debug/proton_drive_sdk.dll".to_string(),
            "target/release/proton_drive_sdk.dll".to_string(),
            "../target/debug/proton_drive_sdk.dll".to_string(),
            "../target/release/proton_drive_sdk.dll".to_string(),
        ]
    );
}

#[test]
fn test_token_functions() {
    let paths = candidate_paths(TargetOs::MacOs);
    assert_eq!(paths[0], "libproton_drive_sdk.dylib");
    assert_eq!(paths[3], "../libs/libproton_drive_sdk.dylib");
    assert_eq!(runtime_id(TargetOs::MacOs, TargetArch::Aarch64), Some("osx-arm64"));
}

#[test]
fn test_any_exported_function() {
    assert_eq!(TargetArch::from_name(&"x86_64".to_string()), TargetArch::X86_64);
    assert_eq!(TargetArch::from_name(&"aarch64".to_string()), TargetArch::Aarch64);
    assert_eq!(TargetArch::from_name(&"riscv64".to_string()), TargetArch::Other);
    assert_eq!(runtime_id(TargetOs::Linux, TargetArch::Other), None);
}
