use nscb_desktop::target::{get_platform, nscb_binary_name, Target};

fn target(os: &str, arch: &str) -> Target {
    Target { os: os.to_string(), arch: arch.to_string() }
}

#[test]
fn binary_name_for_each_platform() {
    assert_eq!(nscb_binary_name(&target("android", "aarch64")), "embedded-nscb");
    assert_eq!(nscb_binary_name(&target("windows", "x86_64")), "nscb_rust.exe");
    assert_eq!(nscb_binary_name(&target("macos", "aarch64")), "nscb_rust-macos-arm64");
    assert_eq!(nscb_binary_name(&target("macos", "x86_64")), "nscb_rust-macos-amd64");
    assert_eq!(nscb_binary_name(&target("linux", "x86_64")), "nscb_rust-linux-amd64");
}

#[test]
fn binary_name_falls_back_to_linux() {
    assert_eq!(nscb_binary_name(&target("linux", "aarch64")), "nscb_rust-linux-amd64");
    assert_eq!(nscb_binary_name(&target("macos", "riscv64")), "nscb_rust-linux-amd64");
    assert_eq!(nscb_binary_name(&target("freebsd", "x86_64")), "nscb_rust-linux-amd64");
}

#[test]
fn platform_for_each_system() {
    assert_eq!(get_platform(&target("android", "x86_64")), "android-arm64");
    assert_eq!(get_platform(&target("macos", "aarch64")), "macos-arm64");
    assert_eq!(get_platform(&target("macos", "x86_64")), "macos-amd64");
    assert_eq!(get_platform(&target("macos", "riscv64")), "macos");
    assert_eq!(get_platform(&target("windows", "x86_64")), "windows");
    assert_eq!(get_platform(&target("linux", "x86_64")), "linux");
}

#[test]
fn system_predicates() {
    assert!(target("android", "aarch64").is_android());
    assert!(!target("linux", "x86_64").is_android());
    assert!(target("windows", "x86_64").is_windows());
    assert!(!target("Windows", "x86_64").is_windows());
}
