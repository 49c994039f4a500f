//! The platform that the shell was built for, and what is called by its name.
use crate::text::same_text;
use vstd::prelude::*;

verus! {

/// The operating system and the processor architecture of a build, by the names
/// that the compiler gives them (`linux`, `macos`, `windows`, `android`;
/// `x86_64`, `aarch64`).
#[derive(Debug)]
pub struct Target {
    pub os: String,
    pub arch: String,
}

/// The name of the backend executable on the given system.
pub open spec fn binary_name(os: Seq<char>, arch: Seq<char>) -> Seq<char> {
    if os == "android"@ {
        "embedded-nscb"@
    } else if os == "windows"@ {
        "nscb_rust.exe"@
    } else if os == "macos"@ && arch == "aarch64"@ {
        "nscb_rust-macos-arm64"@
    } else if os == "macos"@ && arch == "x86_64"@ {
        "nscb_rust-macos-amd64"@
    } else {
        "nscb_rust-linux-amd64"@
    }
}

/// The name by which the given system is shown to the user interface.
pub open spec fn platform_name(os: Seq<char>, arch: Seq<char>) -> Seq<char> {
    if os == "android"@ {
        "android-arm64"@
    } else if os == "macos"@ && arch == "aarch64"@ {
        "macos-arm64"@
    } else if os == "macos"@ && arch == "x86_64"@ {
        "macos-amd64"@
    } else {
        os
    }
}

impl Target {
    /// Whether the backend is built into the application.
    pub open spec fn embeds_backend(self) -> bool {
        self.os@ == "android"@
    }

    /// Whether the backend is built into the application.
    pub fn is_android(&self) -> (res: bool)
        ensures
            res == self.embeds_backend(),
    {
        same_text(self.os.as_str(), "android")
    }

    /// Whether the target is Windows.
    pub fn is_windows(&self) -> (res: bool)
        ensures
            res == (self.os@ == "windows"@),
    {
        same_text(self.os.as_str(), "windows")
    }

    fn is_macos_on(&self, arch: &str) -> (res: bool)
        ensures
            res == (self.os@ == "macos"@ && self.arch@ == arch@),
    {
        same_text(self.os.as_str(), "macos") && same_text(self.arch.as_str(), arch)
    }
}

/// The file name of the backend executable for `target`.
pub fn nscb_binary_name(target: &Target) -> (name: &'static str)
    ensures
        name@ == binary_name(target.os@, target.arch@),
{
    if target.is_android() {
        "embedded-nscb"
    } else if target.is_windows() {
        "nscb_rust.exe"
    } else if target.is_macos_on("aarch64") {
        "nscb_rust-macos-arm64"
    } else if target.is_macos_on("x86_64") {
        "nscb_rust-macos-amd64"
    } else {
        "nscb_rust-linux-amd64"
    }
}

/// Whether the user interface knows `target` by `name`.
pub open spec fn is_platform(target: Target, name: Seq<char>) -> bool {
    name == platform_name(target.os@, target.arch@)
}

/// The name of the platform as the user interface knows it.
pub fn get_platform(target: &Target) -> (name: String)
    ensures
        is_platform(*target, name@),
{
    if target.is_android() {
        "android-arm64".to_owned()
    } else if target.is_macos_on("aarch64") {
        "macos-arm64".to_owned()
    } else if target.is_macos_on("x86_64") {
        "macos-amd64".to_owned()
    } else {
        target.os.clone()
    }
}

/// The name of the backend tells the platform: each name belongs to one system, on
/// macOS to one processor, and whatever is none of these has the name for Linux.
pub proof fn law_name_tells_platform(os: Seq<char>, arch: Seq<char>)
    ensures
        binary_name(os, arch) == "embedded-nscb"@ <==> os == "android"@,
        binary_name(os, arch) == "nscb_rust.exe"@ <==> os == "windows"@,
        binary_name(os, arch) == "nscb_rust-macos-arm64"@ <==> os == "macos"@ && arch == "aarch64"@,
        binary_name(os, arch) == "nscb_rust-macos-amd64"@ <==> os == "macos"@ && arch == "x86_64"@,
        binary_name(os, arch) == "nscb_rust-linux-amd64"@ <==> {
            &&& os != "android"@
            &&& os != "windows"@
            &&& os == "macos"@ ==> arch != "aarch64"@ && arch != "x86_64"@
        },
{
    lemma_system_names();
    reveal_strlit("embedded-nscb");
    reveal_strlit("nscb_rust.exe");
    reveal_strlit("nscb_rust-macos-arm64");
    reveal_strlit("nscb_rust-macos-amd64");
    reveal_strlit("nscb_rust-linux-amd64");
    assert("embedded-nscb"@[0] != "nscb_rust.exe"@[0]);
    assert("nscb_rust-macos-arm64"@[17] != "nscb_rust-macos-amd64"@[17]);
    assert("nscb_rust-macos-arm64"@[10] != "nscb_rust-linux-amd64"@[10]);
    assert("nscb_rust-macos-amd64"@[10] != "nscb_rust-linux-amd64"@[10]);
    assert("embedded-nscb"@.len() == 13 && "nscb_rust.exe"@.len() == 13);
    assert("nscb_rust-linux-amd64"@.len() == 21);
}

proof fn lemma_system_names()
    ensures
        "android"@ != "windows"@,
        "android"@ != "macos"@,
        "windows"@ != "macos"@,
        "aarch64"@ != "x86_64"@,
{
    reveal_strlit("android");
    reveal_strlit("windows");
    reveal_strlit("macos");
    reveal_strlit("aarch64");
    reveal_strlit("x86_64");
    assert("android"@[0] != "windows"@[0]);
    assert("macos"@.len() == 5);
    assert("aarch64"@.len() != "x86_64"@.len());
}

/// The name of a platform is that of its system, followed by the processor on Android
/// and, where it is one of the two that macOS runs on, on macOS, and by nothing
/// elsewhere. On those of macOS the backend is called after the platform.
pub proof fn law_platform_is_system_and_processor(target: Target, name: Seq<char>)
    requires
        is_platform(target, name),
    ensures
        ({
            let os = target.os@;
            let arch = target.arch@;
            &&& name == os + if os == "android"@ || (os == "macos"@ && arch == "aarch64"@) {
                "-arm64"@
            } else if os == "macos"@ && arch == "x86_64"@ {
                "-amd64"@
            } else {
                Seq::empty()
            }
            &&& os == "macos"@ && (arch == "aarch64"@ || arch == "x86_64"@) ==> binary_name(os, arch)
                == "nscb_rust-"@ + name
        }),
{
    let os = target.os@;
    lemma_system_names();
    reveal_strlit("android");
    reveal_strlit("macos");
    reveal_strlit("-arm64");
    reveal_strlit("-amd64");
    reveal_strlit("android-arm64");
    reveal_strlit("macos-arm64");
    reveal_strlit("macos-amd64");
    reveal_strlit("nscb_rust-");
    reveal_strlit("nscb_rust-macos-arm64");
    reveal_strlit("nscb_rust-macos-amd64");
    assert("android"@ + "-arm64"@ =~= "android-arm64"@);
    assert("macos"@ + "-arm64"@ =~= "macos-arm64"@);
    assert("macos"@ + "-amd64"@ =~= "macos-amd64"@);
    assert("nscb_rust-"@ + "macos-arm64"@ =~= "nscb_rust-macos-arm64"@);
    assert("nscb_rust-"@ + "macos-amd64"@ =~= "nscb_rust-macos-amd64"@);
    assert(os + Seq::<char>::empty() =~= os);
}

/// The backend is built in exactly where its name is not that of a file.
pub proof fn law_embedded_backend_is_no_file(target: Target)
    ensures
        target.embeds_backend() <==> binary_name(target.os@, target.arch@) == "embedded-nscb"@,
        target.embeds_backend() <==> target.os@ == "android"@,
{
    law_name_tells_platform(target.os@, target.arch@);
}

} // verus!
