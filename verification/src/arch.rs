//! Platform naming: the Zig target string of the running platform and the
//! file names that depend on the operating system.
//!
//! `arch` and `os` are the platform names that Rust itself uses for the
//! build (`std::env::consts::ARCH` and `OS`, e.g. "x86_64", "linux").

use vstd::prelude::*;
use vstd::string::*;
use crate::text::{concat, str_eq};

verus! {

/// The Zig target for a supported architecture/OS pair; any other pair is
/// treated as "x86_64-linux".
pub open spec fn target_name(arch: Seq<char>, os: Seq<char>) -> Seq<char> {
    if arch == "x86_64"@ && os == "linux"@ {
        "x86_64-linux"@
    } else if arch == "aarch64"@ && os == "linux"@ {
        "aarch64-linux"@
    } else if arch == "arm"@ && os == "linux"@ {
        "arm-linux"@
    } else if arch == "riscv64"@ && os == "linux"@ {
        "riscv64-linux"@
    } else if arch == "x86_64"@ && os == "macos"@ {
        "x86_64-macos"@
    } else if arch == "aarch64"@ && os == "macos"@ {
        "aarch64-macos"@
    } else if arch == "x86_64"@ && os == "windows"@ {
        "x86_64-windows"@
    } else if arch == "aarch64"@ && os == "windows"@ {
        "aarch64-windows"@
    } else {
        "x86_64-linux"@
    }
}

/// The target is always one that Zig publishes builds for.
pub proof fn target_is_supported(arch: Seq<char>, os: Seq<char>)
    ensures
        ({
            let t = target_name(arch, os);
            t == "x86_64-linux"@ || t == "aarch64-linux"@ || t == "arm-linux"@ || t == "riscv64-linux"@
                || t == "x86_64-macos"@ || t == "aarch64-macos"@ || t == "x86_64-windows"@
                || t == "aarch64-windows"@
        }),
{
}

/// Architectures Zig ships for; any other counts as "x86_64".
pub open spec fn known_arch(arch: Seq<char>) -> Seq<char> {
    if arch == "x86_64"@ || arch == "aarch64"@ || arch == "arm"@ || arch == "riscv64"@ {
        arch
    } else {
        "x86_64"@
    }
}

/// Operating systems Zig ships for; any other counts as "linux".
pub open spec fn known_os(os: Seq<char>) -> Seq<char> {
    if os == "linux"@ || os == "macos"@ || os == "windows"@ {
        os
    } else {
        "linux"@
    }
}

/// The Zig target string for an architecture/OS pair.
pub fn target_str(arch: &str, os: &str) -> (r: &'static str)
    ensures
        r@ == target_name(arch@, os@),
{
    let linux = str_eq(os, "linux");
    let macos = str_eq(os, "macos");
    let windows = str_eq(os, "windows");
    if str_eq(arch, "x86_64") && linux {
        "x86_64-linux"
    } else if str_eq(arch, "aarch64") && linux {
        "aarch64-linux"
    } else if str_eq(arch, "arm") && linux {
        "arm-linux"
    } else if str_eq(arch, "riscv64") && linux {
        "riscv64-linux"
    } else if str_eq(arch, "x86_64") && macos {
        "x86_64-macos"
    } else if str_eq(arch, "aarch64") && macos {
        "aarch64-macos"
    } else if str_eq(arch, "x86_64") && windows {
        "x86_64-windows"
    } else if str_eq(arch, "aarch64") && windows {
        "aarch64-windows"
    } else {
        "x86_64-linux"
    }
}

/// Returns the Zig architecture-OS string for the platform, e.g.
/// "x86_64-linux", "aarch64-macos", "x86_64-windows". An unknown
/// architecture falls back to "x86_64" and an unknown OS to "linux".
pub fn target(arch: &str, os: &str) -> (r: &'static str)
    ensures
        r@ == target_name(known_arch(arch@), known_os(os@)),
{
    let a = if str_eq(arch, "x86_64") || str_eq(arch, "aarch64") || str_eq(arch, "arm") || str_eq(arch, "riscv64") {
        arch
    } else {
        "x86_64"
    };
    let o = if str_eq(os, "linux") || str_eq(os, "macos") || str_eq(os, "windows") {
        os
    } else {
        "linux"
    };
    target_str(a, o)
}

/// The archive format of Zig downloads on an OS.
pub open spec fn archive_ext_for(os: Seq<char>) -> Seq<char> {
    if os == "windows"@ {
        "zip"@
    } else {
        "tar.xz"@
    }
}

/// Returns the file extension used by Zig tarballs for the OS.
pub fn archive_ext(os: &str) -> (r: &'static str)
    ensures
        r@ == archive_ext_for(os@),
{
    if str_eq(os, "windows") {
        "zip"
    } else {
        "tar.xz"
    }
}

/// The file name of the zig executable on an OS.
pub open spec fn binary_name_for(os: Seq<char>) -> Seq<char> {
    if os == "windows"@ {
        "zig.exe"@
    } else {
        "zig"@
    }
}

/// The file name of the zig executable inside a cached version.
pub fn binary_name(os: &str) -> (r: &'static str)
    ensures
        r@ == binary_name_for(os@),
{
    if str_eq(os, "windows") {
        "zig.exe"
    } else {
        "zig"
    }
}

/// The platform part of this tool's release asset names.
pub open spec fn asset_platform(os: Seq<char>, arch: Seq<char>) -> Seq<char> {
    if os == "linux"@ && arch == "x86_64"@ {
        "linux-x64"@
    } else if os == "linux"@ && arch == "aarch64"@ {
        "linux-arm64"@
    } else if os == "macos"@ && arch == "x86_64"@ {
        "darwin-x64"@
    } else if os == "macos"@ && arch == "aarch64"@ {
        "darwin-arm64"@
    } else if os == "windows"@ && arch == "x86_64"@ {
        "windows-x64"@
    } else {
        "linux-x64"@
    }
}

/// The release asset of this tool for a platform: "{name}-{platform}",
/// with ".exe" on Windows.
pub open spec fn artifact_name(name: Seq<char>, os: Seq<char>, arch: Seq<char>) -> Seq<char> {
    let base = name + "-"@ + asset_platform(os, arch);
    if os == "windows"@ {
        base + ".exe"@
    } else {
        base
    }
}

/// The name of this tool's release asset for the platform, e.g.
/// "z-linux-x64" or "z-windows-x64.exe".
pub fn self_artifact(name: &str, os: &str, arch: &str) -> (r: String)
    ensures
        r@ == artifact_name(name@, os@, arch@),
{
    let linux = str_eq(os, "linux");
    let macos = str_eq(os, "macos");
    let windows = str_eq(os, "windows");
    let x64 = str_eq(arch, "x86_64");
    let arm64 = str_eq(arch, "aarch64");
    let platform = if linux && x64 {
        "linux-x64"
    } else if linux && arm64 {
        "linux-arm64"
    } else if macos && x64 {
        "darwin-x64"
    } else if macos && arm64 {
        "darwin-arm64"
    } else if windows && x64 {
        "windows-x64"
    } else {
        "linux-x64"
    };
    let mut out = concat(name, "-");
    out.append(platform);
    if windows {
        out.append(".exe");
    }
    out
}

/// The architecture/OS pairs that Zig publishes builds for: Linux on
/// x86_64, aarch64, arm and riscv64; macOS and Windows on x86_64 and
/// aarch64.
pub open spec fn supported_pair(arch: Seq<char>, os: Seq<char>) -> bool {
    ||| os == "linux"@ && (arch == "x86_64"@ || arch == "aarch64"@ || arch == "arm"@ || arch == "riscv64"@)
    ||| (os == "macos"@ || os == "windows"@) && (arch == "x86_64"@ || arch == "aarch64"@)
}

/// For every supported pair the Zig target is "{arch}-{os}"; any other
/// pair gets the fallback "x86_64-linux".
pub proof fn target_names_arch_and_os(arch: Seq<char>, os: Seq<char>)
    ensures
        supported_pair(arch, os) ==> target_name(arch, os) == arch + "-"@ + os,
        !supported_pair(arch, os) ==> target_name(arch, os) == "x86_64"@ + "-"@ + "linux"@,
{
    reveal_strlit("-");
    reveal_strlit("x86_64");
    reveal_strlit("aarch64");
    reveal_strlit("arm");
    reveal_strlit("riscv64");
    reveal_strlit("linux");
    reveal_strlit("macos");
    reveal_strlit("windows");
    reveal_strlit("x86_64-linux");
    reveal_strlit("aarch64-linux");
    reveal_strlit("arm-linux");
    reveal_strlit("riscv64-linux");
    reveal_strlit("x86_64-macos");
    reveal_strlit("aarch64-macos");
    reveal_strlit("x86_64-windows");
    reveal_strlit("aarch64-windows");
    assert("x86_64"@ + "-"@ + "linux"@ =~= "x86_64-linux"@);
    assert("aarch64"@ + "-"@ + "linux"@ =~= "aarch64-linux"@);
    assert("arm"@ + "-"@ + "linux"@ =~= "arm-linux"@);
    assert("riscv64"@ + "-"@ + "linux"@ =~= "riscv64-linux"@);
    assert("x86_64"@ + "-"@ + "macos"@ =~= "x86_64-macos"@);
    assert("aarch64"@ + "-"@ + "macos"@ =~= "aarch64-macos"@);
    assert("x86_64"@ + "-"@ + "windows"@ =~= "x86_64-windows"@);
    assert("aarch64"@ + "-"@ + "windows"@ =~= "aarch64-windows"@);
}

/// The name Rust gives an OS, as this tool's asset names spell it.
pub open spec fn asset_os_word(os: Seq<char>) -> Seq<char> {
    if os == "macos"@ {
        "darwin"@
    } else {
        os
    }
}

/// The name Rust gives an architecture, as this tool's asset names spell it.
pub open spec fn asset_arch_word(arch: Seq<char>) -> Seq<char> {
    if arch == "aarch64"@ {
        "arm64"@
    } else {
        "x64"@
    }
}

/// The platforms this tool publishes itself for: Linux and macOS on x86_64
/// and aarch64, Windows on x86_64.
pub open spec fn asset_pair(os: Seq<char>, arch: Seq<char>) -> bool {
    ||| (os == "linux"@ || os == "macos"@) && (arch == "x86_64"@ || arch == "aarch64"@)
    ||| os == "windows"@ && arch == "x86_64"@
}

/// A published platform's asset names its own OS and architecture
/// ("darwin" for macOS, "x64"/"arm64"), so a build never downloads another
/// platform's binary; any other platform gets the Linux x86_64 asset. The
/// asset is "{name}-{platform}", with ".exe" exactly on Windows.
pub proof fn asset_names_own_platform(name: Seq<char>, os: Seq<char>, arch: Seq<char>)
    ensures
        asset_pair(os, arch) ==> asset_platform(os, arch) == asset_os_word(os) + "-"@ + asset_arch_word(arch),
        !asset_pair(os, arch) ==> asset_platform(os, arch) == "linux"@ + "-"@ + "x64"@,
        artifact_name(name, os, arch) == name + "-"@ + asset_platform(os, arch) + (if os == "windows"@ {
            ".exe"@
        } else {
            ""@
        }),
{
    reveal_strlit("-");
    reveal_strlit("");
    reveal_strlit("x86_64");
    reveal_strlit("aarch64");
    reveal_strlit("linux");
    reveal_strlit("macos");
    reveal_strlit("windows");
    reveal_strlit("darwin");
    reveal_strlit("x64");
    reveal_strlit("arm64");
    reveal_strlit("linux-x64");
    reveal_strlit("linux-arm64");
    reveal_strlit("darwin-x64");
    reveal_strlit("darwin-arm64");
    reveal_strlit("windows-x64");
    assert("linux"@ + "-"@ + "x64"@ =~= "linux-x64"@);
    assert("linux"@ + "-"@ + "arm64"@ =~= "linux-arm64"@);
    assert("darwin"@ + "-"@ + "x64"@ =~= "darwin-x64"@);
    assert("darwin"@ + "-"@ + "arm64"@ =~= "darwin-arm64"@);
    assert("windows"@ + "-"@ + "x64"@ =~= "windows-x64"@);
    assert("linux"@[0] == 'l' && "macos"@[0] == 'm' && "windows"@[0] == 'w');
    assert("x86_64"@[0] == 'x' && "aarch64"@[0] == 'a');
    if os == "linux"@ && arch == "x86_64"@ {
        assert(asset_platform(os, arch) == "linux-x64"@);
    } else if os == "linux"@ && arch == "aarch64"@ {
        assert(asset_platform(os, arch) == "linux-arm64"@);
    } else if os == "macos"@ && arch == "x86_64"@ {
        assert(asset_platform(os, arch) == "darwin-x64"@);
    } else if os == "macos"@ && arch == "aarch64"@ {
        assert(asset_platform(os, arch) == "darwin-arm64"@);
    } else if os == "windows"@ && arch == "x86_64"@ {
        assert(asset_platform(os, arch) == "windows-x64"@);
    }
    let base = name + "-"@ + asset_platform(os, arch);
    assert(base + ""@ =~= base);
}

} // verus!
