use vstd::prelude::*;

verus! {

/// The operating system the launcher was built for.
#[derive(Clone, Copy, Debug, PartialEq, Eq, Structural)]
pub enum TargetOs {
    Windows,
    MacOs,
    /// Linux and every other Unix-like system.
    Linux,
}

/// The CPU architecture the launcher was built for.
#[derive(Clone, Copy, Debug, PartialEq, Eq, Structural)]
pub enum TargetArch {
    X86_64,
    X86,
    Aarch64,
    Other,
}

/// Facts about the machine the launcher runs on, filled in by the binary
/// from its compile-time target.
#[derive(Clone, Copy, Debug, PartialEq, Eq, Structural)]
pub struct Host {
    pub os: TargetOs,
    pub arch: TargetArch,
    /// Whether pointers are 64 bits wide.
    pub pointer_width_64: bool,
}

/// Mojang's name for the host operating system.
pub open spec fn spec_current_os(host: Host) -> Seq<char> {
    match host.os {
        TargetOs::Windows => "windows"@,
        TargetOs::MacOs => "osx"@,
        TargetOs::Linux => "linux"@,
    }
}

/// Mojang's name for the host architecture.
pub open spec fn spec_current_arch(host: Host) -> Seq<char> {
    match host.arch {
        TargetArch::X86_64 => "x86_64"@,
        TargetArch::X86 => "x86"@,
        TargetArch::Aarch64 => "arm64"@,
        TargetArch::Other => "unknown"@,
    }
}

} // verus!
