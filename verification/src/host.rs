//! The host the emulator runs on: operating system and CPU family, and the
//! names each one gives to executables, scripts and downloads.

use vstd::prelude::*;

verus! {

/// Desktop operating system of the host.
#[derive(Clone, Copy, Debug, PartialEq, Eq, Structural)]
pub enum HostOs {
    MacOs,
    Windows,
    Linux,
}

/// CPU family of the host, as far as Android images and JDK builds care.
#[derive(Clone, Copy, Debug, PartialEq, Eq, Structural)]
pub enum HostArch {
    Aarch64,
    Other,
}

/// What the host tells the process about itself: its platform and the
/// environment variables the locators read (each `None` when unset or not
/// valid Unicode).
pub struct HostEnv {
    pub os: HostOs,
    pub arch: HostArch,
    /// `ANDROID_SDK_ROOT`
    pub android_sdk_root: Option<String>,
    /// `ANDROID_HOME`
    pub android_home: Option<String>,
    /// `LOCALAPPDATA` (Windows)
    pub local_app_data: Option<String>,
    /// `JAVA_HOME`
    pub java_home: Option<String>,
    /// `PATH`
    pub path: Option<String>,
}

impl HostOs {
    /// Suffix of native executables: `.exe` on Windows, nothing elsewhere.
    pub open spec fn exe_spec(self) -> Seq<char> {
        if self == HostOs::Windows {
            ".exe"@
        } else {
            ""@
        }
    }

    /// Suffix of the SDK's command-line tool scripts: `.bat` on Windows.
    pub open spec fn script_spec(self) -> Seq<char> {
        if self == HostOs::Windows {
            ".bat"@
        } else {
            ""@
        }
    }

    /// Separator of the entries of the `PATH` variable.
    pub open spec fn path_list_sep_spec(self) -> char {
        if self == HostOs::Windows {
            ';'
        } else {
            ':'
        }
    }

    pub fn exe_suffix(&self) -> (r: &'static str)
        ensures
            r@ == self.exe_spec(),
    {
        match self {
            HostOs::Windows => ".exe",
            _ => "",
        }
    }

    pub fn script_suffix(&self) -> (r: &'static str)
        ensures
            r@ == self.script_spec(),
    {
        match self {
            HostOs::Windows => ".bat",
            _ => "",
        }
    }

    pub fn path_list_separator(&self) -> (r: char)
        ensures
            r == self.path_list_sep_spec(),
    {
        match self {
            HostOs::Windows => ';',
            _ => ':',
        }
    }
}

/// Android ABI of the system image that runs natively on the host CPU.
pub open spec fn abi_spec(arch: HostArch) -> Seq<char> {
    if arch == HostArch::Aarch64 {
        "arm64-v8a"@
    } else {
        "x86_64"@
    }
}

pub fn abi(arch: HostArch) -> (r: &'static str)
    ensures
        r@ == abi_spec(arch),
{
    match arch {
        HostArch::Aarch64 => "arm64-v8a",
        HostArch::Other => "x86_64",
    }
}

/// The OS name Google uses in command-line tools download names.
pub open spec fn google_os_spec(os: HostOs) -> Seq<char> {
    match os {
        HostOs::MacOs => "mac"@,
        HostOs::Windows => "win"@,
        HostOs::Linux => "linux"@,
    }
}

pub fn google_os(os: HostOs) -> (r: &'static str)
    ensures
        r@ == google_os_spec(os),
{
    match os {
        HostOs::MacOs => "mac",
        HostOs::Windows => "win",
        HostOs::Linux => "linux",
    }
}

/// The Play Store system image for API 34 matching the host CPU.
pub open spec fn system_image_spec(arch: HostArch) -> Seq<char> {
    "system-images;android-34;google_apis_playstore;"@ + abi_spec(arch)
}

pub fn system_image(arch: HostArch) -> (r: String)
    ensures
        r@ == system_image_spec(arch),
{
    let mut s = "system-images;android-34;google_apis_playstore;".to_owned();
    s.append(abi(arch));
    s
}

/// The OS name Adoptium uses in its download API.
pub open spec fn temurin_os_spec(os: HostOs) -> Seq<char> {
    match os {
        HostOs::MacOs => "mac"@,
        HostOs::Windows => "windows"@,
        HostOs::Linux => "linux"@,
    }
}

/// The CPU name Adoptium uses in its download API.
pub open spec fn temurin_arch_spec(arch: HostArch) -> Seq<char> {
    if arch == HostArch::Aarch64 {
        "aarch64"@
    } else {
        "x64"@
    }
}

/// Download URL of the latest Temurin JDK 17 for the host.
pub open spec fn temurin_url_spec(os: HostOs, arch: HostArch) -> Seq<char> {
    "https://api.adoptium.net/v3/binary/latest/17/ga/"@ + temurin_os_spec(os) + "/"@
        + temurin_arch_spec(arch) + "/jdk/hotspot/normal/eclipse"@
}

pub fn temurin_url(os: HostOs, arch: HostArch) -> (r: String)
    ensures
        r@ == temurin_url_spec(os, arch),
{
    let os_name = match os {
        HostOs::MacOs => "mac",
        HostOs::Windows => "windows",
        HostOs::Linux => "linux",
    };
    let arch_name = match arch {
        HostArch::Aarch64 => "aarch64",
        HostArch::Other => "x64",
    };
    let mut s = "https://api.adoptium.net/v3/binary/latest/17/ga/".to_owned();
    s.append(os_name);
    s.append("/");
    s.append(arch_name);
    s.append("/jdk/hotspot/normal/eclipse");
    s
}

} // verus!
