//! Platform selection for the tunnel client binary, and the request
//! policy for the API hosts the launcher may talk to.

use vstd::prelude::*;

use crate::text::chars_of;
use crate::text::chars_eq;
use crate::text::str_eq;
use crate::text::sub_vec;

verus! {

/// The download artifact name for a supported platform.
pub open spec fn spec_platform_string(os: Seq<char>, arch: Seq<char>) -> Option<Seq<char>> {
    if os == "windows"@ && arch == "x86_64"@ {
        Some("win_amd64.exe"@)
    } else if os == "windows"@ && arch == "x86"@ {
        Some("win_386.exe"@)
    } else if os == "windows"@ && arch == "aarch64"@ {
        Some("win_arm64.exe"@)
    } else if os == "linux"@ && arch == "x86"@ {
        Some("linux_386"@)
    } else if os == "linux"@ && arch == "x86_64"@ {
        Some("linux_amd64"@)
    } else if os == "linux"@ && arch == "arm"@ {
        Some("linux_arm"@)
    } else if os == "linux"@ && arch == "aarch64"@ {
        Some("linux_arm64"@)
    } else if os == "linux"@ && arch == "mips64"@ {
        Some("linux_mips64"@)
    } else if os == "linux"@ && arch == "mips"@ {
        Some("linux_mips"@)
    } else if os == "linux"@ && arch == "riscv64"@ {
        Some("linux_riscv64"@)
    } else if os == "macos"@ && arch == "x86_64"@ {
        Some("darwin_amd64"@)
    } else if os == "macos"@ && arch == "aarch64"@ {
        Some("darwin_arm64"@)
    } else {
        None
    }
}

/// Looks up the download artifact name for an operating system and
/// architecture pair.
pub fn get_platform_string(os: &str, arch: &str) -> (r: Option<&'static str>)
    ensures
        match r {
            Some(p) => spec_platform_string(os@, arch@) == Some(p@),
            None => spec_platform_string(os@, arch@) is None,
        },
{
    if str_eq(os, "windows") && str_eq(arch, "x86_64") {
        Some("win_amd64.exe")
    } else if str_eq(os, "windows") && str_eq(arch, "x86") {
        Some("win_386.exe")
    } else if str_eq(os, "windows") && str_eq(arch, "aarch64") {
        Some("win_arm64.exe")
    } else if str_eq(os, "linux") && str_eq(arch, "x86") {
        Some("linux_386")
    } else if str_eq(os, "linux") && str_eq(arch, "x86_64") {
        Some("linux_amd64")
    } else if str_eq(os, "linux") && str_eq(arch, "arm") {
        Some("linux_arm")
    } else if str_eq(os, "linux") && str_eq(arch, "aarch64") {
        Some("linux_arm64")
    } else if str_eq(os, "linux") && str_eq(arch, "mips64") {
        Some("linux_mips64")
    } else if str_eq(os, "linux") && str_eq(arch, "mips") {
        Some("linux_mips")
    } else if str_eq(os, "linux") && str_eq(arch, "riscv64") {
        Some("linux_riscv64")
    } else if str_eq(os, "macos") && str_eq(arch, "x86_64") {
        Some("darwin_amd64")
    } else if str_eq(os, "macos") && str_eq(arch, "aarch64") {
        Some("darwin_arm64")
    } else {
        None
    }
}

/// Whether a published download's architecture tag fits the running
/// platform.
pub open spec fn spec_matches_arch(os: Seq<char>, arch: Seq<char>, download_arch: Seq<char>) -> bool {
    if os == "windows"@ && arch == "x86_64"@ {
        download_arch == "x86_64"@
    } else if os == "windows"@ && arch == "x86"@ {
        download_arch == "x86"@
    } else if os == "windows"@ && arch == "aarch64"@ {
        download_arch == "aarch64"@
    } else if os == "linux"@ && arch == "x86"@ {
        download_arch == "x86"@
    } else if os == "linux"@ && arch == "x86_64"@ {
        download_arch == "x86_64"@
    } else if os == "linux"@ && arch == "arm"@ {
        download_arch == "arm"@
    } else if os == "linux"@ && arch == "aarch64"@ {
        download_arch == "aarch64"@ || download_arch == "arm"@
    } else if os == "linux"@ && arch == "mips64"@ {
        download_arch == "mips64"@
    } else if os == "linux"@ && arch == "mips"@ {
        download_arch == "mips"@
    } else if os == "linux"@ && arch == "riscv64"@ {
        download_arch == "riscv64"@
    } else if os == "macos"@ && arch == "x86_64"@ {
        download_arch == "x86_64"@
    } else if os == "macos"@ && arch == "aarch64"@ {
        download_arch == "aarch64"@
    } else {
        false
    }
}

/// Checks whether a published download's architecture tag fits the
/// running platform.
pub fn matches_arch(os: &str, arch: &str, download_arch: &str) -> (r: bool)
    ensures
        r == spec_matches_arch(os@, arch@, download_arch@),
{
    if str_eq(os, "windows") && str_eq(arch, "x86_64") {
        str_eq(download_arch, "x86_64")
    } else if str_eq(os, "windows") && str_eq(arch, "x86") {
        str_eq(download_arch, "x86")
    } else if str_eq(os, "windows") && str_eq(arch, "aarch64") {
        str_eq(download_arch, "aarch64")
    } else if str_eq(os, "linux") && str_eq(arch, "x86") {
        str_eq(download_arch, "x86")
    } else if str_eq(os, "linux") && str_eq(arch, "x86_64") {
        str_eq(download_arch, "x86_64")
    } else if str_eq(os, "linux") && str_eq(arch, "arm") {
        str_eq(download_arch, "arm")
    } else if str_eq(os, "linux") && str_eq(arch, "aarch64") {
        str_eq(download_arch, "aarch64") || str_eq(download_arch, "arm")
    } else if str_eq(os, "linux") && str_eq(arch, "mips64") {
        str_eq(download_arch, "mips64")
    } else if str_eq(os, "linux") && str_eq(arch, "mips") {
        str_eq(download_arch, "mips")
    } else if str_eq(os, "linux") && str_eq(arch, "riscv64") {
        str_eq(download_arch, "riscv64")
    } else if str_eq(os, "macos") && str_eq(arch, "x86_64") {
        str_eq(download_arch, "x86_64")
    } else if str_eq(os, "macos") && str_eq(arch, "aarch64") {
        str_eq(download_arch, "aarch64")
    } else {
        false
    }
}

/// `suf` is a suffix of `s`.
pub open spec fn suffix_of(s: Seq<char>, suf: Seq<char>) -> bool {
    s.len() >= suf.len() && s.subrange(s.len() - suf.len(), s.len() as int) == suf
}

fn ends_with_str(s: &str, suf: &str) -> (r: bool)
    ensures
        r == suffix_of(s@, suf@),
{
    let v = chars_of(s);
    let t = chars_of(suf);
    if t.len() > v.len() {
        return false;
    }
    let tail = sub_vec(&v, v.len() - t.len(), v.len());
    chars_eq(&tail, &t)
}

/// The API hosts that in-app requests may target.
pub open spec fn spec_allowed_host(host: Seq<char>) -> bool {
    host == "cf-v2.uapis.cn"@ || host == "cf-v1.uapis.cn"@ || suffix_of(host, ".uapis.cn"@) || host
        == "chmlfrp.net"@ || suffix_of(host, ".chmlfrp.net"@)
}

/// Checks a request host against the fixed allow list.
pub fn is_allowed_host(host: &str) -> (r: bool)
    ensures
        r == spec_allowed_host(host@),
{
    str_eq(host, "cf-v2.uapis.cn") || str_eq(host, "cf-v1.uapis.cn") || ends_with_str(
        host,
        ".uapis.cn",
    ) || str_eq(host, "chmlfrp.net") || ends_with_str(host, ".chmlfrp.net")
}

/// A rejected in-app request URL.
#[derive(Clone, Copy, Debug, PartialEq, Eq, Structural)]
pub enum UrlError {
    /// Only https requests are allowed.
    NotHttps,
    /// The URL must not carry credentials.
    HasCredentials,
    /// The URL has no host.
    MissingHost,
    /// The host is outside the allow list.
    HostNotAllowed,
}

/// The request policy: https only, no credentials, a host on the allow
/// list.  The caller parses the URL and hands its parts in.
pub fn validate_request_url_parts(
    scheme: &str,
    username: &str,
    has_password: bool,
    host: Option<&str>,
) -> (r: Result<(), UrlError>)
    ensures
        match r {
            Ok(_) => {
                &&& scheme@ == "https"@
                &&& username@.len() == 0
                &&& !has_password
                &&& host is Some
                &&& spec_allowed_host(host->Some_0@)
            },
            Err(UrlError::NotHttps) => scheme@ != "https"@,
            Err(UrlError::HasCredentials) => scheme@ == "https"@ && (username@.len() != 0
                || has_password),
            Err(UrlError::MissingHost) => scheme@ == "https"@ && username@.len() == 0
                && !has_password && host is None,
            Err(UrlError::HostNotAllowed) => {
                &&& scheme@ == "https"@
                &&& username@.len() == 0
                &&& !has_password
                &&& host is Some
                &&& !spec_allowed_host(host->Some_0@)
            },
        },
{
    if !str_eq(scheme, "https") {
        return Err(UrlError::NotHttps);
    }
    if !username.is_empty() || has_password {
        return Err(UrlError::HasCredentials);
    }
    match host {
        None => Err(UrlError::MissingHost),
        Some(h) => {
            if is_allowed_host(h) {
                Ok(())
            } else {
                Err(UrlError::HostNotAllowed)
            }
        },
    }
}

} // verus!
