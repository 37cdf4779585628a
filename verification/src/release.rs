//! Where the editor extension finds the language server binary: release
//! asset names per platform and the version-stamped install path.

use vstd::prelude::*;

use crate::text::{append_str, str_eq, to_owned_string};

verus! {

/// The operating system the editor runs on.
#[derive(Debug, Clone, Copy, PartialEq, Eq, Structural)]
pub enum Os {
    Mac,
    Linux,
    Windows,
}

/// The processor architecture the editor runs on.
#[derive(Debug, Clone, Copy, PartialEq, Eq, Structural)]
pub enum Architecture {
    Aarch64,
    X8664,
    X86,
}

/// The (os, arch) suffix of release asset names: `darwin` / `linux` and
/// `arm64` / `x64`; Windows and 32-bit x86 are refused with a message.
pub open spec fn asset_suffix(os: Os, arch: Architecture) -> Result<(Seq<char>, Seq<char>), Seq<char>> {
    match os {
        Os::Windows => Err("Objective-C development is not supported on Windows"@),
        _ => match arch {
            Architecture::X86 => Err("32-bit x86 is not supported"@),
            _ => Ok(
                (
                    if os == Os::Mac {
                        "darwin"@
                    } else {
                        "linux"@
                    },
                    if arch == Architecture::Aarch64 {
                        "arm64"@
                    } else {
                        "x64"@
                    },
                ),
            ),
        },
    }
}

/// The (os, arch) suffix of release asset names for a platform.
pub fn platform_asset_suffix(os: Os, arch: Architecture) -> (r: Result<(&'static str, &'static str), String>)
    ensures
        match (r, asset_suffix(os, arch)) {
            (Ok((a, b)), Ok((x, y))) => a@ == x && b@ == y,
            (Err(e), Err(m)) => e@ == m,
            _ => false,
        },
{
    let os_str = match os {
        Os::Mac => "darwin",
        Os::Linux => "linux",
        Os::Windows => {
            return Err(to_owned_string("Objective-C development is not supported on Windows"));
        },
    };
    let arch_str = match arch {
        Architecture::Aarch64 => "arm64",
        Architecture::X8664 => "x64",
        Architecture::X86 => {
            return Err(to_owned_string("32-bit x86 is not supported"));
        },
    };
    Ok((os_str, arch_str))
}

/// `objc-lsp-{os}-{arch}`, the asset of the platform.
pub fn asset_name(os: Os, arch: Architecture) -> (r: Result<String, String>)
    ensures
        match (r, asset_suffix(os, arch)) {
            (Ok(n), Ok((x, y))) => n@ == "objc-lsp-"@ + x + "-"@ + y,
            (Err(e), Err(m)) => e@ == m,
            _ => false,
        },
{
    match platform_asset_suffix(os, arch) {
        Ok((o, a)) => {
            let mut n = to_owned_string("objc-lsp-");
            append_str(&mut n, o);
            append_str(&mut n, "-");
            append_str(&mut n, a);
            Ok(n)
        },
        Err(e) => Err(e),
    }
}

/// `objc-lsp-{version}/objc-lsp`, where a release's binary is installed.
pub fn release_binary_path(version: &str) -> (r: String)
    ensures
        r@ == "objc-lsp-"@ + version@ + "/objc-lsp"@,
{
    let mut p = to_owned_string("objc-lsp-");
    append_str(&mut p, version);
    append_str(&mut p, "/objc-lsp");
    p
}

/// The index of the first asset named `name` among a release's assets.
pub fn find_asset(assets: &Vec<String>, name: &str) -> (r: Option<usize>)
    ensures
        match r {
            Some(i) => i < assets.len() && assets@[i as int]@ == name@ && forall|j: int|
                0 <= j < i ==> assets@[j]@ != name@,
            None => forall|j: int| 0 <= j < assets.len() ==> assets@[j]@ != name@,
        },
{
    let mut i: usize = 0;
    while i < assets.len()
        invariant
            i <= assets.len(),
            forall|j: int| 0 <= j < i ==> assets@[j]@ != name@,
        decreases assets.len() - i,
    {
        if str_eq(assets[i].as_str(), name) {
            return Some(i);
        }
        i = i + 1;
    }
    None
}

/// The message when a release has no asset for the platform.
pub fn missing_asset_message(name: &str, version: &str) -> (r: String)
    ensures
        r@ == "No binary asset '"@ + name@ + "' found in release "@ + version@,
{
    let mut m = to_owned_string("No binary asset '");
    append_str(&mut m, name);
    append_str(&mut m, "' found in release ");
    append_str(&mut m, version);
    m
}

} // verus!
