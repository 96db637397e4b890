//! Choosing what applies on the operating system at hand.
use vstd::prelude::*;

verus! {

/// The operating systems that a bakefile can single out.
#[derive(Debug, Clone, Copy, PartialEq, Eq, Structural)]
pub enum Platform {
    Linux,
    Windows,
    MacOS,
}

/// The platform's own entry where it has one, else the common entry.
pub open spec fn pick<T>(
    platform: Platform,
    common: Option<T>,
    linux: Option<T>,
    windows: Option<T>,
    macos: Option<T>,
) -> Option<T> {
    let own = match platform {
        Platform::Linux => linux,
        Platform::Windows => windows,
        Platform::MacOS => macos,
    };
    if own is Some {
        own
    } else {
        common
    }
}

/// The entry that applies on `platform`: its own one, else the common one.
pub fn platform_specific<'a, T>(
    platform: Platform,
    common: Option<&'a T>,
    linux: Option<&'a T>,
    windows: Option<&'a T>,
    macos: Option<&'a T>,
) -> (r: Option<&'a T>)
    ensures
        r == pick(platform, common, linux, windows, macos),
{
    let own = match platform {
        Platform::Linux => linux,
        Platform::Windows => windows,
        Platform::MacOS => macos,
    };
    match own {
        Some(s) => Some(s),
        None => common,
    }
}

/// The name of a platform, as messages show it.
pub open spec fn platform_name(platform: Platform) -> Seq<char> {
    match platform {
        Platform::Linux => "Linux"@,
        Platform::Windows => "Windows"@,
        Platform::MacOS => "MacOS"@,
    }
}

/// The name of a platform, as messages show it.
pub fn get_platform_name(platform: Platform) -> (r: &'static str)
    ensures
        r@ == platform_name(platform),
{
    match platform {
        Platform::Linux => "Linux",
        Platform::Windows => "Windows",
        Platform::MacOS => "MacOS",
    }
}

} // verus!
