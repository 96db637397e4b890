//! A list given per platform, with a common fallback.
use vstd::prelude::*;
use vstd::string::*;

use crate::text::opt_views;
use crate::util::platform_specific::{pick, Platform};

verus! {

/// A list of strings for every platform, with a common (`main`) one.
#[derive(Debug, PartialEq)]
pub struct PlatformSpecific {
    main: Option<Vec<String>>,
    linux: Option<Vec<String>>,
    windows: Option<Vec<String>>,
    macos: Option<Vec<String>>,
}

/// The value a [PlatformSpecific] stands for.
pub struct PlatformSpecificView {
    pub main: Option<Seq<Seq<char>>>,
    pub linux: Option<Seq<Seq<char>>>,
    pub windows: Option<Seq<Seq<char>>>,
    pub macos: Option<Seq<Seq<char>>>,
}

impl View for PlatformSpecific {
    type V = PlatformSpecificView;

    closed spec fn view(&self) -> PlatformSpecificView {
        PlatformSpecificView {
            main: opt_views(self.main),
            linux: opt_views(self.linux),
            windows: opt_views(self.windows),
            macos: opt_views(self.macos),
        }
    }
}

/// The message for a platform that has no list.
pub open spec fn unsupported(platform: Platform) -> Seq<char> {
    match platform {
        Platform::Linux => "not supported on linux"@,
        Platform::Windows => "not supported on windows"@,
        Platform::MacOS => "not supported on macOS"@,
    }
}

/// The note that only one platform has a list (and there is no common one).
pub open spec fn support_text(p: PlatformSpecificView) -> Option<Seq<char>> {
    match (p.linux, p.windows, p.macos, p.main) {
        (Some(_), None, None, None) => Some("linux only"@),
        (None, Some(_), None, None) => Some("windows only"@),
        (None, None, Some(_), None) => Some("macOS only"@),
        _ => None,
    }
}

impl PlatformSpecific {
    pub fn new(
        main: Option<Vec<String>>,
        linux: Option<Vec<String>>,
        windows: Option<Vec<String>>,
        macos: Option<Vec<String>>,
    ) -> (r: Self)
        ensures
            r@ == (PlatformSpecificView {
                main: opt_views(main),
                linux: opt_views(linux),
                windows: opt_views(windows),
                macos: opt_views(macos),
            }),
    {
        Self { main, linux, windows, macos }
    }

    /// The list for `platform`: its own one, else the common one.
    pub fn get_list(self, platform: Platform) -> (r: Result<Vec<String>, String>)
        ensures
            match (r, pick(platform, self@.main, self@.linux, self@.windows, self@.macos)) {
                (Ok(v), Some(w)) => v.deep_view() == w,
                (Err(e), None) => e@ == unsupported(platform),
                _ => false,
            },
    {
        let own = match platform {
            Platform::Linux => self.linux,
            Platform::Windows => self.windows,
            Platform::MacOS => self.macos,
        };
        match own {
            Some(v) => Ok(v),
            None => match self.main {
                Some(v) => Ok(v),
                None => Err(
                    match platform {
                        Platform::Linux => String::from_str("not supported on linux"),
                        Platform::Windows => String::from_str("not supported on windows"),
                        Platform::MacOS => String::from_str("not supported on macOS"),
                    },
                ),
            },
        }
    }

    /// "linux only", "windows only" or "macOS only" when just that platform
    /// has a list.
    pub fn get_platform_support_text(&self) -> (r: Option<String>)
        ensures
            match (r, support_text(self@)) {
                (Some(s), Some(t)) => s@ == t,
                (None, None) => true,
                _ => false,
            },
    {
        match (&self.linux, &self.windows, &self.macos, &self.main) {
            (Some(_), None, None, None) => Some(String::from_str("linux only")),
            (None, Some(_), None, None) => Some(String::from_str("windows only")),
            (None, None, Some(_), None) => Some(String::from_str("macOS only")),
            _ => None,
        }
    }
}

} // verus!
