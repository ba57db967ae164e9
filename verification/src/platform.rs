//! Operating-system detection and locating an installed Photoshop.
use vstd::prelude::*;
use crate::text::{chars_eq, chars_of};

verus! {

/// The operating systems the application knows.
#[derive(Debug, Clone, Copy, PartialEq, Eq, Structural)]
pub enum Platform {
    Windows10,
    MacOS,
    Linux,
    Unknown,
}

/// The platform of a build whose target OS name (as `std::env::consts::OS`
/// gives it) is `os`.
pub open spec fn platform_of(os: Seq<char>) -> Platform {
    if os == "windows"@ {
        Platform::Windows10
    } else if os == "macos"@ {
        Platform::MacOS
    } else if os == "linux"@ {
        Platform::Linux
    } else {
        Platform::Unknown
    }
}

fn str_is(s: &str, t: &str) -> (b: bool)
    ensures
        b == (s@ == t@),
{
    chars_eq(&chars_of(s), &chars_of(t))
}

impl Platform {
    /// The platform of a build for the target OS named `os`.
    pub fn current(os: &str) -> (p: Platform)
        ensures
            p == platform_of(os@),
    {
        if str_is(os, "windows") {
            Platform::Windows10
        } else if str_is(os, "macos") {
            Platform::MacOS
        } else if str_is(os, "linux") {
            Platform::Linux
        } else {
            Platform::Unknown
        }
    }

    /// Whether this is Windows.
    pub fn is_windows(&self) -> (b: bool)
        ensures
            b == (*self == Platform::Windows10),
    {
        match self {
            Platform::Windows10 => true,
            _ => false,
        }
    }

    /// Whether this is macOS.
    pub fn is_macos(&self) -> (b: bool)
        ensures
            b == (*self == Platform::MacOS),
    {
        match self {
            Platform::MacOS => true,
            _ => false,
        }
    }
}

/// Where Photoshop is looked for on Windows, newest first.
pub const WINDOWS_PS_CANDIDATES: [&'static str; 3] = [
    "C:\\Program Files\\Adobe\\Adobe Photoshop 2026\\Photoshop.exe",
    "C:\\Program Files\\Adobe\\Adobe Photoshop 2025\\Photoshop.exe",
    "C:\\Program Files\\Adobe\\Adobe Photoshop 2024\\Photoshop.exe",
];

/// Where Photoshop is looked for on macOS, newest first.
pub const MACOS_PS_CANDIDATES: [&'static str; 3] = [
    "/Applications/Adobe Photoshop 2026/Adobe Photoshop 2026.app",
    "/Applications/Adobe Photoshop 2025/Adobe Photoshop 2025.app",
    "/Applications/Adobe Photoshop 2024/Adobe Photoshop 2024.app",
];

/// Whether candidate `i` was found: `exists` tells, for each candidate in
/// order, whether that path exists; candidates it does not cover count as
/// missing.
pub open spec fn found(exists: Seq<bool>, i: int) -> bool {
    i < exists.len() && exists[i]
}

/// The first candidate that was found.
pub open spec fn first_found(cands: Seq<&'static str>, exists: Seq<bool>) -> Option<Seq<char>> {
    match crate::text::first_where(Seq::new(cands.len(), |i: int| found(exists, i)), |b: bool| b) {
        Some(i) => Some(cands[i]@),
        None => None,
    }
}

fn first_found_exec(cands: &[&'static str], exists: &Vec<bool>) -> (r: Option<String>)
    ensures
        match r {
            Some(s) => first_found(cands@, exists@) == Some(s@),
            None => first_found(cands@, exists@) is None,
        },
{
    let ghost flags = Seq::new(cands@.len(), |i: int| found(exists@, i));
    let ghost p = |b: bool| b;
    let n = cands.len();
    for i in 0..n
        invariant
            n == cands@.len(),
            flags == Seq::new(cands@.len(), |i: int| found(exists@, i)),
            p == (|b: bool| b),
            forall|j: int| 0 <= j < i ==> !p(#[trigger] flags[j]),
    {
        if i < exists.len() && exists[i] {
            proof {
                crate::text::lemma_first_where_found(flags, p, i as int);
            }
            return Some(cands[i].to_string());
        }
    }
    proof {
        crate::text::lemma_first_where_none(flags, p);
    }
    None
}

/// The first Windows install location found; `exists` tells which of
/// `WINDOWS_PS_CANDIDATES` exist.
pub fn detect_ps_windows(exists: &Vec<bool>) -> (r: Option<String>)
    ensures
        match r {
            Some(s) => first_found(WINDOWS_PS_CANDIDATES@, exists@) == Some(s@),
            None => first_found(WINDOWS_PS_CANDIDATES@, exists@) is None,
        },
{
    first_found_exec(&WINDOWS_PS_CANDIDATES, exists)
}

/// The first macOS install location found; `exists` tells which of
/// `MACOS_PS_CANDIDATES` exist.
pub fn detect_ps_macos(exists: &Vec<bool>) -> (r: Option<String>)
    ensures
        match r {
            Some(s) => first_found(MACOS_PS_CANDIDATES@, exists@) == Some(s@),
            None => first_found(MACOS_PS_CANDIDATES@, exists@) is None,
        },
{
    first_found_exec(&MACOS_PS_CANDIDATES, exists)
}

/// What is known of the Photoshop installation.
pub struct PhotoshopInfo {
    pub version: Option<String>,
    pub install_path: Option<String>,
    pub detected: bool,
}

/// The install location of Photoshop 2026 (version 27.0 and later) on a
/// platform: the first candidate of Windows or macOS, when it exists; other
/// platforms, and older versions found at the later candidates, give none.
pub open spec fn ps_location(platform: Platform, exists: Seq<bool>) -> Option<Seq<char>> {
    match platform {
        Platform::Windows10 => if found(exists, 0) {
            Some(WINDOWS_PS_CANDIDATES@[0]@)
        } else {
            None
        },
        Platform::MacOS => if found(exists, 0) {
            Some(MACOS_PS_CANDIDATES@[0]@)
        } else {
            None
        },
        _ => None,
    }
}

/// The candidate install locations of a platform, in search order.
pub open spec fn ps_candidates(platform: Platform) -> Seq<&'static str> {
    match platform {
        Platform::Windows10 => WINDOWS_PS_CANDIDATES@,
        Platform::MacOS => MACOS_PS_CANDIDATES@,
        _ => Seq::empty(),
    }
}

impl PhotoshopInfo {
    /// Where to look for Photoshop on `platform`, in search order.
    pub fn candidates(platform: Platform) -> (v: Vec<&'static str>)
        ensures
            v@ == ps_candidates(platform),
    {
        let mut v: Vec<&'static str> = Vec::new();
        match platform {
            Platform::Windows10 => {
                v.push(WINDOWS_PS_CANDIDATES[0]);
                v.push(WINDOWS_PS_CANDIDATES[1]);
                v.push(WINDOWS_PS_CANDIDATES[2]);
            },
            Platform::MacOS => {
                v.push(MACOS_PS_CANDIDATES[0]);
                v.push(MACOS_PS_CANDIDATES[1]);
                v.push(MACOS_PS_CANDIDATES[2]);
            },
            _ => {},
        }
        assert(v@ =~= ps_candidates(platform));
        v
    }

    /// Whether Photoshop 2026 (version 27.0 and later) is installed on
    /// `platform`, given which of its candidate locations exist (`exists[i]`
    /// for `candidates(platform)[i]`). Only the 2026 location, the first
    /// candidate, counts: then it is the install path, with version "27.0+";
    /// otherwise nothing is detected.
    pub fn detect(platform: Platform, exists: &Vec<bool>) -> (info: PhotoshopInfo)
        ensures
            match ps_location(platform, exists@) {
                Some(p) => {
                    &&& info.detected
                    &&& info.install_path matches Some(s) && s@ == p
                    &&& info.version matches Some(v) && v@ == "27.0+"@
                },
                None => !info.detected && info.install_path is None && info.version is None,
            },
    {
        let has_2026 = exists.len() > 0 && exists[0];
        let found: Option<String> = if !has_2026 {
            None
        } else {
            match platform {
                Platform::Windows10 => Some(WINDOWS_PS_CANDIDATES[0].to_string()),
                Platform::MacOS => Some(MACOS_PS_CANDIDATES[0].to_string()),
                _ => None,
            }
        };
        match found {
            Some(path) => PhotoshopInfo {
                version: Some("27.0+".to_string()),
                install_path: Some(path),
                detected: true,
            },
            None => PhotoshopInfo { version: None, install_path: None, detected: false },
        }
    }
}

} // verus!
