//! `nimesvc update`: which release asset to install, decided from the
//! latest release's tag and assets and the platform the tool runs on.

use vstd::prelude::*;

use crate::generators::rust::util::{trim_start_char};
use crate::text::{chars_of, str_eq, string_of_range, views};

verus! {

/// The GitHub API address of a repository's latest release.
pub open spec fn spec_release_url(repo: Seq<char>) -> Seq<char> {
    "https://api.github.com/repos/"@ + repo + "/releases/latest"@
}

pub fn release_url(repo: &str) -> (r: String)
    ensures
        r@ == spec_release_url(repo@),
{
    let mut s = String::from_str("https://api.github.com/repos/");
    s.append(repo);
    s.append("/releases/latest");
    s
}

/// A release's version: its tag without the leading `v`s.
pub open spec fn spec_release_version(tag: Seq<char>) -> Seq<char> {
    trim_start_char(tag, 'v')
}

pub fn release_version(tag: &str) -> (r: String)
    ensures
        r@ == spec_release_version(tag@),
{
    let cs = chars_of(tag);
    let mut i: usize = 0;
    assert(cs@.skip(0) =~= cs@);
    while i < cs.len() && cs[i] == 'v'
        invariant
            0 <= i <= cs@.len(),
            cs@ == tag@,
            trim_start_char(cs@, 'v') == trim_start_char(cs@.skip(i as int), 'v'),
        decreases cs@.len() - i,
    {
        assert(cs@.skip(i as int).drop_first() =~= cs@.skip(i + 1));
        i += 1;
    }
    let r = string_of_range(&cs, i, cs.len());
    assert(r@ =~= cs@.skip(i as int));
    r
}

/// The release asset built for an operating system and architecture, as
/// Rust names them; none for a platform without a build.
pub open spec fn spec_target_asset(os: Seq<char>, arch: Seq<char>) -> Option<Seq<char>> {
    if os == "macos"@ && arch == "aarch64"@ {
        Some("nimesvc-macos-arm64"@)
    } else if os == "macos"@ && arch == "x86_64"@ {
        Some("nimesvc-macos-x64"@)
    } else if os == "linux"@ && arch == "x86_64"@ {
        Some("nimesvc-linux-x64"@)
    } else if os == "linux"@ && arch == "aarch64"@ {
        Some("nimesvc-linux-arm64"@)
    } else if os == "windows"@ && arch == "x86_64"@ {
        Some("nimesvc-windows-x64.exe"@)
    } else {
        None
    }
}

/// How release assets name an architecture.
pub open spec fn asset_arch(arch: Seq<char>) -> Seq<char> {
    if arch == "aarch64"@ {
        "arm64"@
    } else {
        "x64"@
    }
}

/// The platforms a release is built for: macOS and Linux on ARM and
/// x86-64, Windows on x86-64.
pub open spec fn is_released_platform(os: Seq<char>, arch: Seq<char>) -> bool {
    ||| (os == "macos"@ || os == "linux"@) && (arch == "aarch64"@ || arch == "x86_64"@)
    ||| os == "windows"@ && arch == "x86_64"@
}

/// A platform gets an asset exactly when a release is built for it, and
/// that asset is named after the platform's own system and architecture
/// (`.exe` on Windows).
pub proof fn law_asset_names_its_platform(os: Seq<char>, arch: Seq<char>)
    ensures
        spec_target_asset(os, arch) is Some <==> is_released_platform(os, arch),
        is_released_platform(os, arch) ==> spec_target_asset(os, arch) == Some(
            "nimesvc-"@ + os + "-"@ + asset_arch(arch) + if os == "windows"@ {
                ".exe"@
            } else {
                Seq::empty()
            },
        ),
{
    reveal_strlit("macos");
    reveal_strlit("linux");
    reveal_strlit("windows");
    reveal_strlit("aarch64");
    reveal_strlit("x86_64");
    reveal_strlit("arm64");
    reveal_strlit("x64");
    reveal_strlit("nimesvc-");
    reveal_strlit("-");
    reveal_strlit(".exe");
    reveal_strlit("nimesvc-macos-arm64");
    reveal_strlit("nimesvc-macos-x64");
    reveal_strlit("nimesvc-linux-x64");
    reveal_strlit("nimesvc-linux-arm64");
    reveal_strlit("nimesvc-windows-x64.exe");
    assert("macos"@[0] == 'm' && "linux"@[0] == 'l' && "windows"@.len() == 7);
    assert("aarch64"@[0] == 'a' && "x86_64"@[0] == 'x');
    if is_released_platform(os, arch) {
        let name = "nimesvc-"@ + os + "-"@ + asset_arch(arch) + if os == "windows"@ {
            ".exe"@
        } else {
            Seq::empty()
        };
        assert(spec_target_asset(os, arch)->0 =~= name);
    }
}

/// Distinct platforms never share an asset.
pub proof fn law_assets_are_distinct(os1: Seq<char>, arch1: Seq<char>, os2: Seq<char>, arch2: Seq<char>)
    requires
        spec_target_asset(os1, arch1) is Some,
        spec_target_asset(os1, arch1) == spec_target_asset(os2, arch2),
    ensures
        os1 == os2,
        arch1 == arch2,
{
    reveal_strlit("macos");
    reveal_strlit("linux");
    reveal_strlit("windows");
    reveal_strlit("aarch64");
    reveal_strlit("x86_64");
    reveal_strlit("nimesvc-macos-arm64");
    reveal_strlit("nimesvc-macos-x64");
    reveal_strlit("nimesvc-linux-x64");
    reveal_strlit("nimesvc-linux-arm64");
    reveal_strlit("nimesvc-windows-x64.exe");
    let a = spec_target_asset(os1, arch1)->0;
    assert(a.len() == 17 || a.len() == 19 || a.len() == 23);
    assert(a[8] == 'm' || a[8] == 'l' || a[8] == 'w');
}

pub fn target_asset(os: &str, arch: &str) -> (r: Option<String>)
    ensures
        match r {
            Some(a) => spec_target_asset(os@, arch@) == Some(a@),
            None => spec_target_asset(os@, arch@) is None,
        },
{
    if str_eq(os, "macos") && str_eq(arch, "aarch64") {
        Some(String::from_str("nimesvc-macos-arm64"))
    } else if str_eq(os, "macos") && str_eq(arch, "x86_64") {
        Some(String::from_str("nimesvc-macos-x64"))
    } else if str_eq(os, "linux") && str_eq(arch, "x86_64") {
        Some(String::from_str("nimesvc-linux-x64"))
    } else if str_eq(os, "linux") && str_eq(arch, "aarch64") {
        Some(String::from_str("nimesvc-linux-arm64"))
    } else if str_eq(os, "windows") && str_eq(arch, "x86_64") {
        Some(String::from_str("nimesvc-windows-x64.exe"))
    } else {
        None
    }
}

/// The name the tool is installed under.
pub open spec fn spec_binary_name(windows: bool) -> Seq<char> {
    if windows {
        "nimesvc.exe"@
    } else {
        "nimesvc"@
    }
}

pub fn binary_name(windows: bool) -> (r: String)
    ensures
        r@ == spec_binary_name(windows),
{
    if windows {
        String::from_str("nimesvc.exe")
    } else {
        String::from_str("nimesvc")
    }
}

/// What to do about the latest release.
#[derive(Debug, PartialEq, Eq, Structural)]
pub enum UpdateStep {
    /// The installed version is the latest one.
    UpToDate,
    /// No asset is built for this platform.
    Unsupported,
    /// The release has no asset for this platform.
    MissingAsset,
    /// Download the asset at this index of the release's assets.
    Download(usize),
}

/// The first asset, from `n` on, with this name.
pub open spec fn first_asset(names: Seq<Seq<char>>, name: Seq<char>, n: int) -> int
    decreases names.len() - n,
    when 0 <= n <= names.len()
{
    if n == names.len() {
        -1
    } else if names[n] == name {
        n
    } else {
        first_asset(names, name, n + 1)
    }
}

/// Up to date when the release's version is the installed one; else the
/// first asset named for this platform, if the platform has a build and
/// the release has that asset.
pub open spec fn spec_plan_update(
    current: Seq<char>,
    tag: Seq<char>,
    os: Seq<char>,
    arch: Seq<char>,
    names: Seq<Seq<char>>,
) -> UpdateStep {
    if spec_release_version(tag) == current {
        UpdateStep::UpToDate
    } else {
        match spec_target_asset(os, arch) {
            None => UpdateStep::Unsupported,
            Some(a) => {
                let i = first_asset(names, a, 0);
                if i < 0 {
                    UpdateStep::MissingAsset
                } else {
                    UpdateStep::Download(i as usize)
                }
            },
        }
    }
}

pub fn plan_update(current: &str, tag: &str, os: &str, arch: &str, asset_names: &Vec<String>) -> (r: UpdateStep)
    ensures
        r == spec_plan_update(current@, tag@, os@, arch@, views(asset_names@)),
{
    let version = release_version(tag);
    if str_eq(version.as_str(), current) {
        return UpdateStep::UpToDate;
    }
    let asset = match target_asset(os, arch) {
        None => {
            return UpdateStep::Unsupported;
        },
        Some(a) => a,
    };
    let ghost names = views(asset_names@);
    let mut i: usize = 0;
    while i < asset_names.len()
        invariant
            0 <= i <= asset_names@.len(),
            names == views(asset_names@),
            spec_release_version(tag@) != current@,
            spec_target_asset(os@, arch@) == Some(asset@),
            first_asset(names, asset@, 0) == first_asset(names, asset@, i as int),
        decreases asset_names@.len() - i,
    {
        assert(names[i as int] == asset_names@[i as int]@);
        if str_eq(asset_names[i].as_str(), asset.as_str()) {
            assert(names.len() == asset_names@.len());
            assert(first_asset(names, asset@, i as int) == i as int);
            return UpdateStep::Download(i);
        }
        i += 1;
    }
    UpdateStep::MissingAsset
}

/// What the command prints, or fails with, when there is nothing to
/// install: `Already up to date (1.2.0).`, `Unsupported target: plan9
/// x86_64`, `No asset 'nimesvc-linux-x64' found in release v1.3.0`.
pub open spec fn spec_update_message(
    step: UpdateStep,
    current: Seq<char>,
    tag: Seq<char>,
    os: Seq<char>,
    arch: Seq<char>,
) -> Option<Seq<char>> {
    match step {
        UpdateStep::UpToDate => Some("Already up to date ("@ + current + ")."@),
        UpdateStep::Unsupported => Some("Unsupported target: "@ + os + " "@ + arch),
        UpdateStep::MissingAsset => match spec_target_asset(os, arch) {
            Some(a) => Some("No asset '"@ + a + "' found in release "@ + tag),
            None => Some("No asset '' found in release "@ + tag),
        },
        UpdateStep::Download(_) => None,
    }
}

pub fn update_message(step: &UpdateStep, current: &str, tag: &str, os: &str, arch: &str) -> (r: Option<String>)
    ensures
        match r {
            Some(m) => spec_update_message(*step, current@, tag@, os@, arch@) == Some(m@),
            None => spec_update_message(*step, current@, tag@, os@, arch@) is None,
        },
{
    match step {
        UpdateStep::UpToDate => {
            let mut s = String::from_str("Already up to date (");
            s.append(current);
            s.append(").");
            Some(s)
        },
        UpdateStep::Unsupported => {
            let mut s = String::from_str("Unsupported target: ");
            s.append(os);
            s.append(" ");
            s.append(arch);
            Some(s)
        },
        UpdateStep::MissingAsset => {
            let mut s = String::from_str("No asset '");
            let t = target_asset(os, arch);
            match &t {
                Some(a) => s.append(a.as_str()),
                None => {},
            }
            s.append("' found in release ");
            s.append(tag);
            proof {
                match t {
                    Some(a) => assert(s@ =~= "No asset '"@ + a@ + "' found in release "@ + tag@),
                    None => assert(s@ =~= "No asset '' found in release "@ + tag@) by {
                        reveal_strlit("No asset '");
                        reveal_strlit("' found in release ");
                        reveal_strlit("No asset '' found in release ");
                    },
                }
            }
            Some(s)
        },
        UpdateStep::Download(_) => None,
    }
}

} // verus!
