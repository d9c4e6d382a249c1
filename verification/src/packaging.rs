//! Names used when a build of the application is packaged and published:
//! the build output directory and the names of the uploaded archive and
//! version files.
use vstd::prelude::*;
use crate::text::concat;

verus! {

/// The channel a build is published to.
#[derive(Clone, Copy, Debug, PartialEq, Eq, Structural)]
pub enum ReleaseTarget {
    Dev,
    Rel,
}

/// The profile a build was made with.
#[derive(Clone, Copy, Debug, PartialEq, Eq, Structural)]
pub enum BuildTarget {
    Debug,
    Release,
}

/// The channel's name in file names.
pub open spec fn target_text(t: ReleaseTarget) -> Seq<char> {
    match t {
        ReleaseTarget::Dev => "dev"@,
        ReleaseTarget::Rel => "rel"@,
    }
}

/// The platform suffix: nothing for the default platform, else a dot and
/// the platform's name.
pub open spec fn platform_suffix(platform: Seq<char>) -> Seq<char> {
    if platform.len() == 0 {
        seq![]
    } else {
        seq!['.'] + platform
    }
}

fn target_name(t: ReleaseTarget) -> (r: &'static str)
    ensures
        r@ == target_text(t),
{
    match t {
        ReleaseTarget::Dev => "dev",
        ReleaseTarget::Rel => "rel",
    }
}

fn suffix(platform: &str) -> (r: String)
    ensures
        r@ == platform_suffix(platform@),
{
    proof {
        reveal_strlit("");
    }
    if crate::text::str_eq(platform, "") {
        assert(platform@.len() == 0);
        let r = String::new();
        assert(r@ =~= platform_suffix(platform@));
        r
    } else {
        assert(platform@.len() != 0) by {
            if platform@.len() == 0 {
                assert(platform@ =~= ""@);
            }
        }
        let r = concat(".", platform);
        proof {
            reveal_strlit(".");
        }
        assert(r@ =~= platform_suffix(platform@));
        r
    }
}

/// The directories of the build output: `target` (or `target.<platform>`),
/// then `debug` or `release`.
pub fn build_output_dirs(platform: &str, build: BuildTarget) -> (r: (String, &'static str))
    ensures
        r.0@ == "target"@ + platform_suffix(platform@),
        r.1@ == match build {
            BuildTarget::Debug => "debug"@,
            BuildTarget::Release => "release"@,
        },
{
    let dir = concat("target", suffix(platform).as_str());
    let profile = match build {
        BuildTarget::Debug => "debug",
        BuildTarget::Release => "release",
    };
    (dir, profile)
}

/// `latest-<channel><suffix>.zip`: the archive of the newest build.
pub fn latest_zip_name(target: ReleaseTarget, platform: &str) -> (r: String)
    ensures
        r@ == "latest-"@ + target_text(target) + platform_suffix(platform@) + ".zip"@,
{
    let a = concat("latest-", target_name(target));
    let b = concat(a.as_str(), suffix(platform).as_str());
    concat(b.as_str(), ".zip")
}

/// `<version>-<channel><suffix>.zip`: the archive kept for this version.
pub fn versioned_zip_name(version: &str, target: ReleaseTarget, platform: &str) -> (r: String)
    ensures
        r@ == version@ + "-"@ + target_text(target) + platform_suffix(platform@) + ".zip"@,
{
    let a = concat(version, "-");
    let b = concat(a.as_str(), target_name(target));
    let c = concat(b.as_str(), suffix(platform).as_str());
    concat(c.as_str(), ".zip")
}

/// `latest-<channel><suffix>.json`: the description of the newest build.
pub fn version_json_name(target: ReleaseTarget, platform: &str) -> (r: String)
    ensures
        r@ == "latest-"@ + target_text(target) + platform_suffix(platform@) + ".json"@,
{
    let a = concat("latest-", target_name(target));
    let b = concat(a.as_str(), suffix(platform).as_str());
    concat(b.as_str(), ".json")
}

} // verus!
