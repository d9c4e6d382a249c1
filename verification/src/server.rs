//! A server profile and what is derived from the server's files and output:
//! its install state, SteamCMD progress, memory use, and the command lines
//! that install and start it.
use vstd::prelude::*;
use crate::config::entry::ConfigEntries;
use crate::matching::{first_capture, first_match_group, first_match_group_of, matches_view, regex_captures_all, regex_matches};
use crate::text::{concat, owned};

verus! {

/// A server profile: its id (the 128 bits of its UUID), name, where it is
/// installed, and its setting values.
#[derive(Debug)]
pub struct ServerSettings {
    pub id: u128,
    pub name: String,
    pub installation_location: String,
    pub allow_external_ini_management: bool,
    pub use_external_rcon: bool,
    pub config_entries: ConfigEntries,
}

/// One player listed by the server.
#[derive(Debug)]
pub struct RconPlayerEntry {
    pub player_num: usize,
    pub steam_id: String,
    pub user_name: String,
}

/// What is known of a running server (its CPU use is kept beside it by the
/// application).
#[derive(Debug)]
pub struct RunData {
    pub pid: u32,
    pub memory_usage: u64,
    pub rcon_enabled: bool,
    pub player_list: Vec<RconPlayerEntry>,
}

/// Memory in the largest unit that keeps the number at least 1: bytes below
/// 1 KiB, then Kb, Mb, Gb (whole units, rounded down).
pub open spec fn spec_memory_display(m: u64) -> (u64, Seq<char>) {
    if m < 1024 {
        (m, "b"@)
    } else if m < 1024 * 1024 {
        ((m as int / 1024) as u64, "Kb"@)
    } else if m < 1024 * 1024 * 1024 {
        ((m as int / 1048576) as u64, "Mb"@)
    } else {
        ((m as int / 1073741824) as u64, "Gb"@)
    }
}

impl RunData {
    /// The memory use and its unit, as shown.
    pub fn get_memory_display(&self) -> (r: (u64, &'static str))
        ensures
            (r.0, r.1@) == spec_memory_display(self.memory_usage),
    {
        let x = self.memory_usage;
        if x < 1024 {
            (x, "b")
        } else if x < 1024 * 1024 {
            (x / 1024, "Kb")
        } else if x < 1024 * 1024 * 1024 {
            (x / (1024 * 1024), "Mb")
        } else {
            (x / (1024 * 1024 * 1024), "Gb")
        }
    }
}

/// Whether SteamCMD updates the server or validates its files.
#[derive(Clone, Copy, Debug, PartialEq, Eq, Structural)]
pub enum UpdateMode {
    Update,
    Validate,
}

/// The SteamCMD arguments that install the server into `installation_dir`:
/// log in anonymously, then update the app (or validate), then quit.
pub open spec fn spec_steamcmd_args(installation_dir: Seq<char>, app_id: Seq<char>, mode: UpdateMode) -> Seq<Seq<char>> {
    seq!["+force_install_dir"@, installation_dir, "+login"@, "anonymous"@] + match mode {
        UpdateMode::Update => seq!["+app_update"@, app_id],
        UpdateMode::Validate => seq!["validate"@],
    } + seq!["+quit"@]
}

pub open spec fn strings_view(v: Seq<String>) -> Seq<Seq<char>> {
    v.map_values(|s: String| s@)
}

/// The SteamCMD arguments for installing or validating the server.
pub fn steamcmd_args(installation_dir: &str, app_id: &str, mode: UpdateMode) -> (r: Vec<String>)
    ensures
        strings_view(r@) == spec_steamcmd_args(installation_dir@, app_id@, mode),
{
    let mut args: Vec<String> = Vec::new();
    args.push(owned("+force_install_dir"));
    args.push(owned(installation_dir));
    args.push(owned("+login"));
    args.push(owned("anonymous"));
    match mode {
        UpdateMode::Update => {
            args.push(owned("+app_update"));
            args.push(owned(app_id));
        },
        UpdateMode::Validate => {
            args.push(owned("validate"));
        },
    }
    args.push(owned("+quit"));
    assert(strings_view(args@) =~= spec_steamcmd_args(installation_dir@, app_id@, mode));
    args
}

/// The server executable under the installation directory: the ServerAPI
/// loader when the server runs with the ServerAPI, else the server itself.
pub fn server_executable(use_server_api: bool) -> (r: &'static str)
    ensures
        r@ == (if use_server_api {
            "ShooterGame/Binaries/Win64/AsaApiLoader.exe"@
        } else {
            "ShooterGame/Binaries/Win64/ArkAscendedServer.exe"@
        }),
{
    if use_server_api {
        "ShooterGame/Binaries/Win64/AsaApiLoader.exe"
    } else {
        "ShooterGame/Binaries/Win64/ArkAscendedServer.exe"
    }
}

/// The pattern that finds `field` in a Steam app manifest: the field's
/// quoted name, then its quoted value.
pub open spec fn field_pattern(field: Seq<char>) -> Seq<char> {
    field + r#"\"[^"]+\"(?<value>[^"]*)"#@
}

/// The value of `field` in the manifest `content`: group 1 of the first match
/// of its pattern.
pub open spec fn spec_app_state_field(content: Seq<char>, field: Seq<char>) -> Option<Seq<char>> {
    first_match_group(regex_matches(field_pattern(field), content), 1)
}

/// The value of `field` in the Steam app manifest `content`.
pub fn extract_app_state_field(content: &str, field: &str) -> (r: Option<String>)
    ensures
        match spec_app_state_field(content@, field@) {
            Some(s) => r matches Some(t) && t@ == s,
            None => r is None,
        },
{
    let pattern = concat(field, r#"\"[^"]+\"(?<value>[^"]*)"#);
    first_capture(pattern.as_str(), content, 1)
}

/// What a Steam app manifest says of an installation.
#[derive(Clone, Copy, Debug, PartialEq, Eq, Structural)]
pub enum ManifestState {
    /// The install did not finish (its state flags are not 4).
    Incomplete,
    /// The install finished, with the time of the last update and the build.
    Installed { time_updated: u64, build_id: u64 },
}

/// A field that the manifest lacks or that does not read as a number.
#[derive(Clone, Copy, Debug, PartialEq, Eq, Structural)]
pub enum ManifestError {
    StateFlags,
    LastUpdated,
    BuildId,
}

/// The state flags of a successful install.
pub const STATE_INSTALL_SUCCESSFUL: u32 = 4;

/// A field of the manifest read as an unsigned number no larger than `max`.
pub open spec fn manifest_number(content: Seq<char>, field: Seq<char>, max: nat) -> Option<nat> {
    match spec_app_state_field(content, field) {
        Some(v) => crate::parse::spec_parse_unsigned(v, 10, max),
        None => None,
    }
}

/// What the manifest `content` says: the state flags (a `u32`) must be 4,
/// then `LastUpdated` and `buildid` must read as `u64`s.
pub open spec fn spec_manifest_state(content: Seq<char>) -> Result<ManifestState, ManifestError> {
    match manifest_number(content, "StateFlags"@, u32::MAX as nat) {
        None => Err(ManifestError::StateFlags),
        Some(state) => if state != 4 {
            Ok(ManifestState::Incomplete)
        } else {
            match manifest_number(content, "LastUpdated"@, u64::MAX as nat) {
                None => Err(ManifestError::LastUpdated),
                Some(t) => match manifest_number(content, "buildid"@, u64::MAX as nat) {
                    None => Err(ManifestError::BuildId),
                    Some(b) => Ok(ManifestState::Installed { time_updated: t as u64, build_id: b as u64 }),
                },
            }
        },
    }
}

fn manifest_field_number(content: &str, field: &str, max: u64) -> (r: Option<u64>)
    ensures
        match manifest_number(content@, field@, max as nat) {
            Some(n) => r == Some(n as u64),
            None => r is None,
        },
{
    match extract_app_state_field(content, field) {
        Some(v) => crate::parse::parse_unsigned(v.as_str(), 10, max),
        None => None,
    }
}

/// Reads the install state from a Steam app manifest (`spec_manifest_state`).
pub fn read_app_manifest(content: &str) -> (r: Result<ManifestState, ManifestError>)
    ensures
        r == spec_manifest_state(content@),
{
    let state = match manifest_field_number(content, "StateFlags", 0xffff_ffff) {
        Some(s) => s,
        None => {
            return Err(ManifestError::StateFlags);
        },
    };
    if state != 4 {
        return Ok(ManifestState::Incomplete);
    }
    let time_updated = match manifest_field_number(content, "LastUpdated", 0xffff_ffff_ffff_ffff) {
        Some(t) => t,
        None => {
            return Err(ManifestError::LastUpdated);
        },
    };
    let build_id = match manifest_field_number(content, "buildid", 0xffff_ffff_ffff_ffff) {
        Some(b) => b,
        None => {
            return Err(ManifestError::BuildId);
        },
    };
    Ok(ManifestState::Installed { time_updated, build_id })
}

/// Progress that SteamCMD reports; the percentage is kept as the decimal
/// text SteamCMD printed.
#[derive(Debug)]
pub enum SteamCmdProgress {
    Downloading(String),
    Verifying(String),
    /// A progress line with a state other than downloading or verifying.
    UnknownState(u64),
}

/// A progress line of SteamCMD: `Update state (0x61) downloading, progress:
/// 99.76 (...)`.
pub open spec fn progress_pattern() -> Seq<char> {
    r"Update state \(0x(?<state>[0-9a-fA-F]+)\) (?<desc>[^,]*), progress: (?<percent>[0-9.]+)"@
}

/// The state and percentage that the matches `ms` of the progress pattern
/// give, as text; `None` when they give no progress line.
pub open spec fn progress_groups_of(ms: Option<Seq<Seq<Option<Seq<char>>>>>) -> Option<(Seq<char>, Seq<char>)> {
    match (first_match_group(ms, 1), first_match_group(ms, 3)) {
        (Some(state), Some(percent)) => Some((state, percent)),
        _ => None,
    }
}

/// The state and percentage of a progress line, as text; `None` for a line
/// that is not a progress line.
pub open spec fn progress_groups(line: Seq<char>) -> Option<(Seq<char>, Seq<char>)> {
    progress_groups_of(regex_matches(progress_pattern(), line))
}

/// Progress whose state fits a `u64` (hexadecimal) and whose percentage
/// reads as an `f32`, or no progress at all.
pub open spec fn progress_readable(g: Option<(Seq<char>, Seq<char>)>) -> bool {
    match g {
        Some((state, percent)) => crate::parse::spec_parse_unsigned(state, 16, u64::MAX as nat) is Some
            && crate::parse::spec_is_float(percent),
        None => true,
    }
}

/// The state, as a number, and the percentage of progress read as text.
pub open spec fn progress_of(g: Option<(Seq<char>, Seq<char>)>) -> Option<(u64, Seq<char>)> {
    match g {
        Some((state, percent)) => match crate::parse::spec_parse_unsigned(state, 16, u64::MAX as nat) {
            Some(s) => Some((s as u64, percent)),
            None => None,
        },
        None => None,
    }
}

/// A progress line whose state fits a `u64` (hexadecimal) and whose
/// percentage reads as an `f32`; other lines are not progress lines.
pub open spec fn steamcmd_line_readable(line: Seq<char>) -> bool {
    progress_readable(progress_groups(line))
}

/// What a progress line reports: its state and percentage; state 0x61 is
/// downloading, 0x81 verifying, other states are unknown.
pub open spec fn spec_steamcmd_progress(line: Seq<char>) -> Option<(u64, Seq<char>)> {
    progress_of(progress_groups(line))
}

/// `p` reports the state and percentage `expected`: 0x61 as downloading,
/// 0x81 as verifying, another state as unknown; no progress as `None`.
pub open spec fn reports_progress(expected: Option<(u64, Seq<char>)>, p: Option<SteamCmdProgress>) -> bool {
    match expected {
        Some((state, percent)) => match p {
            Some(SteamCmdProgress::Downloading(t)) => state == 0x61 && t@ == percent,
            Some(SteamCmdProgress::Verifying(t)) => state == 0x81 && t@ == percent,
            Some(SteamCmdProgress::UnknownState(s)) => s == state && state != 0x61 && state != 0x81,
            None => false,
        },
        None => p is None,
    }
}

/// A progress line that cannot be read: its state does not fit a `u64`, or
/// its percentage is not a number.
#[derive(Clone, Copy, Debug, PartialEq, Eq, Structural)]
pub struct UnreadableProgress;

/// The progress that the matches `ms` of the progress pattern report; an
/// error where their state or percentage does not read.
pub fn progress_from_matches(ms: &Option<Vec<Vec<Option<String>>>>) -> (r: Result<Option<SteamCmdProgress>, UnreadableProgress>)
    ensures
        r is Err <==> !progress_readable(progress_groups_of(matches_view(*ms))),
        r matches Ok(p) ==> reports_progress(progress_of(progress_groups_of(matches_view(*ms))), p),
{
    let state = match first_match_group_of(ms, 1) {
        Some(s) => s,
        None => {
            return Ok(None);
        },
    };
    let percent = match first_match_group_of(ms, 3) {
        Some(p) => p,
        None => {
            return Ok(None);
        },
    };
    let state = match crate::parse::parse_unsigned(state.as_str(), 16, 0xffff_ffff_ffff_ffff) {
        Some(s) => s,
        None => {
            return Err(UnreadableProgress);
        },
    };
    if !crate::parse::is_float(percent.as_str()) {
        return Err(UnreadableProgress);
    }
    if state == 0x61 {
        Ok(Some(SteamCmdProgress::Downloading(percent)))
    } else if state == 0x81 {
        Ok(Some(SteamCmdProgress::Verifying(percent)))
    } else {
        Ok(Some(SteamCmdProgress::UnknownState(state)))
    }
}

/// Reads one line of SteamCMD output (`spec_steamcmd_progress`). A progress
/// line whose state or percentage does not read is left out: reading it
/// fails (see `read_steamcmd_line`).
pub fn process_steamcmd_line(line: &str) -> (r: Option<SteamCmdProgress>)
    requires
        steamcmd_line_readable(line@),
    ensures
        reports_progress(spec_steamcmd_progress(line@), r),
{
    let pattern = r"Update state \(0x(?<state>[0-9a-fA-F]+)\) (?<desc>[^,]*), progress: (?<percent>[0-9.]+)";
    let ms = regex_captures_all(pattern, line);
    match progress_from_matches(&ms) {
        Ok(p) => p,
        Err(_) => None,
    }
}

/// Reads one line of SteamCMD output, on any line: an error for a progress
/// line whose state or percentage cannot be read, else what
/// `process_steamcmd_line` reads.
pub fn read_steamcmd_line(line: &str) -> (r: Result<Option<SteamCmdProgress>, UnreadableProgress>)
    ensures
        r is Err <==> !steamcmd_line_readable(line@),
        r matches Ok(p) ==> reports_progress(spec_steamcmd_progress(line@), p),
{
    let pattern = r"Update state \(0x(?<state>[0-9a-fA-F]+)\) (?<desc>[^,]*), progress: (?<percent>[0-9.]+)";
    let ms = regex_captures_all(pattern, line);
    match progress_from_matches(&ms) {
        Err(e) => Err(e),
        Ok(_) => Ok(process_steamcmd_line(line)),
    }
}

/// The newest build of the server app on Steam's public branch: its build
/// id and when it was updated (seconds since the Unix epoch).
#[derive(Clone, Copy, Debug, PartialEq, Eq, Structural)]
pub struct SteamAppVersion {
    pub buildid: u64,
    pub timeupdated: i64,
}

/// A number of the Steam app-info answer, 0 where the text does not read.
pub open spec fn u64_or_zero(t: Seq<char>) -> u64 {
    match crate::parse::spec_parse_unsigned(t, 10, u64::MAX as nat) {
        Some(v) => v as u64,
        None => 0,
    }
}

pub open spec fn i64_or_zero(t: Seq<char>) -> i64 {
    match crate::parse::spec_parse_i64(t) {
        Some(v) => v,
        None => 0,
    }
}

/// The version from the two texts of the public branch's app info
/// (`buildid` and `timeupdated`); each is 0 where it does not read.
pub fn steam_app_version(buildid: &str, timeupdated: &str) -> (r: SteamAppVersion)
    ensures
        r.buildid == u64_or_zero(buildid@),
        r.timeupdated == i64_or_zero(timeupdated@),
{
    let b = match crate::parse::parse_unsigned(buildid, 10, 0xffff_ffff_ffff_ffff) {
        Some(v) => v,
        None => 0,
    };
    let t = match crate::parse::parse_i64(timeupdated) {
        Some(v) => v,
        None => 0,
    };
    SteamAppVersion { buildid: b, timeupdated: t }
}

} // verus!
