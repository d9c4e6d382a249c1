//! Application-wide settings and well-known identifiers.
use vstd::prelude::*;
use crate::text::owned;

verus! {

/// The Steam app id of the Ark: Survival Ascended dedicated server.
pub fn get_default_app_id() -> (r: String)
    ensures
        r@ == "2430930"@,
{
    owned("2430930")
}

pub fn get_patch_notes_url() -> (r: String)
    ensures
        r@ == "https://survivetheark.com/index.php?/forums/forum/5-changelog-patch-notes/"@,
{
    owned("https://survivetheark.com/index.php?/forums/forum/5-changelog-patch-notes/")
}

pub fn get_changelog_url() -> (r: String)
    ensures
        r@ == "https://github.com/ChronosWS/asma/blob/master/asma/CHANGELOG.md"@,
{
    owned("https://github.com/ChronosWS/asma/blob/master/asma/CHANGELOG.md")
}

pub fn get_server_api_github_url() -> (r: String)
    ensures
        r@ == "https://api.github.com/repos/ArkServerApi/AsaApi/releases"@,
{
    owned("https://api.github.com/repos/ArkServerApi/AsaApi/releases")
}

/// The CurseForge game id of Ark: Survival Ascended.
pub fn get_default_curseforge_app_id() -> (r: String)
    ensures
        r@ == "83374"@,
{
    owned("83374")
}

/// The colour theme of the window.
#[derive(Clone, Copy, Debug, PartialEq, Eq, Structural)]
pub enum ThemeType {
    Light,
    Dark,
}

/// Whether SteamCMD is there.
#[derive(Clone, Copy, Debug, PartialEq, Eq, Structural)]
pub enum SteamCmdState {
    NotInstalled,
    Installing,
    Installed,
}

/// Settings of the application itself.
#[derive(Debug)]
pub struct GlobalSettings {
    pub theme: ThemeType,
    pub profiles_directory: String,
    pub steamcmd_directory: String,
    pub steam_api_key: String,
    pub app_id: String,
    /// Not saved: whether debugging aids are shown.
    pub debug_ui: bool,
    /// Not saved: the directory the settings file is in.
    pub app_data_directory: String,
}

impl GlobalSettings {
    /// The settings of a fresh installation with the given directories: dark
    /// theme, no Steam API key, the default app id.
    pub fn with_directories(app_data_directory: String, profiles_directory: String, steamcmd_directory: String) -> (r: GlobalSettings)
        ensures
            r.theme == ThemeType::Dark,
            r.debug_ui == false,
            r.app_data_directory@ == app_data_directory@,
            r.profiles_directory@ == profiles_directory@,
            r.steamcmd_directory@ == steamcmd_directory@,
            r.steam_api_key@ == Seq::<char>::empty(),
            r.app_id@ == "2430930"@,
    {
        GlobalSettings {
            theme: ThemeType::Dark,
            debug_ui: false,
            app_data_directory,
            profiles_directory,
            steamcmd_directory,
            steam_api_key: String::new(),
            app_id: get_default_app_id(),
        }
    }
}

/// Where a self-update of the application stands.
#[derive(Debug)]
pub enum AsmaUpdateState {
    CheckingForUpdates,
    AvailableVersion(String),
    Downloading,
    UpdateReady,
    UpdateFailed,
}

} // verus!
