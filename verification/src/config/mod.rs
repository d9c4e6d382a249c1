//! The configuration model: where a setting lives, its type, its value, the
//! metadata that describes settings and a server's chosen values.

pub mod metadata;
pub mod variant;
pub mod entry;
pub mod state;

use vstd::prelude::*;
use crate::config::metadata::{BaseTypeV, ConfigLocation, ConfigLocationV, ConfigQuantity, ConfigValueBaseType, IniFile, IniFileV, IniSection, IniSectionV};

verus! {

/// The locations offered for new settings, in the order they are listed.
pub open spec fn known_locations() -> Seq<ConfigLocationV> {
    seq![
        ConfigLocationV::MapName,
        ConfigLocationV::MapUrlOption,
        ConfigLocationV::CommandLineOption,
        ConfigLocationV::IniOption(IniFileV::GameUserSettings, IniSectionV::ServerSettings),
        ConfigLocationV::IniOption(IniFileV::GameUserSettings, IniSectionV::SessionSettings),
        ConfigLocationV::IniOption(IniFileV::GameUserSettings, IniSectionV::MultiHome),
        ConfigLocationV::IniOption(IniFileV::GameUserSettings, IniSectionV::ScriptEngineGameSession),
        ConfigLocationV::IniOption(IniFileV::GameUserSettings, IniSectionV::Ragnarok),
        ConfigLocationV::IniOption(IniFileV::GameUserSettings, IniSectionV::MessageOfTheDay),
        ConfigLocationV::IniOption(IniFileV::Game, IniSectionV::ScriptShooterGameShooterGameMode),
        ConfigLocationV::IniOption(IniFileV::Game, IniSectionV::ModInstaller),
    ]
}

pub fn get_locations() -> (r: Vec<ConfigLocation>)
    ensures
        r@.map_values(|l: ConfigLocation| l@) == known_locations(),
{
    let r = vec![
        ConfigLocation::MapName,
        ConfigLocation::MapUrlOption,
        ConfigLocation::CommandLineOption,
        ConfigLocation::IniOption(IniFile::GameUserSettings, IniSection::ServerSettings),
        ConfigLocation::IniOption(IniFile::GameUserSettings, IniSection::SessionSettings),
        ConfigLocation::IniOption(IniFile::GameUserSettings, IniSection::MultiHome),
        ConfigLocation::IniOption(IniFile::GameUserSettings, IniSection::ScriptEngineGameSession),
        ConfigLocation::IniOption(IniFile::GameUserSettings, IniSection::Ragnarok),
        ConfigLocation::IniOption(IniFile::GameUserSettings, IniSection::MessageOfTheDay),
        ConfigLocation::IniOption(IniFile::Game, IniSection::ScriptShooterGameShooterGameMode),
        ConfigLocation::IniOption(IniFile::Game, IniSection::ModInstaller),
    ];
    assert(r@.map_values(|l: ConfigLocation| l@) =~= known_locations());
    r
}

pub fn get_quantities() -> (r: Vec<ConfigQuantity>)
    ensures
        r@ == seq![ConfigQuantity::Scalar, ConfigQuantity::Vector],
{
    let r = vec![ConfigQuantity::Scalar, ConfigQuantity::Vector];
    assert(r@ =~= seq![ConfigQuantity::Scalar, ConfigQuantity::Vector]);
    r
}

/// The base types offered for new settings; the enumeration offered is named
/// `Unknown` until one is chosen.
pub fn get_value_base_types() -> (r: Vec<ConfigValueBaseType>)
    ensures
        r@.map_values(|b: ConfigValueBaseType| b@) == seq![
            BaseTypeV::Bool,
            BaseTypeV::Float,
            BaseTypeV::Integer,
            BaseTypeV::String,
            BaseTypeV::Enum("Unknown"@),
        ],
{
    let r = vec![
        ConfigValueBaseType::Bool,
        ConfigValueBaseType::Float,
        ConfigValueBaseType::Integer,
        ConfigValueBaseType::String,
        ConfigValueBaseType::Enum(crate::text::owned("Unknown")),
    ];
    assert(r@.map_values(|b: ConfigValueBaseType| b@) =~= seq![
        BaseTypeV::Bool,
        BaseTypeV::Float,
        BaseTypeV::Integer,
        BaseTypeV::String,
        BaseTypeV::Enum("Unknown"@),
    ]);
    r
}

} // verus!
