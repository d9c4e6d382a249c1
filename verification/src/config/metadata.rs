//! Setting locations, value types and the metadata that describes settings.
use vstd::prelude::*;
use crate::text::{concat, owned, str_eq, to_lowercase};
use crate::parse::{is_float, parse_bool, parse_i64};
use crate::config::variant::{ConfigVariant, VariantV};

verus! {

/// An INI file of the server.
#[derive(Debug)]
pub enum IniFile {
    Game,
    GameUserSettings,
    Custom(String),
}

/// An INI file as plain values.
pub enum IniFileV {
    Game,
    GameUserSettings,
    Custom(Seq<char>),
}

impl View for IniFile {
    type V = IniFileV;

    open spec fn view(&self) -> IniFileV {
        match self {
            IniFile::Game => IniFileV::Game,
            IniFile::GameUserSettings => IniFileV::GameUserSettings,
            IniFile::Custom(f) => IniFileV::Custom(f@),
        }
    }
}

impl IniFileV {
    /// How the file is shown: its base name.
    pub open spec fn text(self) -> Seq<char> {
        match self {
            IniFileV::Game => "Game"@,
            IniFileV::GameUserSettings => "GameUserSettings"@,
            IniFileV::Custom(f) => f,
        }
    }
}

/// The file that a (case-insensitive) file name stands for; other names are
/// kept lower-cased as a custom file.
pub open spec fn spec_ini_file_from(value: Seq<char>) -> IniFileV {
    ini_file_from_lower(crate::text::unicode_lowercase(value))
}

/// The file that a lower-cased file name stands for.
pub open spec fn ini_file_from_lower(lower: Seq<char>) -> IniFileV {
    if lower == "game.ini"@ {
        IniFileV::Game
    } else if lower == "gameusersettings.ini"@ {
        IniFileV::GameUserSettings
    } else {
        IniFileV::Custom(lower)
    }
}

/// A known file, named by its text and `.ini`, reads back as that file.
pub proof fn lemma_ini_file_name_reads_back(f: IniFileV)
    requires
        !(f is Custom),
    ensures
        crate::text::is_ascii_text(f.text() + ".ini"@),
        ini_file_from_lower(crate::parse::ascii_lowercase(f.text() + ".ini"@)) == f,
{
    reveal_strlit("Game");
    reveal_strlit("GameUserSettings");
    reveal_strlit(".ini");
    reveal_strlit("game.ini");
    reveal_strlit("gameusersettings.ini");
    let l = crate::parse::ascii_lowercase(f.text() + ".ini"@);
    match f {
        IniFileV::Game => {
            assert(l =~= "game.ini"@);
        },
        IniFileV::GameUserSettings => {
            assert(l =~= "gameusersettings.ini"@);
            assert(l.len() != "game.ini"@.len());
        },
        _ => {},
    }
}

impl IniFile {
    pub fn deep_clone(&self) -> (r: IniFile)
        ensures
            r@ == self@,
    {
        match self {
            IniFile::Game => IniFile::Game,
            IniFile::GameUserSettings => IniFile::GameUserSettings,
            IniFile::Custom(f) => IniFile::Custom(f.clone()),
        }
    }

    /// The file that the name `value` stands for.
    pub fn from(value: &str) -> (r: IniFile)
        ensures
            r@ == spec_ini_file_from(value@),
            crate::text::is_ascii_text(value@) ==> r@ == ini_file_from_lower(crate::parse::ascii_lowercase(value@)),
    {
        let lower = to_lowercase(value);
        if str_eq(lower.as_str(), "game.ini") {
            IniFile::Game
        } else if str_eq(lower.as_str(), "gameusersettings.ini") {
            IniFile::GameUserSettings
        } else {
            IniFile::Custom(lower)
        }
    }

    pub fn to_string(&self) -> (r: String)
        ensures
            r@ == self@.text(),
    {
        match self {
            IniFile::Game => owned("Game"),
            IniFile::GameUserSettings => owned("GameUserSettings"),
            IniFile::Custom(f) => f.clone(),
        }
    }

    /// Whether `self` and `other` name the same file.
    pub fn equals(&self, other: &IniFile) -> (r: bool)
        ensures
            r == (self@ == other@),
    {
        match (self, other) {
            (IniFile::Game, IniFile::Game) => true,
            (IniFile::GameUserSettings, IniFile::GameUserSettings) => true,
            (IniFile::Custom(a), IniFile::Custom(b)) => str_eq(a.as_str(), b.as_str()),
            _ => false,
        }
    }
}

/// A section of an INI file.
#[derive(Debug)]
pub enum IniSection {
    ServerSettings,
    SessionSettings,
    MultiHome,
    ScriptEngineGameSession,
    Ragnarok,
    MessageOfTheDay,
    ScriptShooterGameShooterGameMode,
    ModInstaller,
    Custom(String),
}

/// An INI section as plain values.
pub enum IniSectionV {
    ServerSettings,
    SessionSettings,
    MultiHome,
    ScriptEngineGameSession,
    Ragnarok,
    MessageOfTheDay,
    ScriptShooterGameShooterGameMode,
    ModInstaller,
    Custom(Seq<char>),
}

impl View for IniSection {
    type V = IniSectionV;

    open spec fn view(&self) -> IniSectionV {
        match self {
            IniSection::ServerSettings => IniSectionV::ServerSettings,
            IniSection::SessionSettings => IniSectionV::SessionSettings,
            IniSection::MultiHome => IniSectionV::MultiHome,
            IniSection::ScriptEngineGameSession => IniSectionV::ScriptEngineGameSession,
            IniSection::Ragnarok => IniSectionV::Ragnarok,
            IniSection::MessageOfTheDay => IniSectionV::MessageOfTheDay,
            IniSection::ScriptShooterGameShooterGameMode => IniSectionV::ScriptShooterGameShooterGameMode,
            IniSection::ModInstaller => IniSectionV::ModInstaller,
            IniSection::Custom(s) => IniSectionV::Custom(s@),
        }
    }
}

impl IniSectionV {
    /// The section's name as written in the INI file.
    pub open spec fn text(self) -> Seq<char> {
        match self {
            IniSectionV::ServerSettings => "ServerSettings"@,
            IniSectionV::SessionSettings => "SessionSettings"@,
            IniSectionV::MultiHome => "MultiHome"@,
            IniSectionV::ScriptEngineGameSession => "/Script/Engine.GameSession"@,
            IniSectionV::Ragnarok => "Ragnarok"@,
            IniSectionV::MessageOfTheDay => "MessageOfTheDay"@,
            IniSectionV::ScriptShooterGameShooterGameMode => "/script/shootergame.shootergamemode"@,
            IniSectionV::ModInstaller => "ModInstaller"@,
            IniSectionV::Custom(s) => s,
        }
    }
}

/// The section that a (case-insensitive) section name stands for; other names
/// are kept lower-cased as a custom section.
pub open spec fn spec_ini_section_from(value: Seq<char>) -> IniSectionV {
    ini_section_from_lower(crate::text::unicode_lowercase(value))
}

/// The section that a lower-cased section name stands for.
pub open spec fn ini_section_from_lower(lower: Seq<char>) -> IniSectionV {
    if lower == "serversettings"@ {
        IniSectionV::ServerSettings
    } else if lower == "sessionsettings"@ {
        IniSectionV::SessionSettings
    } else if lower == "multihome"@ {
        IniSectionV::MultiHome
    } else if lower == "/script/engine.gamesession"@ {
        IniSectionV::ScriptEngineGameSession
    } else if lower == "raganarok"@ {
        IniSectionV::Ragnarok
    } else if lower == "messageoftheday"@ {
        IniSectionV::MessageOfTheDay
    } else if lower == "/script/shootergame.shootergamemode"@ {
        IniSectionV::ScriptShooterGameShooterGameMode
    } else if lower == "modinstaller"@ {
        IniSectionV::ModInstaller
    } else {
        IniSectionV::Custom(lower)
    }
}

/// The name of a known section, read back, gives the section again. (The
/// `Ragnarok` section is left out: its name reads back as a custom section,
/// since the name recognised for it is `raganarok`.)
pub proof fn lemma_ini_section_name_reads_back(s: IniSectionV)
    requires
        !(s is Ragnarok),
        !(s is Custom),
    ensures
        crate::text::is_ascii_text(s.text()),
        ini_section_from_lower(crate::parse::ascii_lowercase(s.text())) == s,
{
    reveal_strlit("ServerSettings");
    reveal_strlit("SessionSettings");
    reveal_strlit("MultiHome");
    reveal_strlit("/Script/Engine.GameSession");
    reveal_strlit("MessageOfTheDay");
    reveal_strlit("/script/shootergame.shootergamemode");
    reveal_strlit("ModInstaller");
    reveal_strlit("serversettings");
    reveal_strlit("sessionsettings");
    reveal_strlit("multihome");
    reveal_strlit("/script/engine.gamesession");
    reveal_strlit("raganarok");
    reveal_strlit("messageoftheday");
    reveal_strlit("modinstaller");
    let t = s.text();
    let l = crate::parse::ascii_lowercase(t);
    match s {
        IniSectionV::ServerSettings => {
            assert(l =~= "serversettings"@);
        },
        IniSectionV::SessionSettings => {
            assert(l =~= "sessionsettings"@);
            assert(l[2] != "serversettings"@[2]);
        },
        IniSectionV::MultiHome => {
            assert(l =~= "multihome"@);
            assert(l.len() != "serversettings"@.len());
            assert(l.len() != "sessionsettings"@.len());
        },
        IniSectionV::ScriptEngineGameSession => {
            assert(l =~= "/script/engine.gamesession"@);
            assert(l[0] != "serversettings"@[0]);
            assert(l[0] != "sessionsettings"@[0]);
            assert(l[0] != "multihome"@[0]);
        },
        IniSectionV::MessageOfTheDay => {
            assert(l =~= "messageoftheday"@);
            assert(l[0] != "serversettings"@[0]);
            assert(l[0] != "sessionsettings"@[0]);
            assert(l.len() != "multihome"@.len());
            assert(l[0] != "/script/engine.gamesession"@[0]);
            assert(l[0] != "raganarok"@[0]);
        },
        IniSectionV::ScriptShooterGameShooterGameMode => {
            assert(l =~= "/script/shootergame.shootergamemode"@);
            assert(l[0] != "serversettings"@[0]);
            assert(l[0] != "sessionsettings"@[0]);
            assert(l[0] != "multihome"@[0]);
            assert(l.len() != "/script/engine.gamesession"@.len());
            assert(l[0] != "raganarok"@[0]);
            assert(l[0] != "messageoftheday"@[0]);
        },
        IniSectionV::ModInstaller => {
            assert(l =~= "modinstaller"@);
            assert(l[0] != "serversettings"@[0]);
            assert(l[0] != "sessionsettings"@[0]);
            assert(l.len() != "multihome"@.len());
            assert(l[0] != "/script/engine.gamesession"@[0]);
            assert(l[0] != "raganarok"@[0]);
            assert(l.len() != "messageoftheday"@.len());
            assert(l[0] != "/script/shootergame.shootergamemode"@[0]);
        },
        _ => {},
    }
}

impl IniSection {
    pub fn deep_clone(&self) -> (r: IniSection)
        ensures
            r@ == self@,
    {
        match self {
            IniSection::ServerSettings => IniSection::ServerSettings,
            IniSection::SessionSettings => IniSection::SessionSettings,
            IniSection::MultiHome => IniSection::MultiHome,
            IniSection::ScriptEngineGameSession => IniSection::ScriptEngineGameSession,
            IniSection::Ragnarok => IniSection::Ragnarok,
            IniSection::MessageOfTheDay => IniSection::MessageOfTheDay,
            IniSection::ScriptShooterGameShooterGameMode => IniSection::ScriptShooterGameShooterGameMode,
            IniSection::ModInstaller => IniSection::ModInstaller,
            IniSection::Custom(s) => IniSection::Custom(s.clone()),
        }
    }

    /// The section that the name `value` stands for.
    pub fn from(value: &str) -> (r: IniSection)
        ensures
            r@ == spec_ini_section_from(value@),
            crate::text::is_ascii_text(value@) ==> r@ == ini_section_from_lower(crate::parse::ascii_lowercase(value@)),
    {
        let lower = to_lowercase(value);
        let l = lower.as_str();
        if str_eq(l, "serversettings") {
            IniSection::ServerSettings
        } else if str_eq(l, "sessionsettings") {
            IniSection::SessionSettings
        } else if str_eq(l, "multihome") {
            IniSection::MultiHome
        } else if str_eq(l, "/script/engine.gamesession") {
            IniSection::ScriptEngineGameSession
        } else if str_eq(l, "raganarok") {
            IniSection::Ragnarok
        } else if str_eq(l, "messageoftheday") {
            IniSection::MessageOfTheDay
        } else if str_eq(l, "/script/shootergame.shootergamemode") {
            IniSection::ScriptShooterGameShooterGameMode
        } else if str_eq(l, "modinstaller") {
            IniSection::ModInstaller
        } else {
            IniSection::Custom(lower)
        }
    }

    pub fn to_string(&self) -> (r: String)
        ensures
            r@ == self@.text(),
    {
        match self {
            IniSection::ServerSettings => owned("ServerSettings"),
            IniSection::SessionSettings => owned("SessionSettings"),
            IniSection::MultiHome => owned("MultiHome"),
            IniSection::ScriptEngineGameSession => owned("/Script/Engine.GameSession"),
            IniSection::Ragnarok => owned("Ragnarok"),
            IniSection::MessageOfTheDay => owned("MessageOfTheDay"),
            IniSection::ScriptShooterGameShooterGameMode => owned("/script/shootergame.shootergamemode"),
            IniSection::ModInstaller => owned("ModInstaller"),
            IniSection::Custom(s) => s.clone(),
        }
    }

    /// Whether `self` and `other` name the same section.
    pub fn equals(&self, other: &IniSection) -> (r: bool)
        ensures
            r == (self@ == other@),
    {
        match (self, other) {
            (IniSection::ServerSettings, IniSection::ServerSettings) => true,
            (IniSection::SessionSettings, IniSection::SessionSettings) => true,
            (IniSection::MultiHome, IniSection::MultiHome) => true,
            (IniSection::ScriptEngineGameSession, IniSection::ScriptEngineGameSession) => true,
            (IniSection::Ragnarok, IniSection::Ragnarok) => true,
            (IniSection::MessageOfTheDay, IniSection::MessageOfTheDay) => true,
            (IniSection::ScriptShooterGameShooterGameMode, IniSection::ScriptShooterGameShooterGameMode) => true,
            (IniSection::ModInstaller, IniSection::ModInstaller) => true,
            (IniSection::Custom(a), IniSection::Custom(b)) => str_eq(a.as_str(), b.as_str()),
            _ => false,
        }
    }
}

/// Where a setting goes when a server is started.
#[derive(Debug)]
pub enum ConfigLocation {
    MapName,
    MapUrlOption,
    CommandLineOption,
    IniOption(IniFile, IniSection),
}

/// A location as plain values.
pub enum ConfigLocationV {
    MapName,
    MapUrlOption,
    CommandLineOption,
    IniOption(IniFileV, IniSectionV),
}

impl View for ConfigLocation {
    type V = ConfigLocationV;

    open spec fn view(&self) -> ConfigLocationV {
        match self {
            ConfigLocation::MapName => ConfigLocationV::MapName,
            ConfigLocation::MapUrlOption => ConfigLocationV::MapUrlOption,
            ConfigLocation::CommandLineOption => ConfigLocationV::CommandLineOption,
            ConfigLocation::IniOption(f, s) => ConfigLocationV::IniOption(f@, s@),
        }
    }
}

impl ConfigLocationV {
    pub open spec fn text(self) -> Seq<char> {
        match self {
            ConfigLocationV::MapName => "Map Name"@,
            ConfigLocationV::MapUrlOption => "Map URL"@,
            ConfigLocationV::CommandLineOption => "Command Line"@,
            ConfigLocationV::IniOption(f, s) => f.text() + ".ini ["@ + s.text() + "]"@,
        }
    }
}

impl ConfigLocation {
    pub fn deep_clone(&self) -> (r: ConfigLocation)
        ensures
            r@ == self@,
    {
        match self {
            ConfigLocation::MapName => ConfigLocation::MapName,
            ConfigLocation::MapUrlOption => ConfigLocation::MapUrlOption,
            ConfigLocation::CommandLineOption => ConfigLocation::CommandLineOption,
            ConfigLocation::IniOption(f, s) => ConfigLocation::IniOption(f.deep_clone(), s.deep_clone()),
        }
    }

    pub fn to_string(&self) -> (r: String)
        ensures
            r@ == self@.text(),
    {
        match self {
            ConfigLocation::MapName => owned("Map Name"),
            ConfigLocation::MapUrlOption => owned("Map URL"),
            ConfigLocation::CommandLineOption => owned("Command Line"),
            ConfigLocation::IniOption(f, s) => {
                let a = concat(f.to_string().as_str(), ".ini [");
                let b = concat(a.as_str(), s.to_string().as_str());
                let r = concat(b.as_str(), "]");
                assert(r@ =~= self@.text());
                r
            },
        }
    }

    /// Whether `self` and `other` are the same location.
    pub fn equals(&self, other: &ConfigLocation) -> (r: bool)
        ensures
            r == (self@ == other@),
    {
        match (self, other) {
            (ConfigLocation::MapName, ConfigLocation::MapName) => true,
            (ConfigLocation::MapUrlOption, ConfigLocation::MapUrlOption) => true,
            (ConfigLocation::CommandLineOption, ConfigLocation::CommandLineOption) => true,
            (ConfigLocation::IniOption(f1, s1), ConfigLocation::IniOption(f2, s2)) => f1.equals(f2)
                && s1.equals(s2),
            _ => false,
        }
    }
}

/// The shape of a value: one value or a list of them.
#[derive(Clone, Copy, Debug, PartialEq, Eq, Structural)]
pub enum ConfigQuantity {
    Scalar,
    Vector,
}

pub open spec fn quantity_text(q: ConfigQuantity) -> Seq<char> {
    match q {
        ConfigQuantity::Scalar => "Scalar"@,
        ConfigQuantity::Vector => "Vector"@,
    }
}

/// A vector written as `[a,b,...]` is a vector; anything else is a scalar.
pub open spec fn spec_infer_quantity(value: Seq<char>) -> ConfigQuantity {
    if value.len() > 0 && value[0] == '[' && value.last() == ']' {
        ConfigQuantity::Vector
    } else {
        ConfigQuantity::Scalar
    }
}

impl ConfigQuantity {
    pub fn to_string(&self) -> (r: String)
        ensures
            r@ == quantity_text(*self),
    {
        match self {
            ConfigQuantity::Scalar => owned("Scalar"),
            ConfigQuantity::Vector => owned("Vector"),
        }
    }

    /// The quantity of a value as written: bracketed text is a vector.
    pub fn infer_from(value: &str) -> (r: ConfigQuantity)
        ensures
            r == spec_infer_quantity(value@),
    {
        let cs = crate::text::chars_of(value);
        if cs.len() > 0 && cs[0] == '[' && cs[cs.len() - 1] == ']' {
            ConfigQuantity::Vector
        } else {
            ConfigQuantity::Scalar
        }
    }
}

/// One named field of a structured type.
#[derive(Debug)]
pub struct ConfigStructFieldType {
    pub name: String,
    pub value_type: ConfigValueType,
}

/// The type of a single value.
#[derive(Debug)]
pub enum ConfigValueBaseType {
    Bool,
    Float,
    Integer,
    String,
    Enum(String),
    Struct(Vec<ConfigStructFieldType>),
}

/// The full type of a setting: its quantity and base type.
#[derive(Debug)]
pub struct ConfigValueType {
    pub quantity: ConfigQuantity,
    pub base_type: ConfigValueBaseType,
}

/// A field type as plain values.
pub struct FieldTypeV {
    pub name: Seq<char>,
    pub value_type: ValueTypeV,
}

/// A base type as plain values.
pub enum BaseTypeV {
    Bool,
    Float,
    Integer,
    String,
    Enum(Seq<char>),
    Struct(Seq<FieldTypeV>),
}

/// A value type as plain values.
pub struct ValueTypeV {
    pub quantity: ConfigQuantity,
    pub base_type: BaseTypeV,
}

pub open spec fn base_type_view(b: ConfigValueBaseType) -> BaseTypeV
    decreases b,
{
    match b {
        ConfigValueBaseType::Bool => BaseTypeV::Bool,
        ConfigValueBaseType::Float => BaseTypeV::Float,
        ConfigValueBaseType::Integer => BaseTypeV::Integer,
        ConfigValueBaseType::String => BaseTypeV::String,
        ConfigValueBaseType::Enum(name) => BaseTypeV::Enum(name@),
        ConfigValueBaseType::Struct(fields) => BaseTypeV::Struct(field_types_view(fields@)),
    }
}

pub open spec fn field_type_view(f: ConfigStructFieldType) -> FieldTypeV
    decreases f,
{
    FieldTypeV {
        name: f.name@,
        value_type: ValueTypeV {
            quantity: f.value_type.quantity,
            base_type: base_type_view(f.value_type.base_type),
        },
    }
}

pub open spec fn field_types_view(fs: Seq<ConfigStructFieldType>) -> Seq<FieldTypeV>
    decreases fs,
{
    if fs.len() == 0 {
        seq![]
    } else {
        field_types_view(fs.drop_last()).push(field_type_view(fs.last()))
    }
}

/// The view of a list of field types is the view of each of them.
pub proof fn lemma_field_types_view(fs: Seq<ConfigStructFieldType>)
    ensures
        field_types_view(fs).len() == fs.len(),
        forall|i: int| 0 <= i < fs.len() ==> #[trigger] field_types_view(fs)[i] == field_type_view(fs[i]),
    decreases fs.len(),
{
    if fs.len() > 0 {
        lemma_field_types_view(fs.drop_last());
    }
}

impl View for ConfigStructFieldType {
    type V = FieldTypeV;

    open spec fn view(&self) -> FieldTypeV {
        field_type_view(*self)
    }
}

impl View for ConfigValueBaseType {
    type V = BaseTypeV;

    open spec fn view(&self) -> BaseTypeV {
        base_type_view(*self)
    }
}

impl View for ConfigValueType {
    type V = ValueTypeV;

    open spec fn view(&self) -> ValueTypeV {
        ValueTypeV { quantity: self.quantity, base_type: base_type_view(self.base_type) }
    }
}

impl BaseTypeV {
    pub open spec fn text(self) -> Seq<char> {
        match self {
            BaseTypeV::Bool => "Bool"@,
            BaseTypeV::Float => "Float"@,
            BaseTypeV::Integer => "Integer"@,
            BaseTypeV::String => "String"@,
            BaseTypeV::Enum(name) => name,
            BaseTypeV::Struct(_) => "Struct"@,
        }
    }
}

impl ValueTypeV {
    /// `Quantity<BaseType>`.
    pub open spec fn text(self) -> Seq<char> {
        quantity_text(self.quantity) + "<"@ + self.base_type.text() + ">"@
    }
}

/// The base type a value written as text has: an integer if it reads as an
/// `i64`, else a float if it reads as an `f32`, else a boolean if it reads as
/// one, else a string.
pub open spec fn spec_infer_base_type(value: Seq<char>) -> BaseTypeV {
    if crate::parse::spec_parse_i64(value) is Some {
        BaseTypeV::Integer
    } else if crate::parse::spec_is_float(value) {
        BaseTypeV::Float
    } else if crate::parse::spec_parse_bool(value) is Some {
        BaseTypeV::Bool
    } else {
        BaseTypeV::String
    }
}

pub fn clone_field_types(fs: &Vec<ConfigStructFieldType>) -> (r: Vec<ConfigStructFieldType>)
    ensures
        field_types_view(r@) == field_types_view(fs@),
    decreases fs,
{
    let mut r: Vec<ConfigStructFieldType> = Vec::new();
    let mut i: usize = 0;
    while i < fs.len()
        invariant
            i <= fs@.len(),
            field_types_view(r@) == field_types_view(fs@.take(i as int)),
        decreases fs@.len() - i,
    {
        assert(decreases_to!(fs => fs@[i as int].value_type.base_type));
        let f = ConfigStructFieldType {
            name: fs[i].name.clone(),
            value_type: ConfigValueType {
                quantity: fs[i].value_type.quantity,
                base_type: fs[i].value_type.base_type.deep_clone(),
            },
        };
        let ghost prev = r@;
        let ghost fg = f;
        assert(field_type_view(fg) == field_type_view(fs@[i as int]));
        r.push(f);
        proof {
            assert(fs@.take(i + 1).drop_last() =~= fs@.take(i as int));
            assert(fs@.take(i + 1).last() == fs@[i as int]);
            assert(r@.drop_last() =~= prev);
            assert(field_types_view(r@) == field_types_view(prev).push(field_type_view(fg)));
        }
        i = i + 1;
    }
    assert(fs@.take(fs@.len() as int) =~= fs@);
    r
}

impl ConfigValueBaseType {
    pub fn deep_clone(&self) -> (r: ConfigValueBaseType)
        ensures
            r@ == self@,
        decreases self,
    {
        match self {
            ConfigValueBaseType::Bool => ConfigValueBaseType::Bool,
            ConfigValueBaseType::Float => ConfigValueBaseType::Float,
            ConfigValueBaseType::Integer => ConfigValueBaseType::Integer,
            ConfigValueBaseType::String => ConfigValueBaseType::String,
            ConfigValueBaseType::Enum(n) => ConfigValueBaseType::Enum(n.clone()),
            ConfigValueBaseType::Struct(fs) => ConfigValueBaseType::Struct(clone_field_types(fs)),
        }
    }

    pub fn to_string(&self) -> (r: String)
        ensures
            r@ == self@.text(),
    {
        match self {
            ConfigValueBaseType::Bool => owned("Bool"),
            ConfigValueBaseType::Float => owned("Float"),
            ConfigValueBaseType::Integer => owned("Integer"),
            ConfigValueBaseType::String => owned("String"),
            ConfigValueBaseType::Enum(name) => name.clone(),
            ConfigValueBaseType::Struct(_) => owned("Struct"),
        }
    }

    /// The base type that the text `value` reads as.
    pub fn infer_from(value: &str) -> (r: ConfigValueBaseType)
        ensures
            r@ == spec_infer_base_type(value@),
    {
        if parse_i64(value).is_some() {
            ConfigValueBaseType::Integer
        } else if is_float(value) {
            ConfigValueBaseType::Float
        } else if Self::try_parse_bool(value).is_some() {
            ConfigValueBaseType::Bool
        } else {
            ConfigValueBaseType::String
        }
    }

    /// Reads `true` or `false` in any ASCII case.
    pub fn try_parse_bool(value: &str) -> (r: Option<bool>)
        ensures
            r == crate::parse::spec_parse_bool(value@),
    {
        parse_bool(value)
    }
}

impl ConfigStructFieldType {
    pub fn deep_clone(&self) -> (r: ConfigStructFieldType)
        ensures
            r@ == self@,
    {
        ConfigStructFieldType { name: self.name.clone(), value_type: self.value_type.deep_clone() }
    }

    /// `name: Quantity<BaseType>`.
    pub fn to_string(&self) -> (r: String)
        ensures
            r@ == self@.name + ": "@ + self@.value_type.text(),
    {
        let a = concat(self.name.as_str(), ": ");
        concat(a.as_str(), self.value_type.to_string().as_str())
    }
}

impl ConfigValueType {
    pub fn deep_clone(&self) -> (r: ConfigValueType)
        ensures
            r@ == self@,
    {
        ConfigValueType { quantity: self.quantity, base_type: self.base_type.deep_clone() }
    }

    pub fn to_string(&self) -> (r: String)
        ensures
            r@ == self@.text(),
    {
        let a = concat(self.quantity.to_string().as_str(), "<");
        let b = concat(a.as_str(), self.base_type.to_string().as_str());
        let r = concat(b.as_str(), ">");
        assert(r@ =~= self@.text());
        r
    }

    /// The type of a value written as text: its quantity and base type are
    /// each inferred from the whole text.
    pub fn infer_from(value: &str) -> (r: ConfigValueType)
        ensures
            r@ == (ValueTypeV {
                quantity: spec_infer_quantity(value@),
                base_type: spec_infer_base_type(value@),
            }),
    {
        ConfigValueType {
            quantity: ConfigQuantity::infer_from(value),
            base_type: ConfigValueBaseType::infer_from(value),
        }
    }
}

/// How a vector setting is written into an INI file.
#[derive(Clone, Copy, Debug, PartialEq, Eq, Structural)]
pub enum VectorSerialization {
    /// One key whose value lists the items separated by commas.
    CommaSeparated,
    /// One key per item: `Name[0]`, `Name[1]`, ...
    Indexed,
    /// The key repeated once per item.
    Repeated,
}

/// One choice of an enumeration.
#[derive(Debug)]
pub struct EnumerationEntry {
    pub display_name: String,
    pub value: String,
}

impl EnumerationEntry {
    /// How the choice is shown: its display name.
    pub fn to_string(&self) -> (r: String)
        ensures
            r@ == self.display_name@,
    {
        self.display_name.clone()
    }

    /// Two choices are the same when their values are.
    pub fn equals(&self, other: &EnumerationEntry) -> (r: bool)
        ensures
            r == (self.value@ == other.value@),
    {
        str_eq(self.value.as_str(), other.value.as_str())
    }

    pub fn deep_clone(&self) -> (r: EnumerationEntry)
        ensures
            r.display_name@ == self.display_name@,
            r.value@ == self.value@,
    {
        EnumerationEntry { display_name: self.display_name.clone(), value: self.value.clone() }
    }
}

/// A named set of choices.
#[derive(Debug)]
pub struct Enumeration {
    pub name: String,
    pub values: Vec<EnumerationEntry>,
}

/// An enumeration as plain values.
pub struct EnumerationV {
    pub name: Seq<char>,
    pub values: Seq<(Seq<char>, Seq<char>)>,
}

impl View for Enumeration {
    type V = EnumerationV;

    open spec fn view(&self) -> EnumerationV {
        EnumerationV {
            name: self.name@,
            values: self.values@.map_values(|e: EnumerationEntry| (e.display_name@, e.value@)),
        }
    }
}

impl Enumeration {
    pub fn deep_clone(&self) -> (r: Enumeration)
        ensures
            r@ == self@,
    {
        let mut values: Vec<EnumerationEntry> = Vec::new();
        let mut i: usize = 0;
        while i < self.values.len()
            invariant
                i <= self.values@.len(),
                values@.len() == i,
                forall|k: int| 0 <= k < i ==> (#[trigger] values@[k]).display_name@ == self.values@[k].display_name@
                    && values@[k].value@ == self.values@[k].value@,
            decreases self.values@.len() - i,
        {
            values.push(self.values[i].deep_clone());
            i = i + 1;
        }
        let r = Enumeration { name: self.name.clone(), values };
        assert(r@.values =~= self@.values);
        r
    }
}

/// What is known of one setting: where it goes, its type and default.
#[derive(Debug)]
pub struct MetadataEntry {
    pub name: String,
    pub location: ConfigLocation,
    /// Whether this came from importing an INI file.
    pub is_autogenerated: bool,
    /// Whether this belongs to the built-in metadata.
    pub is_built_in: bool,
    pub is_deprecated: bool,
    /// How a vector value is written to an INI file; comma-separated when
    /// not given.
    pub vector_serialization: Option<VectorSerialization>,
    pub description: String,
    pub value_type: ConfigValueType,
    pub default_value: Option<ConfigVariant>,
}

/// A metadata entry as plain values.
pub struct MetadataEntryV {
    pub name: Seq<char>,
    pub location: ConfigLocationV,
    pub is_autogenerated: bool,
    pub is_built_in: bool,
    pub is_deprecated: bool,
    pub vector_serialization: Option<VectorSerialization>,
    pub description: Seq<char>,
    pub value_type: ValueTypeV,
    pub default_value: Option<VariantV>,
}

impl View for MetadataEntry {
    type V = MetadataEntryV;

    open spec fn view(&self) -> MetadataEntryV {
        MetadataEntryV {
            name: self.name@,
            location: self.location@,
            is_autogenerated: self.is_autogenerated,
            is_built_in: self.is_built_in,
            is_deprecated: self.is_deprecated,
            vector_serialization: self.vector_serialization,
            description: self.description@,
            value_type: self.value_type@,
            default_value: match self.default_value {
                Some(v) => Some(v@),
                None => None,
            },
        }
    }
}

/// The entry describes the setting `name` at `location`.
pub open spec fn entry_is(e: MetadataEntryV, name: Seq<char>, location: ConfigLocationV) -> bool {
    e.name == name && e.location == location
}

impl MetadataEntry {
    pub fn get_name_location(&self) -> (r: (&String, &ConfigLocation))
        ensures
            r.0@ == self.name@,
            r.1@ == self.location@,
    {
        (&self.name, &self.location)
    }

    pub fn deep_clone(&self) -> (r: MetadataEntry)
        ensures
            r@ == self@,
    {
        MetadataEntry {
            name: self.name.clone(),
            location: self.location.deep_clone(),
            is_autogenerated: self.is_autogenerated,
            is_built_in: self.is_built_in,
            is_deprecated: self.is_deprecated,
            vector_serialization: self.vector_serialization,
            description: self.description.clone(),
            value_type: self.value_type.deep_clone(),
            default_value: match &self.default_value {
                Some(v) => Some(v.deep_clone()),
                None => None,
            },
        }
    }
}

impl Default for MetadataEntry {
    /// An unnamed, auto-generated, built-in scalar string setting of
    /// GameUserSettings.ini [ServerSettings], with no default.
    fn default() -> (r: MetadataEntry)
        ensures
            r@ == (MetadataEntryV {
                name: seq![],
                location: ConfigLocationV::IniOption(IniFileV::GameUserSettings, IniSectionV::ServerSettings),
                is_autogenerated: true,
                is_built_in: true,
                is_deprecated: false,
                vector_serialization: None,
                description: seq![],
                value_type: ValueTypeV { quantity: ConfigQuantity::Scalar, base_type: BaseTypeV::String },
                default_value: None,
            }),
    {
        MetadataEntry {
            name: String::new(),
            location: ConfigLocation::IniOption(IniFile::GameUserSettings, IniSection::ServerSettings),
            is_autogenerated: true,
            is_built_in: true,
            is_deprecated: false,
            vector_serialization: None,
            description: String::new(),
            value_type: ConfigValueType {
                quantity: ConfigQuantity::Scalar,
                base_type: ConfigValueBaseType::String,
            },
            default_value: None,
        }
    }
}

/// The metadata of all known settings, with the enumerations they use.
#[derive(Debug)]
pub struct ConfigMetadata {
    pub enums: Vec<Enumeration>,
    pub entries: Vec<MetadataEntry>,
}

/// Metadata as plain values.
pub struct ConfigMetadataV {
    pub enums: Seq<EnumerationV>,
    pub entries: Seq<MetadataEntryV>,
}

impl View for ConfigMetadata {
    type V = ConfigMetadataV;

    open spec fn view(&self) -> ConfigMetadataV {
        ConfigMetadataV {
            enums: self.enums@.map_values(|e: Enumeration| e@),
            entries: self.entries@.map_values(|e: MetadataEntry| e@),
        }
    }
}

/// The first index whose entry describes `name` at `location`.
pub open spec fn first_entry_index(entries: Seq<MetadataEntryV>, name: Seq<char>, location: ConfigLocationV) -> Option<int>
    decreases entries.len(),
{
    if entries.len() == 0 {
        None
    } else {
        match first_entry_index(entries.drop_last(), name, location) {
            Some(i) => Some(i),
            None => if entry_is(entries.last(), name, location) {
                Some(entries.len() - 1)
            } else {
                None
            },
        }
    }
}

/// `first_entry_index` is the least index that describes the setting.
pub proof fn lemma_first_entry_index(entries: Seq<MetadataEntryV>, name: Seq<char>, location: ConfigLocationV)
    ensures
        match first_entry_index(entries, name, location) {
            Some(i) => 0 <= i < entries.len() && entry_is(entries[i], name, location) && forall|j: int|
                0 <= j < i ==> !entry_is(#[trigger] entries[j], name, location),
            None => forall|j: int| 0 <= j < entries.len() ==> !entry_is(#[trigger] entries[j], name, location),
        },
    decreases entries.len(),
{
    if entries.len() > 0 {
        lemma_first_entry_index(entries.drop_last(), name, location);
        assert forall|j: int| 0 <= j < entries.len() - 1 implies entries[j] == entries.drop_last()[j] by {}
    }
}

impl ConfigMetadata {
    /// An empty set of metadata.
    pub fn new() -> (r: ConfigMetadata)
        ensures
            r@.enums.len() == 0,
            r@.entries.len() == 0,
    {
        ConfigMetadata { enums: Vec::new(), entries: Vec::new() }
    }

    /// The first entry that describes the setting `name` at `location`, with
    /// its index.
    pub fn find_entry(&self, name: &str, location: &ConfigLocation) -> (r: Option<(usize, &MetadataEntry)>)
        ensures
            match r {
                Some((i, e)) => {
                    &&& i < self.entries@.len()
                    &&& *e == self.entries@[i as int]
                    &&& entry_is(self@.entries[i as int], name@, location@)
                    &&& forall|j: int| 0 <= j < i ==> !entry_is(#[trigger] self@.entries[j], name@, location@)
                },
                None => forall|j: int| 0 <= j < self@.entries.len() ==> !entry_is(#[trigger] self@.entries[j], name@, location@),
            },
    {
        let mut i: usize = 0;
        while i < self.entries.len()
            invariant
                i <= self.entries@.len(),
                forall|j: int| 0 <= j < i ==> !entry_is(#[trigger] self@.entries[j], name@, location@),
            decreases self.entries@.len() - i,
        {
            let e = &self.entries[i];
            if str_eq(e.name.as_str(), name) && e.location.equals(location) {
                return Some((i, e));
            }
            i = i + 1;
        }
        None
    }

    /// The first enumeration called `name`, with its index.
    pub fn find_enum(&self, name: &str) -> (r: Option<(usize, &Enumeration)>)
        ensures
            match r {
                Some((i, e)) => {
                    &&& i < self.enums@.len()
                    &&& *e == self.enums@[i as int]
                    &&& self@.enums[i as int].name == name@
                    &&& forall|j: int| 0 <= j < i ==> (#[trigger] self@.enums[j]).name != name@
                },
                None => forall|j: int| 0 <= j < self@.enums.len() ==> (#[trigger] self@.enums[j]).name != name@,
            },
    {
        let mut i: usize = 0;
        while i < self.enums.len()
            invariant
                i <= self.enums@.len(),
                forall|j: int| 0 <= j < i ==> (#[trigger] self@.enums[j]).name != name@,
            decreases self.enums@.len() - i,
        {
            let e = &self.enums[i];
            if str_eq(e.name.as_str(), name) {
                return Some((i, e));
            }
            i = i + 1;
        }
        None
    }
}

} // verus!
