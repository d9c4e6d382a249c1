use asma::certs::certificate_blocks;
use asma::command_line::{generate_command_line, CommandLineError};
use asma::config::entry::{ConfigEntries, ConfigEntry};
use asma::config::metadata::{
    ConfigLocation, ConfigMetadata, ConfigQuantity, ConfigStructFieldType, ConfigValueBaseType,
    ConfigValueType, Enumeration, EnumerationEntry, IniFile, IniSection, MetadataEntry,
    VectorSerialization,
};
use asma::config::state::{validate_enumerations, ConfigMetadataState, MetadataError};
use asma::config::variant::{ConfigError, ConfigStructFieldVariant, ConfigValue, ConfigVariant};
use asma::config::{get_locations, get_quantities, get_value_base_types};
use asma::editor::{
    perform_change, perform_change_at_path, InterimValue, SettingChange, SettingEditor, SettingEditorMessage,
    VectorChange,
};
use asma::packaging::{
    build_output_dirs, latest_zip_name, version_json_name, versioned_zip_name, BuildTarget, ReleaseTarget,
};
use asma::global::{
    get_changelog_url, get_default_app_id, get_default_curseforge_app_id, get_patch_notes_url,
    get_server_api_github_url, GlobalSettings, ThemeType,
};
use asma::ini_document::{apply_ini_edit, apply_ini_edits, ini_new};
use asma::ini_plan::{
    import_config_file, import_ini_with_metadata, plan_ini_updates, unreal_escaped_value, IniEdit,
    IniFileEdit, IniRow,
};
use asma::mods::{
    mod_statuses, mod_update_counts, mods_update_message, parse_installed_mod_dir, requested_mods,
    server_update_message, unique_project_ids, InstalledMod,
    ModProject, ModStatus, ModUpdateRecords, ServerModsRecord,
};
use asma::monitor::{
    exec_list_players_command, exec_stop_command, parse_player_list, players_from_matches, process_verdict, rcon_pump,
    request_stop, round_players, should_send_rcon_command, update_check_due, ProcessObservation, ProcessVerdict,
    RconEvent, RconExecResponse, RconLinkState, RconResponse, RunState, ServerMonitorState,
};
use asma::parse::{is_float, parse_bool, parse_i32, parse_i64, parse_unsigned};
use asma::rcon::{AuthStep, Connection, Packet, PacketType, ReadError};
use asma::self_update::{
    cleanup_step, copy_step, release_file_name, CleanupStep, CopyStep, ReleaseFile, RemoveOutcome,
};
use asma::server::{
    extract_app_state_field, process_steamcmd_line, progress_from_matches, read_app_manifest, read_steamcmd_line, server_executable,
    steam_app_version, steamcmd_args, ManifestError, ManifestState, RunData, ServerSettings,
    SteamCmdProgress, UpdateMode,
};
use asma::profile::{close_action, CloseAction};
use asma::version::asa_version_from_bytes;

// ---------------------------------------------------------------- helpers

fn scalar(base_type: ConfigValueBaseType) -> ConfigValueType {
    ConfigValueType { quantity: ConfigQuantity::Scalar, base_type }
}

fn vector(base_type: ConfigValueBaseType) -> ConfigValueType {
    ConfigValueType { quantity: ConfigQuantity::Vector, base_type }
}

fn ini_location(file: IniFile, section: IniSection) -> ConfigLocation {
    ConfigLocation::IniOption(file, section)
}

fn meta(name: &str, location: ConfigLocation, value_type: ConfigValueType, default_value: Option<ConfigVariant>) -> MetadataEntry {
    MetadataEntry {
        name: name.to_string(),
        location,
        is_autogenerated: false,
        is_built_in: true,
        is_deprecated: false,
        vector_serialization: None,
        description: String::new(),
        value_type,
        default_value,
    }
}

fn entry(name: &str, location: ConfigLocation, value: ConfigVariant) -> ConfigEntry {
    ConfigEntry { meta_name: name.to_string(), meta_location: location, is_favorite: false, value }
}

fn settings_with(entries: Vec<ConfigEntry>) -> ServerSettings {
    ServerSettings {
        id: 1,
        name: "Test".to_string(),
        installation_location: "C:/asa".to_string(),
        allow_external_ini_management: false,
        use_external_rcon: false,
        config_entries: ConfigEntries { entries },
    }
}

fn metadata(entries: Vec<MetadataEntry>) -> ConfigMetadata {
    ConfigMetadata { enums: Vec::new(), entries }
}

fn empty_metadata() -> ConfigMetadata {
    metadata(Vec::new())
}

fn int_value(v: i64) -> ConfigVariant {
    ConfigVariant::Scalar(ConfigValue::Integer(v))
}

fn string_value(v: &str) -> ConfigVariant {
    ConfigVariant::Scalar(ConfigValue::String(v.to_string()))
}

// ---------------------------------------------------------------- rcon

#[test]
fn packet_serializes_to_little_endian_frame() {
    let p = Packet::new(7, PacketType::ExecCommand, "hi".to_string());
    assert_eq!(p.get_length(), 12);
    assert_eq!(p.serialize(), vec![12, 0, 0, 0, 7, 0, 0, 0, 2, 0, 0, 0, b'h', b'i', 0, 0]);
}

#[test]
fn packet_reads_back_what_was_written() {
    let p = Packet::new(42, PacketType::ResponseValue, "players: 3".to_string());
    let bytes = p.serialize();
    let (q, used) = Packet::deserialize(&bytes).ok().unwrap();
    assert_eq!(used, bytes.len());
    assert_eq!(q.get_id(), 42);
    assert_eq!(q.get_body(), "players: 3");
    assert_eq!(q.get_length(), p.get_length());
    assert_eq!(q.get_type(), PacketType::ResponseValue);
}

#[test]
fn packet_type_two_reads_as_auth_response() {
    let p = Packet::new(1, PacketType::ExecCommand, String::new());
    let (q, _) = Packet::deserialize(&p.serialize()).ok().unwrap();
    assert_eq!(q.get_type(), PacketType::AuthResponse);
}

#[test]
fn packet_type_numbers() {
    assert_eq!(PacketType::Auth.to_i32(), 3);
    assert_eq!(PacketType::AuthResponse.to_i32(), 2);
    assert_eq!(PacketType::ExecCommand.to_i32(), 2);
    assert_eq!(PacketType::ResponseValue.to_i32(), 0);
    assert_eq!(PacketType::Unknown(9).to_i32(), 9);
    assert_eq!(PacketType::from_i32(2, false), PacketType::ExecCommand);
    assert_eq!(PacketType::from_i32(2, true), PacketType::AuthResponse);
    assert_eq!(PacketType::from_i32(5, true), PacketType::Unknown(5));
}

#[test]
fn packet_short_header_is_eof() {
    let r = Packet::deserialize(&[10, 0, 0, 0, 1, 0]);
    assert!(matches!(r, Err(ReadError::UnexpectedEof)));
}

#[test]
fn packet_missing_terminator_is_eof() {
    let mut bytes = Packet::new(3, PacketType::ResponseValue, "ok".to_string()).serialize();
    bytes.truncate(bytes.len() - 1);
    assert!(matches!(Packet::deserialize(&bytes), Err(ReadError::UnexpectedEof)));
}

#[test]
fn packet_invalid_utf8_is_invalid_data() {
    let bytes = vec![11, 0, 0, 0, 1, 0, 0, 0, 0, 0, 0, 0, 0xff, 0, 0];
    assert!(matches!(Packet::deserialize(&bytes), Err(ReadError::InvalidData)));
}

#[test]
fn packet_negative_id_is_error() {
    assert!(Packet::new(-1, PacketType::AuthResponse, String::new()).is_error());
    assert!(!Packet::new(0, PacketType::AuthResponse, String::new()).is_error());
}

#[test]
fn connection_ids_count_from_one() {
    let mut c = Connection::new();
    assert_eq!(c.generate_packet_id(), 1);
    assert_eq!(c.generate_packet_id(), 2);
    let (id, bytes) = c.send(PacketType::ExecCommand, "ListPlayers");
    assert_eq!(id, 3);
    assert_eq!(bytes.len(), 14 + "ListPlayers".len());
    let (auth_id, auth_bytes) = c.auth_request("secret");
    assert_eq!(auth_id, 4);
    assert_eq!(&auth_bytes[8..12], &[3, 0, 0, 0]);
}

#[test]
fn auth_handshake_steps() {
    let refused = Packet::new(-1, PacketType::AuthResponse, String::new());
    let accepted = Packet::new(5, PacketType::AuthResponse, String::new());
    let other = Packet::new(5, PacketType::ResponseValue, String::new());
    assert_eq!(Connection::auth_step(&refused), AuthStep::Refused);
    assert_eq!(Connection::auth_step(&accepted), AuthStep::Authenticated);
    assert_eq!(Connection::auth_step(&other), AuthStep::KeepWaiting);
}

#[test]
fn command_response_carries_body() {
    let p = Packet::new(8, PacketType::ResponseValue, "done".to_string());
    let (id, body) = Connection::command_response(8, &p);
    assert_eq!(id, 8);
    assert_eq!(body, "done");
}

// ---------------------------------------------------------------- parsing

#[test]
fn parse_i64_cases() {
    assert_eq!(parse_i64("42"), Some(42));
    assert_eq!(parse_i64("-42"), Some(-42));
    assert_eq!(parse_i64("+7"), Some(7));
    assert_eq!(parse_i64(""), None);
    assert_eq!(parse_i64("-"), None);
    assert_eq!(parse_i64("1a"), None);
    assert_eq!(parse_i64("9223372036854775807"), Some(i64::MAX));
    assert_eq!(parse_i64("9223372036854775808"), None);
    assert_eq!(parse_i64("-9223372036854775808"), Some(i64::MIN));
}

#[test]
fn parse_i32_bounds() {
    assert_eq!(parse_i32("2147483647"), Some(i32::MAX));
    assert_eq!(parse_i32("2147483648"), None);
    assert_eq!(parse_i32("-2147483648"), Some(i32::MIN));
}

#[test]
fn parse_unsigned_hex_and_decimal() {
    assert_eq!(parse_unsigned("61", 16, u64::MAX), Some(0x61));
    assert_eq!(parse_unsigned("fF", 16, u64::MAX), Some(255));
    assert_eq!(parse_unsigned("256", 10, 255), None);
    assert_eq!(parse_unsigned("-1", 10, u64::MAX), None);
}

#[test]
fn parse_bool_ignores_ascii_case() {
    assert_eq!(parse_bool("true"), Some(true));
    assert_eq!(parse_bool("TRUE"), Some(true));
    assert_eq!(parse_bool("False"), Some(false));
    assert_eq!(parse_bool("yes"), None);
    assert_eq!(ConfigValueBaseType::try_parse_bool("fAlSe"), Some(false));
}

#[test]
fn float_grammar() {
    assert!(is_float("1.5"));
    assert!(is_float("-.5"));
    assert!(is_float("3."));
    assert!(is_float("1e10"));
    assert!(is_float("inf"));
    assert!(is_float("-Infinity"));
    assert!(is_float("NaN"));
    assert!(!is_float("."));
    assert!(!is_float("1e"));
    assert!(!is_float("abc"));
    for s in ["1.5", "-.5", "3.", "1e10", "inf", "NaN", ".", "1e", "abc"] {
        assert_eq!(is_float(s), s.parse::<f32>().is_ok(), "{}", s);
    }
}

// ---------------------------------------------------------------- config model

#[test]
fn ini_file_names() {
    assert!(matches!(IniFile::from("Game.INI"), IniFile::Game));
    assert!(matches!(IniFile::from("gameusersettings.ini"), IniFile::GameUserSettings));
    match IniFile::from("Engine.ini") {
        IniFile::Custom(name) => assert_eq!(name, "engine.ini"),
        _ => panic!("expected a custom file"),
    }
    assert_eq!(IniFile::Game.to_string(), "Game");
    assert_eq!(IniFile::GameUserSettings.to_string(), "GameUserSettings");
}

#[test]
fn ini_section_names() {
    assert!(matches!(IniSection::from("ServerSettings"), IniSection::ServerSettings));
    assert!(matches!(IniSection::from("/Script/Engine.GameSession"), IniSection::ScriptEngineGameSession));
    assert!(matches!(IniSection::from("raganarok"), IniSection::Ragnarok));
    match IniSection::from("Ragnarok") {
        IniSection::Custom(name) => assert_eq!(name, "ragnarok"),
        _ => panic!("expected a custom section"),
    }
    assert_eq!(IniSection::ScriptEngineGameSession.to_string(), "/Script/Engine.GameSession");
    assert!(IniSection::MultiHome.equals(&IniSection::from("MULTIHOME")));
}

#[test]
fn quantities_and_base_types_are_inferred() {
    assert!(matches!(ConfigQuantity::infer_from("[1,2]"), ConfigQuantity::Vector));
    assert!(matches!(ConfigQuantity::infer_from("1,2"), ConfigQuantity::Scalar));
    assert!(matches!(ConfigValueBaseType::infer_from("12"), ConfigValueBaseType::Integer));
    assert!(matches!(ConfigValueBaseType::infer_from("1.25"), ConfigValueBaseType::Float));
    assert!(matches!(ConfigValueBaseType::infer_from("True"), ConfigValueBaseType::Bool));
    assert!(matches!(ConfigValueBaseType::infer_from("hello"), ConfigValueBaseType::String));
    assert_eq!(ConfigValueType::infer_from("[1,2]").to_string(), "Vector<String>");
}

#[test]
fn type_names() {
    assert_eq!(scalar(ConfigValueBaseType::Integer).to_string(), "Scalar<Integer>");
    assert_eq!(vector(ConfigValueBaseType::Enum("Colors".to_string())).to_string(), "Vector<Colors>");
    let field = ConfigStructFieldType { name: "X".to_string(), value_type: scalar(ConfigValueBaseType::Float) };
    assert_eq!(field.to_string(), "X: Scalar<Float>");
    assert_eq!(get_locations().len(), 11);
    assert_eq!(get_quantities().len(), 2);
    let base_types: Vec<String> = get_value_base_types().iter().map(|b| b.to_string()).collect();
    assert_eq!(base_types, vec!["Bool", "Float", "Integer", "String", "Unknown"]);
}

#[test]
fn values_are_written_as_text() {
    assert_eq!(ConfigValue::Bool(true).to_string(), "true");
    assert_eq!(ConfigValue::Integer(-3).to_string(), "-3");
    assert_eq!(ConfigValue::Float("0.5".to_string()).to_string(), "0.5");
    assert_eq!(ConfigValue::Enum { enum_name: "E".to_string(), value: "A".to_string() }.to_string(), "A");
    let s = ConfigValue::Struct(vec![
        ConfigStructFieldVariant { name: "Name".to_string(), value: string_value("Bob") },
        ConfigStructFieldVariant { name: "Count".to_string(), value: int_value(2) },
        ConfigStructFieldVariant {
            name: "Items".to_string(),
            value: ConfigVariant::Vector(vec![ConfigValue::String("a".to_string()), ConfigValue::Integer(1)]),
        },
    ]);
    assert_eq!(s.to_string(), "(Name=\"Bob\",Count=2,Items=(\"a\",1))");
    let v = ConfigVariant::Vector(vec![ConfigValue::Integer(1), ConfigValue::Integer(2)]);
    assert_eq!(v.to_string(), "1,2");
    let structs = ConfigVariant::Vector(vec![ConfigValue::Struct(vec![]), ConfigValue::Struct(vec![])]);
    assert_eq!(structs.to_string(), "((),())");
}

#[test]
fn values_are_read_from_text() {
    let v = ConfigVariant::from_type_and_value(&vector(ConfigValueBaseType::Integer), "1,2,3").ok().unwrap();
    assert!(v.equals(&ConfigVariant::Vector(vec![ConfigValue::Integer(1), ConfigValue::Integer(2), ConfigValue::Integer(3)])));
    let s = ConfigVariant::from_type_and_value(&scalar(ConfigValueBaseType::String), "a,b").ok().unwrap();
    assert!(s.equals(&string_value("a,b")));
    assert!(matches!(
        ConfigVariant::from_type_and_value(&vector(ConfigValueBaseType::Integer), "1,x"),
        Err(ConfigError::InvalidInteger)
    ));
    assert!(matches!(ConfigValue::from_type_and_value(&scalar(ConfigValueBaseType::Bool), "maybe"), Err(ConfigError::InvalidBool)));
    assert!(matches!(ConfigValue::from_type_and_value(&scalar(ConfigValueBaseType::Float), "1..2"), Err(ConfigError::InvalidFloat)));
    assert!(matches!(
        ConfigValue::from_type_and_value(&scalar(ConfigValueBaseType::Enum("E".to_string())), "A"),
        Err(ConfigError::EnumNotSupported)
    ));
    assert!(matches!(
        ConfigValue::from_type_and_value(&scalar(ConfigValueBaseType::Struct(vec![])), "()"),
        Err(ConfigError::StructNotSupported)
    ));
}

#[test]
fn written_vector_reads_back() {
    let v = ConfigVariant::Vector(vec![ConfigValue::String("x".to_string()), ConfigValue::String("y".to_string())]);
    let text = v.to_string();
    let back = ConfigVariant::from_type_and_value(&vector(ConfigValueBaseType::String), &text).ok().unwrap();
    assert!(back.equals(&v));
}

#[test]
fn defaults_from_type() {
    let t = scalar(ConfigValueBaseType::Struct(vec![
        ConfigStructFieldType { name: "A".to_string(), value_type: scalar(ConfigValueBaseType::Integer) },
        ConfigStructFieldType { name: "B".to_string(), value_type: vector(ConfigValueBaseType::String) },
    ]));
    let d = ConfigVariant::default_from_type(&t);
    assert_eq!(d.to_string(), "(A=0,B=())");
    assert_eq!(ConfigValue::default_from_type(&scalar(ConfigValueBaseType::Float)).to_string(), "0");
    assert!(ConfigVariant::default_from_type(&vector(ConfigValueBaseType::Bool)).equals(&ConfigVariant::Vector(vec![])));
    assert_eq!(d.get_value_type().to_string(), "Scalar<Struct>");
    assert_eq!(ConfigVariant::Vector(vec![]).get_value_type().to_string(), "Vector<String>");
}

#[test]
fn variant_getters() {
    assert_eq!(ConfigVariant::Scalar(ConfigValue::Bool(true)).try_get_bool_value(), Some(true));
    assert_eq!(int_value(5).try_get_int_value(), Some(5));
    assert_eq!(int_value(5).try_get_string_value(), None);
    assert_eq!(string_value("s").try_get_string_value(), Some("s".to_string()));
}

#[test]
fn metadata_lookup_finds_first_match() {
    let loc = ConfigLocation::CommandLineOption;
    let m = metadata(vec![
        meta("A", ConfigLocation::CommandLineOption, scalar(ConfigValueBaseType::Bool), None),
        meta("A", ConfigLocation::MapUrlOption, scalar(ConfigValueBaseType::Bool), None),
    ]);
    let (i, _) = m.find_entry("A", &loc).unwrap();
    assert_eq!(i, 0);
    let (j, _) = m.find_entry("A", &ConfigLocation::MapUrlOption).unwrap();
    assert_eq!(j, 1);
    assert!(m.find_entry("B", &loc).is_none());
}

#[test]
fn entries_lookup_and_getters() {
    let loc = ini_location(IniFile::Game, IniSection::ServerSettings);
    let entries = ConfigEntries {
        entries: vec![
            entry("Port", ini_location(IniFile::Game, IniSection::ServerSettings), int_value(7777)),
            entry("Name", ini_location(IniFile::Game, IniSection::ServerSettings), string_value("srv")),
        ],
    };
    assert_eq!(entries.try_get_int_value("Port", &loc), Some(7777));
    assert_eq!(entries.try_get_string_value("Name", &loc), Some("srv".to_string()));
    assert_eq!(entries.try_get_bool_value("Port", &loc), None);
    assert_eq!(entries.find("Name", &loc).unwrap().0, 1);
}

#[test]
fn effective_metadata_prefers_user_entries() {
    let loc = ConfigLocation::CommandLineOption;
    let built_in = metadata(vec![
        meta("A", ConfigLocation::CommandLineOption, scalar(ConfigValueBaseType::Integer), Some(int_value(1))),
        meta("B", ConfigLocation::CommandLineOption, scalar(ConfigValueBaseType::Integer), Some(int_value(2))),
    ]);
    let user = metadata(vec![meta("A", ConfigLocation::CommandLineOption, scalar(ConfigValueBaseType::Integer), Some(int_value(10)))]);
    let mut state = ConfigMetadataState::from_built_in_and_local(built_in, user);
    let a = state.effective().find_entry("A", &loc).unwrap().1;
    assert_eq!(a.default_value.as_ref().unwrap().try_get_int_value(), Some(10));
    let b = state.effective().find_entry("B", &loc).unwrap().1;
    assert_eq!(b.default_value.as_ref().unwrap().try_get_int_value(), Some(2));
    let mut added = meta("C", ConfigLocation::CommandLineOption, scalar(ConfigValueBaseType::Bool), None);
    added.is_built_in = true;
    added.is_autogenerated = true;
    let index = state.add_user_entry(added);
    assert_eq!(index, 1);
    assert!(!state.user().entries[1].is_built_in);
    assert!(!state.user().entries[1].is_autogenerated);
    assert!(state.effective().find_entry("C", &loc).is_some());
    let mut replacement = meta("C", ConfigLocation::CommandLineOption, scalar(ConfigValueBaseType::Integer), Some(int_value(4)));
    replacement.is_autogenerated = true;
    state.replace_user_entry(1, replacement);
    assert!(!state.user().entries[1].is_autogenerated);
    let c = state.effective().find_entry("C", &loc).unwrap().1;
    assert_eq!(c.default_value.as_ref().unwrap().try_get_int_value(), Some(4));
    state.remove_user_override(0);
    let a = state.effective().find_entry("A", &loc).unwrap().1;
    assert_eq!(a.default_value.as_ref().unwrap().try_get_int_value(), Some(1));
}

#[test]
fn import_metadata_stops_at_unreadable_default() {
    let built_in = metadata(vec![meta("A", ConfigLocation::CommandLineOption, scalar(ConfigValueBaseType::Integer), None)]);
    let mut state = ConfigMetadataState::from_built_in_and_local(built_in, empty_metadata());
    let new = metadata(vec![
        meta("X", ConfigLocation::CommandLineOption, scalar(ConfigValueBaseType::String), None),
        meta("A", ConfigLocation::CommandLineOption, scalar(ConfigValueBaseType::String), Some(string_value("nope"))),
        meta("Y", ConfigLocation::CommandLineOption, scalar(ConfigValueBaseType::String), None),
    ]);
    let r = state.import_metadata(new);
    assert!(matches!(r, Err(ConfigError::InvalidInteger)));
    assert_eq!(state.user().entries.len(), 1);
    assert_eq!(state.user().entries[0].name, "X");
}

#[test]
fn import_metadata_converts_built_in_settings() {
    let loc = ConfigLocation::CommandLineOption;
    let built_in = metadata(vec![meta("A", ConfigLocation::CommandLineOption, scalar(ConfigValueBaseType::Integer), Some(int_value(1)))]);
    let mut state = ConfigMetadataState::from_built_in_and_local(built_in, empty_metadata());
    let new = metadata(vec![
        meta("A", ConfigLocation::CommandLineOption, scalar(ConfigValueBaseType::String), Some(string_value("5"))),
        meta("Z", ConfigLocation::CommandLineOption, scalar(ConfigValueBaseType::Bool), None),
    ]);
    assert!(state.import_metadata(new).is_ok());
    assert_eq!(state.user().entries.len(), 2);
    let a = &state.user().entries[0];
    assert_eq!(a.name, "A");
    assert_eq!(a.value_type.quantity, ConfigQuantity::Scalar);
    assert!(matches!(a.value_type.base_type, ConfigValueBaseType::Integer));
    assert_eq!(a.default_value.as_ref().unwrap().try_get_int_value(), Some(5));
    let effective_a = state.effective().find_entry("A", &loc).unwrap().1;
    assert_eq!(effective_a.default_value.as_ref().unwrap().try_get_int_value(), Some(5));
    assert!(state.effective().find_entry("Z", &loc).is_some());
}

#[test]
fn enumerations_must_exist() {
    let mut m = metadata(vec![
        meta("A", ConfigLocation::CommandLineOption, scalar(ConfigValueBaseType::Integer), None),
        meta("B", ConfigLocation::CommandLineOption, scalar(ConfigValueBaseType::Enum("Colors".to_string())), None),
    ]);
    assert_eq!(validate_enumerations(&m), Err(MetadataError::MissingEnumeration { entry_index: 1 }));
    m.enums.push(Enumeration {
        name: "Colors".to_string(),
        values: vec![EnumerationEntry { display_name: "Red".to_string(), value: "red".to_string() }],
    });
    assert_eq!(validate_enumerations(&m), Ok(()));
    assert_eq!(m.find_enum("Colors").unwrap().0, 0);
}

#[test]
fn default_metadata_entry() {
    let m = MetadataEntry::default();
    assert_eq!(m.name, "");
    assert!(m.default_value.is_none());
    assert!(m.is_autogenerated && m.is_built_in);
    assert!(matches!(m.location, ConfigLocation::IniOption(IniFile::GameUserSettings, IniSection::ServerSettings)));
    assert_eq!(m.value_type.to_string(), "Scalar<String>");
}

// ---------------------------------------------------------------- command line

fn map_meta() -> MetadataEntry {
    meta("Map", ConfigLocation::MapName, scalar(ConfigValueBaseType::String), Some(string_value("TheIsland_WP")))
}

#[test]
fn command_line_with_url_options_and_switches() {
    let state = ConfigMetadataState::from_built_in_and_local(
        metadata(vec![
            map_meta(),
            meta("SessionName", ConfigLocation::MapUrlOption, scalar(ConfigValueBaseType::String), None),
            meta("Port", ConfigLocation::MapUrlOption, scalar(ConfigValueBaseType::Integer), None),
            meta("NoBattlEye", ConfigLocation::CommandLineOption, scalar(ConfigValueBaseType::Bool), None),
            meta("Off", ConfigLocation::CommandLineOption, scalar(ConfigValueBaseType::Bool), None),
            meta("WinLiveMaxPlayers", ConfigLocation::CommandLineOption, scalar(ConfigValueBaseType::Integer), None),
        ]),
        empty_metadata(),
    );
    let settings = settings_with(vec![
        entry("SessionName", ConfigLocation::MapUrlOption, string_value("My Server")),
        entry("Port", ConfigLocation::MapUrlOption, int_value(7777)),
        entry("NoBattlEye", ConfigLocation::CommandLineOption, ConfigVariant::Scalar(ConfigValue::Bool(true))),
        entry("Off", ConfigLocation::CommandLineOption, ConfigVariant::Scalar(ConfigValue::Bool(false))),
        entry("WinLiveMaxPlayers", ConfigLocation::CommandLineOption, int_value(70)),
    ]);
    let args = generate_command_line(&state, &settings).ok().unwrap();
    assert_eq!(
        args,
        vec![
            "TheIsland_WP?SessionName=My Server?Port=7777".to_string(),
            "-NoBattlEye".to_string(),
            String::new(),
            "-WinLiveMaxPlayers=70".to_string(),
        ]
    );
}

#[test]
fn command_line_map_from_settings_without_options() {
    let state = ConfigMetadataState::from_built_in_and_local(metadata(vec![map_meta()]), empty_metadata());
    let settings = settings_with(vec![entry("Map", ConfigLocation::MapName, string_value("ScorchedEarth_WP"))]);
    assert_eq!(generate_command_line(&state, &settings).ok().unwrap(), vec!["ScorchedEarth_WP".to_string()]);
}

#[test]
fn command_line_errors() {
    let state = ConfigMetadataState::from_built_in_and_local(empty_metadata(), empty_metadata());
    let settings = settings_with(vec![entry("Unknown", ConfigLocation::CommandLineOption, int_value(1))]);
    assert_eq!(generate_command_line(&state, &settings), Err(CommandLineError::MissingMetadata));
    assert_eq!(generate_command_line(&state, &settings_with(vec![])), Err(CommandLineError::MissingMapName));
}

// ---------------------------------------------------------------- INI files

#[test]
fn unreal_escaping() {
    assert_eq!(unreal_escaped_value("abc.1/2"), "abc.1/2");
    assert_eq!(unreal_escaped_value("a b"), "\"a b\"");
    assert_eq!(unreal_escaped_value("say \"hi\""), "\"say \\\"hi\\\"\"");
    assert_eq!(unreal_escaped_value("c:\\x"), "\"c:\\\\x\"");
    assert_eq!(unreal_escaped_value(""), "");
}

fn edit_summary(e: &IniFileEdit) -> String {
    let file = e.file.to_string();
    match &e.edit {
        IniEdit::Delete { section, key } => format!("{} delete [{}] {}", file, section, key),
        IniEdit::SetValue { section, key, value } => format!("{} set [{}] {}={}", file, section, key, value),
        IniEdit::RemoveKeysWithPrefix { section, prefix } => format!("{} remove-prefix [{}] {}", file, section, prefix),
        IniEdit::RemoveAll { section, key } => format!("{} remove-all [{}] {}", file, section, key),
        IniEdit::Append { section, key, value } => format!("{} append [{}] {}={}", file, section, key, value),
    }
}

fn ini_metadata() -> ConfigMetadata {
    let mut indexed = meta(
        "ConfigOverrideItemMaxQuantity",
        ini_location(IniFile::Game, IniSection::ScriptShooterGameShooterGameMode),
        vector(ConfigValueBaseType::Integer),
        None,
    );
    indexed.vector_serialization = Some(VectorSerialization::Indexed);
    let mut repeated = meta(
        "OverrideEngramEntries",
        ini_location(IniFile::Game, IniSection::ScriptShooterGameShooterGameMode),
        vector(ConfigValueBaseType::Integer),
        None,
    );
    repeated.vector_serialization = Some(VectorSerialization::Repeated);
    metadata(vec![
        meta("SessionName", ini_location(IniFile::GameUserSettings, IniSection::SessionSettings), scalar(ConfigValueBaseType::String), None),
        meta("Unused", ini_location(IniFile::GameUserSettings, IniSection::ServerSettings), scalar(ConfigValueBaseType::Integer), None),
        indexed,
        repeated,
        meta("Levels", ini_location(IniFile::Game, IniSection::ServerSettings), vector(ConfigValueBaseType::Integer), None),
    ])
}

#[test]
fn ini_plan_removes_and_writes_settings() {
    let settings = settings_with(vec![
        entry("SessionName", ini_location(IniFile::GameUserSettings, IniSection::SessionSettings), string_value("My Server")),
        entry(
            "ConfigOverrideItemMaxQuantity",
            ini_location(IniFile::Game, IniSection::ScriptShooterGameShooterGameMode),
            ConfigVariant::Vector(vec![ConfigValue::Integer(5), ConfigValue::Integer(6)]),
        ),
        entry(
            "OverrideEngramEntries",
            ini_location(IniFile::Game, IniSection::ScriptShooterGameShooterGameMode),
            ConfigVariant::Vector(vec![ConfigValue::Integer(1)]),
        ),
        entry(
            "Levels",
            ini_location(IniFile::Game, IniSection::ServerSettings),
            ConfigVariant::Vector(vec![ConfigValue::Integer(1), ConfigValue::Integer(2)]),
        ),
    ]);
    let plan = plan_ini_updates(&ini_metadata(), &settings);
    let summary: Vec<String> = plan.iter().map(edit_summary).collect();
    assert_eq!(
        summary,
        vec![
            "GameUserSettings delete [ServerSettings] Unused",
            "GameUserSettings set [SessionSettings] SessionName=\"My Server\"",
            "Game remove-prefix [/script/shootergame.shootergamemode] ConfigOverrideItemMaxQuantity[",
            "Game set [/script/shootergame.shootergamemode] ConfigOverrideItemMaxQuantity[0]=5",
            "Game set [/script/shootergame.shootergamemode] ConfigOverrideItemMaxQuantity[1]=6",
            "Game remove-all [/script/shootergame.shootergamemode] OverrideEngramEntries",
            "Game append [/script/shootergame.shootergamemode] OverrideEngramEntries=1",
            "Game set [ServerSettings] Levels=1,2",
        ]
    );
    let mut external = settings;
    external.allow_external_ini_management = true;
    let plan = plan_ini_updates(&ini_metadata(), &external);
    assert!(plan.iter().all(|e| !matches!(e.edit, IniEdit::Delete { .. })));
}

#[test]
fn ini_edits_are_applied_to_the_document() {
    let mut ini = ini_new();
    ini.with_section(Some("S")).set("Keep", "1").set("Old[0]", "a").set("Old[1]", "b").set("Rep", "x");
    ini.with_section(Some("S")).add("Rep", "y");
    let edits = vec![
        IniFileEdit { file: IniFile::Game, edit: IniEdit::RemoveKeysWithPrefix { section: "S".to_string(), prefix: "Old[".to_string() } },
        IniFileEdit { file: IniFile::Game, edit: IniEdit::SetValue { section: "S".to_string(), key: "Old[0]".to_string(), value: "c".to_string() } },
        IniFileEdit { file: IniFile::Game, edit: IniEdit::RemoveAll { section: "S".to_string(), key: "Rep".to_string() } },
        IniFileEdit { file: IniFile::Game, edit: IniEdit::Append { section: "S".to_string(), key: "Rep".to_string(), value: "z".to_string() } },
        IniFileEdit { file: IniFile::GameUserSettings, edit: IniEdit::Delete { section: "S".to_string(), key: "Keep".to_string() } },
    ];
    apply_ini_edits(&mut ini, &IniFile::Game, &edits);
    let section = ini.section(Some("S")).unwrap();
    assert_eq!(section.get("Keep"), Some("1"));
    assert_eq!(section.get("Old[0]"), Some("c"));
    assert_eq!(section.get("Old[1]"), None);
    assert_eq!(section.get_all("Rep").collect::<Vec<_>>(), vec!["z"]);
    apply_ini_edit(&mut ini, &IniEdit::Delete { section: "S".to_string(), key: "Keep".to_string() });
    assert_eq!(ini.section(Some("S")).unwrap().get("Keep"), None);
}

fn row(section: Option<&str>, key: &str, value: &str) -> IniRow {
    IniRow { section: section.map(|s| s.to_string()), key: key.to_string(), value: value.to_string() }
}

#[test]
fn ini_import_with_metadata_keeps_non_defaults() {
    let m = metadata(vec![
        meta("MaxPlayers", ini_location(IniFile::GameUserSettings, IniSection::ServerSettings), scalar(ConfigValueBaseType::Integer), Some(int_value(70))),
        meta("Name", ini_location(IniFile::GameUserSettings, IniSection::ServerSettings), scalar(ConfigValueBaseType::String), None),
    ]);
    let rows = vec![
        row(Some("ServerSettings"), "MaxPlayers", "70"),
        row(Some("serversettings"), "Name", "Bob"),
        row(Some("ServerSettings"), "Unknown", "1"),
        row(Some("ServerSettings"), "MaxPlayers", "many"),
        row(Some("ServerSettings"), "MaxPlayers", "20"),
    ];
    let entries = import_ini_with_metadata(&m, "GameUserSettings.ini", &rows);
    assert_eq!(entries.entries.len(), 2);
    assert_eq!(entries.entries[0].meta_name, "Name");
    assert_eq!(entries.entries[1].value.try_get_int_value(), Some(20));
    assert!(!entries.entries[1].is_favorite);
}

#[test]
fn ini_import_without_metadata_infers_types() {
    let rows = vec![row(Some("ServerSettings"), "A", "12"), row(None, "B", "x"), row(Some("S"), "C", "[1,2]")];
    let (m, entries) = import_config_file("Game.ini", &rows);
    assert_eq!(m.entries.len(), 3);
    assert_eq!(entries.entries.len(), 3);
    assert!(m.entries[0].is_autogenerated);
    assert_eq!(m.entries[0].value_type.to_string(), "Scalar<Integer>");
    assert!(matches!(&m.entries[1].location, ConfigLocation::IniOption(IniFile::Game, IniSection::Custom(s)) if s.is_empty()));
    assert_eq!(m.entries[2].value_type.to_string(), "Vector<String>");
    assert_eq!(entries.entries[2].value.to_string(), "[1,2]");
    assert_eq!(m.entries[0].description, "Auto imported - validate the configuration for this before using it");
}

// ---------------------------------------------------------------- server

#[test]
fn memory_display_units() {
    let data = |m: u64| RunData { pid: 1, memory_usage: m, rcon_enabled: false, player_list: vec![] };
    assert_eq!(data(512).get_memory_display(), (512, "b"));
    assert_eq!(data(2048).get_memory_display(), (2, "Kb"));
    assert_eq!(data(5 * 1024 * 1024 + 1).get_memory_display(), (5, "Mb"));
    assert_eq!(data(3 * 1024 * 1024 * 1024).get_memory_display(), (3, "Gb"));
}

#[test]
fn steamcmd_arguments() {
    assert_eq!(
        steamcmd_args("C:/asa", "2430930", UpdateMode::Update),
        vec!["+force_install_dir", "C:/asa", "+login", "anonymous", "+app_update", "2430930", "+quit"]
    );
    assert_eq!(
        steamcmd_args("C:/asa", "2430930", UpdateMode::Validate),
        vec!["+force_install_dir", "C:/asa", "+login", "anonymous", "validate", "+quit"]
    );
    assert_eq!(server_executable(true), "ShooterGame/Binaries/Win64/AsaApiLoader.exe");
    assert_eq!(server_executable(false), "ShooterGame/Binaries/Win64/ArkAscendedServer.exe");
}

const MANIFEST: &str = "\"AppState\"\n{\n\t\"appid\"\t\t\"2430930\"\n\t\"StateFlags\"\t\t\"4\"\n\t\"LastUpdated\"\t\t\"1700000000\"\n\t\"buildid\"\t\t\"12345\"\n}\n";

#[test]
fn manifest_fields_are_read() {
    assert_eq!(extract_app_state_field(MANIFEST, "buildid"), Some("12345".to_string()));
    assert_eq!(extract_app_state_field(MANIFEST, "missing"), None);
    assert_eq!(read_app_manifest(MANIFEST), Ok(ManifestState::Installed { time_updated: 1700000000, build_id: 12345 }));
    let incomplete = MANIFEST.replace("\"4\"", "\"6\"");
    assert_eq!(read_app_manifest(&incomplete), Ok(ManifestState::Incomplete));
    let broken = MANIFEST.replace("12345", "x");
    assert_eq!(read_app_manifest(&broken), Err(ManifestError::BuildId));
    assert_eq!(read_app_manifest("{}"), Err(ManifestError::StateFlags));
}

#[test]
fn steamcmd_progress_lines() {
    match process_steamcmd_line(" Update state (0x61) downloading, progress: 42.50 (1 / 2)") {
        Some(SteamCmdProgress::Downloading(p)) => assert_eq!(p, "42.50"),
        _ => panic!("expected downloading"),
    }
    match process_steamcmd_line(" Update state (0x81) verifying update, progress: 7.00 (1 / 2)") {
        Some(SteamCmdProgress::Verifying(p)) => assert_eq!(p, "7.00"),
        _ => panic!("expected verifying"),
    }
    assert!(matches!(
        process_steamcmd_line(" Update state (0x5) validating, progress: 1.0 (1 / 2)"),
        Some(SteamCmdProgress::UnknownState(5))
    ));
    assert!(process_steamcmd_line("Success! App '2430930' fully installed.").is_none());
    assert!(read_steamcmd_line(" Update state (0x61) downloading, progress: 1.2.3 (1 / 2)").is_err());
    assert!(read_steamcmd_line(" Update state (0x11111111111111111) x, progress: 1.0 (1 / 2)").is_err());
    assert!(matches!(read_steamcmd_line("hello"), Ok(None)));
    assert!(matches!(
        read_steamcmd_line(" Update state (0x81) verifying, progress: 3 (1 / 2)"),
        Ok(Some(SteamCmdProgress::Verifying(_)))
    ));
}

#[test]
fn steam_app_version_numbers() {
    let v = steam_app_version("19000000", "1700000000");
    assert_eq!(v.buildid, 19000000);
    assert_eq!(v.timeupdated, 1700000000);
    let bad = steam_app_version("x", "");
    assert_eq!((bad.buildid, bad.timeupdated), (0, 0));
}

fn utf16(s: &str) -> Vec<u8> {
    s.encode_utf16().flat_map(|u| u.to_le_bytes()).collect()
}

#[test]
fn asa_version_is_read_after_marker() {
    let mut bytes = b"MZ junk ArkVer ".to_vec();
    bytes.extend(utf16("ArkVersion\0"));
    bytes.extend(utf16("1.2.3"));
    bytes.extend([0, 0, 9, 9]);
    assert_eq!(asa_version_from_bytes(&bytes), "1.2.3");
    assert_eq!(asa_version_from_bytes(b"nothing here"), "");
    let mut hidden = b"A".to_vec();
    hidden.extend(utf16("ArkVersion\0"));
    hidden.extend(utf16("1.2.3"));
    assert_eq!(asa_version_from_bytes(&hidden), "");
    let mut partial = utf16("ArkVersion\0");
    partial.extend(utf16("4.5"));
    partial.push(b'x');
    assert_eq!(asa_version_from_bytes(&partial), "4.5");
    let mut surrogate = utf16("ArkVersion\0");
    surrogate.extend([b'7', 0, 0x00, 0xD8]);
    assert_eq!(asa_version_from_bytes(&surrogate), "7");
}

// ---------------------------------------------------------------- monitor

#[test]
fn player_list_is_read() {
    let players = parse_player_list("0. Alice, 0002a9b4c1\n1. Bob Smith, 00ff\n");
    assert_eq!(players.len(), 2);
    assert_eq!(players[0].player_num, 0);
    assert_eq!(players[0].user_name, "Alice");
    assert_eq!(players[0].steam_id, "0002a9b4c1");
    assert_eq!(players[1].user_name, "Bob Smith");
    assert!(parse_player_list("No Players Connected").is_empty());
}

#[test]
fn latest_player_list_answer_is_used() {
    let responses = vec![
        RconExecResponse { id: -1, response: "0. Old, 01".to_string() },
        RconExecResponse { id: 3, response: "0. Other, 02".to_string() },
        RconExecResponse { id: -1, response: "0. New, 03".to_string() },
    ];
    let players = round_players(&responses);
    assert_eq!(players.len(), 1);
    assert_eq!(players[0].user_name, "New");
    assert!(round_players(&vec![]).is_empty());
}

#[test]
fn rcon_link_follows_reports() {
    let (s, r) = rcon_pump(Some(RconLinkState::NotConnected), RconEvent::Received(RconResponse::Connected));
    assert_eq!(s, Some(RconLinkState::Connected));
    assert!(r.is_none());
    let (s, r) = rcon_pump(
        Some(RconLinkState::Connected),
        RconEvent::Received(RconResponse::ExecResponse(RconExecResponse { id: 4, response: "ok".to_string() })),
    );
    assert_eq!(s, Some(RconLinkState::Connected));
    assert_eq!(r.unwrap().id, 4);
    assert_eq!(rcon_pump(Some(RconLinkState::Connected), RconEvent::Disconnected).0, None);
    assert_eq!(rcon_pump(Some(RconLinkState::NotConnected), RconEvent::Disconnected).0, Some(RconLinkState::NotConnected));
    assert_eq!(rcon_pump(Some(RconLinkState::Connected), RconEvent::Received(RconResponse::Stopped)).0, None);
    assert_eq!(rcon_pump(None, RconEvent::Empty).0, None);
    assert!(should_send_rcon_command(Some(RconLinkState::Connected)));
    assert!(!should_send_rcon_command(Some(RconLinkState::NotConnected)));
}

#[test]
fn update_checks_are_spaced() {
    assert_eq!(exec_list_players_command(), "ListPlayers");
    assert_eq!(exec_stop_command(), "DoExit");
    assert!(update_check_due(None, 600));
    assert!(!update_check_due(Some(600), 600));
    assert!(update_check_due(Some(601), 600));
}

#[test]
fn process_verdicts() {
    let data = || RunData { pid: 9, memory_usage: 1, rcon_enabled: true, player_list: vec![] };
    assert!(matches!(process_verdict(ProcessObservation::Exited, false, data()), ProcessVerdict::Exited));
    assert!(matches!(process_verdict(ProcessObservation::Running, true, data()), ProcessVerdict::Report(RunState::Stopping)));
    match process_verdict(ProcessObservation::Running, false, data()) {
        ProcessVerdict::Report(RunState::Available(d)) => assert_eq!(d.pid, 9),
        _ => panic!("expected available"),
    }
    assert!(matches!(process_verdict(ProcessObservation::OtherStatus, false, data()), ProcessVerdict::EndRound));
    assert!(matches!(process_verdict(ProcessObservation::Missing, false, data()), ProcessVerdict::Forget));
}

// ---------------------------------------------------------------- mods

#[test]
fn mod_directory_names() {
    assert_eq!(parse_installed_mod_dir("928793_5237771"), Some((928793, 5237771)));
    assert_eq!(parse_installed_mod_dir("928793"), None);
    assert_eq!(parse_installed_mod_dir("928793_x_5"), Some((928793, 5)));
    assert_eq!(parse_installed_mod_dir("1_2_3"), None);
    assert_eq!(parse_installed_mod_dir("-1_2"), None);
}

#[test]
fn mod_update_statuses() {
    let records = ModUpdateRecords {
        servers: vec![
            ServerModsRecord { server_id: 1, installation_dir: "a".to_string(), mod_ids: vec![10, 20] },
            ServerModsRecord { server_id: 2, installation_dir: "b".to_string(), mod_ids: vec![10, 30] },
        ],
    };
    let dirs = vec![vec!["10_100".to_string(), "20_200".to_string(), "junk".to_string()], vec!["10_150".to_string()]];
    let requested = requested_mods(&records, &dirs);
    assert_eq!(
        requested,
        vec![
            InstalledMod { server_id: 1, project_id: 10, file_id: 100 },
            InstalledMod { server_id: 1, project_id: 20, file_id: 200 },
            InstalledMod { server_id: 2, project_id: 10, file_id: 150 },
            InstalledMod { server_id: 2, project_id: 30, file_id: 0 },
        ]
    );
    assert_eq!(unique_project_ids(&requested), vec![10, 20, 30]);
    let projects = vec![ModProject { id: 10, main_file_id: 150 }, ModProject { id: 20, main_file_id: 200 }];
    let statuses = mod_statuses(&requested, &projects);
    assert_eq!(statuses.server_statuses.len(), 2);
    assert_eq!(statuses.server_statuses[0].server_id, 1);
    assert_eq!(statuses.server_statuses[0].mod_statuses, vec![(10, ModStatus::OutOfDate), (20, ModStatus::UpToDate)]);
    assert_eq!(statuses.server_statuses[1].mod_statuses, vec![(10, ModStatus::UpToDate), (30, ModStatus::Removed)]);
}

// ---------------------------------------------------------------- editor

fn interim() -> InterimValue {
    InterimValue { value: String::new(), error: None }
}

#[test]
fn vector_editing() {
    let v = ConfigVariant::Vector(vec![ConfigValue::Integer(1), ConfigValue::Integer(2), ConfigValue::Integer(3)]);
    let down = perform_change(&v, "[0]", &SettingChange::VectorChange(VectorChange::MoveDown));
    assert_eq!(down.to_string(), "2,1,3");
    let up = perform_change(&down, "[1]", &SettingChange::VectorChange(VectorChange::MoveUp));
    assert!(up.equals(&v));
    let removed = perform_change(&v, "[1]", &SettingChange::VectorChange(VectorChange::Remove));
    assert_eq!(removed.to_string(), "1,3");
    let added = perform_change(&v, "[0]", &SettingChange::VectorChange(VectorChange::Add(scalar(ConfigValueBaseType::Integer))));
    assert_eq!(added.to_string(), "1,2,3,0");
    let set = perform_change(&v, "[2]", &SettingChange::IntegerValue(9, interim()));
    assert_eq!(set.to_string(), "1,2,9");
    let last_down = perform_change(&v, "[2]", &SettingChange::VectorChange(VectorChange::MoveDown));
    assert!(last_down.equals(&v));
    let scalar_set = perform_change(&int_value(1), "X", &SettingChange::StringValue("s".to_string()));
    assert!(scalar_set.equals(&string_value("s")));
}

#[test]
fn structured_editing_by_path() {
    let value = ConfigVariant::Scalar(ConfigValue::Struct(vec![
        ConfigStructFieldVariant { name: "A".to_string(), value: int_value(1) },
        ConfigStructFieldVariant {
            name: "B".to_string(),
            value: ConfigVariant::Vector(vec![ConfigValue::Struct(vec![ConfigStructFieldVariant {
                name: "C".to_string(),
                value: ConfigVariant::Scalar(ConfigValue::Bool(false)),
            }])]),
        },
    ]));
    let changed = perform_change_at_path(&value, "A/", &SettingChange::IntegerValue(5, interim()));
    assert_eq!(changed.to_string(), "(A=5,B=((C=false)))");
    let nested = perform_change_at_path(&value, "B/[0]/C/", &SettingChange::BoolValue(true));
    assert_eq!(nested.to_string(), "(A=1,B=((C=true)))");
    let whole = perform_change_at_path(&value, "", &SettingChange::FloatValue("2.5".to_string(), interim()));
    assert_eq!(whole.to_string(), "2.5");
    let grown = perform_change_at_path(
        &value,
        "B/[0]/",
        &SettingChange::VectorChange(VectorChange::Add(scalar(ConfigValueBaseType::Struct(vec![])))),
    );
    assert_eq!(grown.to_string(), "(A=1,B=((C=false),()))");
}

// ---------------------------------------------------------------- application

#[test]
fn well_known_identifiers() {
    assert_eq!(get_default_app_id(), "2430930");
    assert_eq!(get_default_curseforge_app_id(), "83374");
    assert!(get_patch_notes_url().starts_with("https://survivetheark.com/"));
    assert!(get_changelog_url().ends_with("CHANGELOG.md"));
    assert_eq!(get_server_api_github_url(), "https://api.github.com/repos/ArkServerApi/AsaApi/releases");
    let g = GlobalSettings::with_directories("app".to_string(), "profiles".to_string(), "steamcmd".to_string());
    assert_eq!(g.theme, ThemeType::Dark);
    assert_eq!(g.app_id, "2430930");
    assert_eq!(g.steam_api_key, "");
    assert_eq!(g.profiles_directory, "profiles");
}

#[test]
fn self_update_steps() {
    assert_eq!(release_file_name(true, ReleaseFile::Version), "latest-rel.json");
    assert_eq!(release_file_name(false, ReleaseFile::Archive), "latest-dev.zip");
    assert_eq!(copy_step(10, true), CopyStep::Restart);
    assert_eq!(copy_step(10, false), CopyStep::RetryAfterWait(9));
    assert_eq!(copy_step(1, false), CopyStep::AskToRetry);
    assert_eq!(cleanup_step(3, RemoveOutcome::NotFound), CleanupStep::Done);
    assert_eq!(cleanup_step(3, RemoveOutcome::Failed), CleanupStep::RetryAfterWait(2));
    assert_eq!(cleanup_step(1, RemoveOutcome::Failed), CleanupStep::GiveUp);
}

#[test]
fn setting_editor_keeps_typed_text_by_path() {
    let mut editor = SettingEditor::new(vector(ConfigValueBaseType::Integer), ConfigVariant::Vector(vec![ConfigValue::Integer(1)]));
    assert!(editor.interim_value("[0]/").is_none());
    let typed = InterimValue { value: "12x".to_string(), error: Some("not a number".to_string()) };
    editor.update(SettingEditorMessage::Edit(Some("[0]/".to_string()), SettingChange::IntegerValue(12, typed)));
    assert_eq!(editor.value().to_string(), "12");
    let kept = editor.interim_value("[0]/").unwrap();
    assert_eq!(kept.value, "12x");
    assert_eq!(kept.error, Some("not a number".to_string()));
    let retyped = InterimValue { value: "13".to_string(), error: None };
    editor.update(SettingEditorMessage::Edit(Some("[0]/".to_string()), SettingChange::IntegerValue(13, retyped)));
    assert_eq!(editor.interim_value("[0]/").unwrap().value, "13");
    editor.update(SettingEditorMessage::Edit(None, SettingChange::StringValue("s".to_string())));
    assert_eq!(editor.value().to_string(), "s");
    assert!(editor.interim_value("").is_none());
}

#[test]
fn profile_setting_edits() {
    let m = metadata(vec![
        meta("A", ConfigLocation::CommandLineOption, scalar(ConfigValueBaseType::Integer), Some(int_value(3))),
        meta("B", ConfigLocation::CommandLineOption, scalar(ConfigValueBaseType::Bool), None),
    ]);
    let mut settings = settings_with(vec![]);
    assert_eq!(settings.override_setting(&m, 0), 0);
    assert_eq!(settings.override_setting(&m, 1), 1);
    assert_eq!(settings.config_entries.entries[0].value.try_get_int_value(), Some(3));
    assert_eq!(settings.config_entries.entries[1].value.try_get_bool_value(), Some(false));
    settings.save_setting(0, int_value(9));
    settings.set_favorite(1, true);
    assert_eq!(settings.config_entries.entries[0].value.try_get_int_value(), Some(9));
    assert!(settings.config_entries.entries[1].is_favorite);
    settings.remove_setting(0);
    assert_eq!(settings.config_entries.entries.len(), 1);
    assert_eq!(settings.config_entries.entries[0].meta_name, "B");
    assert_eq!(settings.name, "Test");
}

#[test]
fn release_file_names() {
    assert_eq!(latest_zip_name(ReleaseTarget::Rel, ""), "latest-rel.zip");
    assert_eq!(latest_zip_name(ReleaseTarget::Dev, "win2016"), "latest-dev.win2016.zip");
    assert_eq!(versioned_zip_name("1.2.3", ReleaseTarget::Rel, ""), "1.2.3-rel.zip");
    assert_eq!(version_json_name(ReleaseTarget::Dev, "win2016"), "latest-dev.win2016.json");
    assert_eq!(build_output_dirs("", BuildTarget::Release), ("target".to_string(), "release"));
    assert_eq!(build_output_dirs("win2016", BuildTarget::Debug), ("target.win2016".to_string(), "debug"));
}

#[test]
fn monitor_watches_servers_by_id() {
    let mut state = ServerMonitorState::new();
    assert!(state.add_server(1, Some(100), true));
    assert!(!state.add_server(2, None, false));
    assert!(state.add_server(3, Some(300), false));
    assert_eq!(state.records.len(), 2);
    assert_eq!(state.pid_of(1), Some(100));
    assert_eq!(state.pid_of(2), None);
    assert!(!state.stop_server(1));
    assert!(state.records[&1].is_stopping);
    assert!(state.pump_rcon(1, RconEvent::Received(RconResponse::Connected)).is_none());
    assert_eq!(state.records[&1].rcon_state, Some(RconLinkState::Connected));
    let answer = state.pump_rcon(1, RconEvent::Received(RconResponse::ExecResponse(RconExecResponse { id: -1, response: "x".to_string() })));
    assert_eq!(answer.unwrap().response, "x");
    assert!(state.stop_server(1));
    assert!(!state.stop_server(9));
    assert!(state.pump_rcon(3, RconEvent::Empty).is_none());
    assert_eq!(state.records[&3].rcon_state, None);
    state.mark_stopping(3);
    assert!(state.records[&3].is_stopping);
    assert!(state.add_server(3, Some(301), true));
    assert_eq!(state.pid_of(3), Some(301));
    assert!(!state.records[&3].is_stopping);
    state.forget_servers(&vec![1, 7]);
    assert_eq!(state.records.len(), 1);
    assert_eq!(state.pid_of(1), None);
}

#[test]
fn certificate_lines_never_match_their_markers() {
    let pem = "-----BEGIN CERTIFICATE-----\nMIIB\n-----END CERTIFICATE-----\n";
    assert!(certificate_blocks(pem).is_empty());
    assert!(certificate_blocks("-----BEGIN CERTIFICATE-----\r\nx\r\n-----END CERTIFICATE-----\r\n").is_empty());
    assert!(certificate_blocks("").is_empty());
}

fn groups(items: Vec<Option<&str>>) -> Vec<Option<String>> {
    items.into_iter().map(|g| g.map(|t| t.to_string())).collect()
}

#[test]
fn players_come_from_matches() {
    let ms = vec![
        groups(vec![Some("0. Ann, 00ab"), Some("0"), Some("Ann"), Some("00ab")]),
        groups(vec![Some("x. Bob, 11"), Some("x"), Some("Bob"), Some("11")]),
        groups(vec![Some("3. Cy, ff"), Some("3"), Some("Cy"), Some("ff")]),
    ];
    let players = players_from_matches(&ms);
    assert_eq!(players.len(), 2);
    assert_eq!(players[0].player_num, 0);
    assert_eq!(players[0].user_name, "Ann");
    assert_eq!(players[0].steam_id, "00ab");
    assert_eq!(players[1].player_num, 3);
    assert_eq!(players[1].user_name, "Cy");
    assert!(players_from_matches(&vec![]).is_empty());
}

#[test]
fn progress_comes_from_matches() {
    let line = |state: &str, percent: &str| {
        Some(vec![groups(vec![Some("Update state"), Some(state), Some("d"), Some(percent)])])
    };
    assert!(matches!(progress_from_matches(&line("61", "12.5")), Ok(Some(SteamCmdProgress::Downloading(p))) if p == "12.5"));
    assert!(matches!(progress_from_matches(&line("81", "3")), Ok(Some(SteamCmdProgress::Verifying(p))) if p == "3"));
    assert!(matches!(progress_from_matches(&line("1f", "3")), Ok(Some(SteamCmdProgress::UnknownState(31)))));
    assert!(progress_from_matches(&line("61", "1.2.3")).is_err());
    assert!(progress_from_matches(&line("1ffffffffffffffff", "3")).is_err());
    assert!(matches!(progress_from_matches(&None), Ok(None)));
    assert!(matches!(progress_from_matches(&Some(vec![])), Ok(None)));
}

#[test]
fn stopped_server_reports_stopping_until_it_exits() {
    let data = || RunData { pid: 5, memory_usage: 1, rcon_enabled: false, player_list: vec![] };
    let mut state = ServerMonitorState::new();
    assert!(state.add_server(1, Some(5), false));
    assert!(state.add_server(2, Some(6), false));
    assert!(matches!(state.observe_server(1, ProcessObservation::Running, data()), Some(ProcessVerdict::Report(RunState::Available(_)))));
    assert!(!state.stop_server(1));
    assert!(state.pump_rcon(1, RconEvent::Empty).is_none());
    assert!(state.add_server(3, Some(7), true));
    assert!(matches!(state.observe_server(1, ProcessObservation::Running, data()), Some(ProcessVerdict::Report(RunState::Stopping))));
    assert!(matches!(state.observe_server(1, ProcessObservation::Running, data()), Some(ProcessVerdict::Report(RunState::Stopping))));
    assert!(matches!(state.observe_server(1, ProcessObservation::Exited, data()), Some(ProcessVerdict::Exited)));
    assert!(state.observe_server(1, ProcessObservation::Exited, data()).is_none());
    assert!(state.observe_server(1, ProcessObservation::Running, data()).is_none());
    assert_eq!(state.pid_of(1), None);
    assert!(matches!(state.observe_server(2, ProcessObservation::OtherStatus, data()), Some(ProcessVerdict::EndRound)));
    assert!(matches!(state.observe_server(2, ProcessObservation::Missing, data()), Some(ProcessVerdict::Forget)));
    assert_eq!(state.pid_of(2), None);
    assert_eq!(state.pid_of(3), Some(7));
}

#[test]
fn only_an_available_server_is_stopped() {
    let mut available = RunState::Available(RunData { pid: 1, memory_usage: 1, rcon_enabled: true, player_list: vec![] });
    assert!(request_stop(&mut available, true));
    assert!(matches!(available, RunState::Stopping));
    let mut without_monitor = RunState::Available(RunData { pid: 1, memory_usage: 1, rcon_enabled: true, player_list: vec![] });
    assert!(!request_stop(&mut without_monitor, false));
    assert!(matches!(without_monitor, RunState::Stopping));
    let mut starting = RunState::Starting;
    assert!(!request_stop(&mut starting, true));
    assert!(matches!(starting, RunState::Starting));
    let mut stopped = RunState::Stopped;
    assert!(!request_stop(&mut stopped, true));
    assert!(matches!(stopped, RunState::Stopped));
}

#[test]
fn closing_the_settings_dialog() {
    assert_eq!(close_action(true, ""), CloseAction::Save);
    assert_eq!(close_action(true, "C:/asa"), CloseAction::Save);
    assert_eq!(close_action(false, ""), CloseAction::Forget);
    assert_eq!(close_action(false, "C:/asa"), CloseAction::Keep);
}

#[test]
fn server_card_summaries() {
    assert_eq!(server_update_message(Some(10), 20), "Update Available");
    assert_eq!(server_update_message(Some(20), 20), "Up-to-date");
    assert_eq!(server_update_message(None, 20), "Unavailable");
    let statuses = vec![(1, ModStatus::OutOfDate), (2, ModStatus::Removed), (3, ModStatus::OutOfDate), (4, ModStatus::UpToDate)];
    assert_eq!(mod_update_counts(&statuses), (2, 1));
    assert_eq!(mods_update_message(&statuses), "1 retired, 2 out-of-date");
    assert_eq!(mods_update_message(&vec![(1, ModStatus::UpToDate)]), "Up-to-date");
    assert_eq!(mods_update_message(&vec![(1, ModStatus::Removed), (2, ModStatus::Removed)]), "2 retired");
    assert_eq!(mods_update_message(&vec![(1, ModStatus::OutOfDate)]), "1 out-of-date");
    assert_eq!(mods_update_message(&vec![]), "Up-to-date");
}

#[test]
fn ini_names_read_back() {
    assert!(matches!(IniSection::from("ServerSettings"), IniSection::ServerSettings));
    assert!(matches!(IniSection::from("MESSAGEOFTHEDAY"), IniSection::MessageOfTheDay));
    assert!(matches!(IniSection::from("Ragnarok"), IniSection::Custom(_)));
    assert!(matches!(IniFile::from("Game.ini"), IniFile::Game));
    assert!(matches!(IniFile::from("GameUserSettings.INI"), IniFile::GameUserSettings));
    assert!(matches!(IniFile::from("Game"), IniFile::Custom(_)));
}
