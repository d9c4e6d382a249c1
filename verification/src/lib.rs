//! Verified core of the Ark Server Manager: the RCON wire format, the
//! configuration model with its text rendering and parsing, metadata merging,
//! command-line generation, INI planning and editing, server state read from
//! Steam manifests, SteamCMD output and the server executable, the monitor's
//! decisions, mod update checks, the setting editor, self-update steps and
//! the collection of bundled certificates.

pub mod text;
pub mod parse;
pub mod matching;
pub mod rcon;
pub mod config;
pub mod server;
pub mod command_line;
pub mod ini_plan;
pub mod ini_document;
pub mod global;
pub mod monitor;
pub mod mods;
pub mod version;
pub mod editor;
pub mod profile;
pub mod self_update;
pub mod packaging;
pub mod certs;
