//! Editing the settings of a server profile: overriding a setting with its
//! default, changing, marking and removing settings.
use vstd::prelude::*;
use crate::config::entry::{ConfigEntry, ConfigEntryV};
use crate::config::metadata::{ConfigMetadata, MetadataEntryV};
use crate::config::variant::ConfigVariant;
use crate::server::ServerSettings;

verus! {

/// The setting a metadata entry starts a server with: its default, or the
/// default of its type.
pub open spec fn entry_from_meta(m: MetadataEntryV) -> ConfigEntryV {
    ConfigEntryV {
        meta_name: m.name,
        meta_location: m.location,
        is_favorite: false,
        value: match m.default_value {
            Some(d) => d,
            None => crate::config::variant::default_variant(m.value_type),
        },
    }
}

/// Everything of the profile but its settings is unchanged.
pub open spec fn same_profile(a: ServerSettings, b: ServerSettings) -> bool {
    &&& a.id == b.id
    &&& a.name@ == b.name@
    &&& a.installation_location@ == b.installation_location@
    &&& a.allow_external_ini_management == b.allow_external_ini_management
    &&& a.use_external_rcon == b.use_external_rcon
}

impl ServerSettings {
    /// Adds a setting for the metadata entry `metadata_id`, starting at its
    /// default; returns the new setting's index.
    pub fn override_setting(&mut self, metadata: &ConfigMetadata, metadata_id: usize) -> (r: usize)
        requires
            metadata_id < metadata@.entries.len(),
            old(self).config_entries@.len() < usize::MAX,
        ensures
            r == old(self).config_entries@.len(),
            final(self).config_entries@ == old(self).config_entries@.push(entry_from_meta(metadata@.entries[metadata_id as int])),
            same_profile(*final(self), *old(self)),
    {
        let entry = ConfigEntry::from(&metadata.entries[metadata_id]);
        let ghost before = self.config_entries.entries@;
        self.config_entries.entries.push(entry);
        assert(self.config_entries.entries@.map_values(|e: ConfigEntry| e@) =~= before.map_values(|e: ConfigEntry| e@).push(
            entry@,
        ));
        self.config_entries.entries.len() - 1
    }

    /// Removes the setting at `setting_id`.
    pub fn remove_setting(&mut self, setting_id: usize)
        requires
            setting_id < old(self).config_entries@.len(),
        ensures
            final(self).config_entries@ == old(self).config_entries@.remove(setting_id as int),
            same_profile(*final(self), *old(self)),
    {
        let ghost before = self.config_entries.entries@;
        let _ = self.config_entries.entries.remove(setting_id);
        assert(self.config_entries.entries@.map_values(|e: ConfigEntry| e@) =~= before.map_values(|e: ConfigEntry| e@).remove(
            setting_id as int,
        ));
    }

    /// Gives the setting at `setting_id` the value `value`.
    pub fn save_setting(&mut self, setting_id: usize, value: ConfigVariant)
        requires
            setting_id < old(self).config_entries@.len(),
        ensures
            final(self).config_entries@ == old(self).config_entries@.update(
                setting_id as int,
                ConfigEntryV { value: value@, ..old(self).config_entries@[setting_id as int] },
            ),
            same_profile(*final(self), *old(self)),
    {
        let ghost before = self.config_entries.entries@;
        let old_entry = &self.config_entries.entries[setting_id];
        let entry = ConfigEntry {
            meta_name: old_entry.meta_name.clone(),
            meta_location: old_entry.meta_location.deep_clone(),
            is_favorite: old_entry.is_favorite,
            value,
        };
        self.config_entries.entries.set(setting_id, entry);
        assert(self.config_entries.entries@.map_values(|e: ConfigEntry| e@) =~= before.map_values(|e: ConfigEntry| e@).update(
            setting_id as int,
            entry@,
        ));
    }

    /// Marks the setting at `setting_id` as a favorite, or not.
    pub fn set_favorite(&mut self, setting_id: usize, value: bool)
        requires
            setting_id < old(self).config_entries@.len(),
        ensures
            final(self).config_entries@ == old(self).config_entries@.update(
                setting_id as int,
                ConfigEntryV { is_favorite: value, ..old(self).config_entries@[setting_id as int] },
            ),
            same_profile(*final(self), *old(self)),
    {
        let ghost before = self.config_entries.entries@;
        let mut entry = self.config_entries.entries[setting_id].deep_clone();
        entry.is_favorite = value;
        self.config_entries.entries.set(setting_id, entry);
        assert(self.config_entries.entries@.map_values(|e: ConfigEntry| e@) =~= before.map_values(|e: ConfigEntry| e@).update(
            setting_id as int,
            entry@,
        ));
    }
}

/// Overriding a setting and then removing the setting at the index it got
/// gives the settings back unchanged.
pub proof fn lemma_override_then_remove(entries: Seq<ConfigEntryV>, m: MetadataEntryV)
    ensures
        entries.push(entry_from_meta(m)).remove(entries.len() as int) == entries,
{
    assert(entries.push(entry_from_meta(m)).remove(entries.len() as int) =~= entries);
}

/// What closing the settings dialog of a server does.
#[derive(Clone, Copy, Debug, PartialEq, Eq, Structural)]
pub enum CloseAction {
    /// Save the server's settings.
    Save,
    /// Drop the server: it was never given an installation directory.
    Forget,
    /// Keep the server as it is, unsaved.
    Keep,
}

/// Closing the settings dialog: with `save` the settings are saved; without
/// it, a server with no installation directory (a new server whose creation
/// is cancelled) is dropped, and any other is kept as it is.
pub fn close_action(save: bool, installation_location: &str) -> (r: CloseAction)
    ensures
        r == (if save {
            CloseAction::Save
        } else if installation_location@.len() == 0 {
            CloseAction::Forget
        } else {
            CloseAction::Keep
        }),
{
    if save {
        CloseAction::Save
    } else if installation_location.unicode_len() == 0 {
        CloseAction::Forget
    } else {
        CloseAction::Keep
    }
}

} // verus!
