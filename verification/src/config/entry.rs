//! A server's chosen setting values.
use vstd::prelude::*;
use crate::config::metadata::{ConfigLocation, ConfigLocationV, MetadataEntry};
use crate::config::variant::{ConfigVariant, ValueV, VariantV};
use crate::text::str_eq;

verus! {

/// The value a server uses for one setting.
#[derive(Debug)]
pub struct ConfigEntry {
    pub meta_name: String,
    pub meta_location: ConfigLocation,
    pub is_favorite: bool,
    pub value: ConfigVariant,
}

/// A config entry as plain values.
pub struct ConfigEntryV {
    pub meta_name: Seq<char>,
    pub meta_location: ConfigLocationV,
    pub is_favorite: bool,
    pub value: VariantV,
}

impl View for ConfigEntry {
    type V = ConfigEntryV;

    open spec fn view(&self) -> ConfigEntryV {
        ConfigEntryV {
            meta_name: self.meta_name@,
            meta_location: self.meta_location@,
            is_favorite: self.is_favorite,
            value: self.value@,
        }
    }
}

/// The entry sets the setting `name` at `location`.
pub open spec fn config_entry_is(e: ConfigEntryV, name: Seq<char>, location: ConfigLocationV) -> bool {
    e.meta_location == location && e.meta_name == name
}

impl ConfigEntry {
    pub fn get_name_location(&self) -> (r: (&String, &ConfigLocation))
        ensures
            r.0@ == self.meta_name@,
            r.1@ == self.meta_location@,
    {
        (&self.meta_name, &self.meta_location)
    }

    /// The entry for a setting that starts with its default: the metadata's
    /// default value if it has one, else the default of its type.
    pub fn from(value: &MetadataEntry) -> (r: ConfigEntry)
        ensures
            r@ == (ConfigEntryV {
                meta_name: value@.name,
                meta_location: value@.location,
                is_favorite: false,
                value: match value@.default_value {
                    Some(d) => d,
                    None => crate::config::variant::default_variant(value@.value_type),
                },
            }),
    {
        ConfigEntry {
            meta_name: value.name.clone(),
            meta_location: value.location.deep_clone(),
            is_favorite: false,
            value: match &value.default_value {
                Some(d) => d.deep_clone(),
                None => ConfigVariant::default_from_type(&value.value_type),
            },
        }
    }

    pub fn deep_clone(&self) -> (r: ConfigEntry)
        ensures
            r@ == self@,
    {
        ConfigEntry {
            meta_name: self.meta_name.clone(),
            meta_location: self.meta_location.deep_clone(),
            is_favorite: self.is_favorite,
            value: self.value.deep_clone(),
        }
    }
}

/// The setting values of one server.
#[derive(Debug)]
pub struct ConfigEntries {
    pub entries: Vec<ConfigEntry>,
}

impl View for ConfigEntries {
    type V = Seq<ConfigEntryV>;

    open spec fn view(&self) -> Seq<ConfigEntryV> {
        self.entries@.map_values(|e: ConfigEntry| e@)
    }
}

impl ConfigEntries {
    /// No entries.
    pub fn new() -> (r: ConfigEntries)
        ensures
            r@.len() == 0,
    {
        ConfigEntries { entries: Vec::new() }
    }

    /// The first entry for the setting `name` at `location`, with its index.
    pub fn find(&self, name: &str, location: &ConfigLocation) -> (r: Option<(usize, &ConfigEntry)>)
        ensures
            match r {
                Some((i, e)) => {
                    &&& i < self.entries@.len()
                    &&& *e == self.entries@[i as int]
                    &&& config_entry_is(self@[i as int], name@, location@)
                    &&& forall|j: int| 0 <= j < i ==> !config_entry_is(#[trigger] self@[j], name@, location@)
                },
                None => forall|j: int| 0 <= j < self@.len() ==> !config_entry_is(#[trigger] self@[j], name@, location@),
            },
    {
        let mut i: usize = 0;
        while i < self.entries.len()
            invariant
                i <= self.entries@.len(),
                forall|j: int| 0 <= j < i ==> !config_entry_is(#[trigger] self@[j], name@, location@),
            decreases self.entries@.len() - i,
        {
            let e = &self.entries[i];
            if e.meta_location.equals(location) && str_eq(e.meta_name.as_str(), name) {
                return Some((i, e));
            }
            i = i + 1;
        }
        None
    }

    /// The boolean of the setting `name` at `location`, when it has an entry
    /// holding a scalar boolean.
    pub fn try_get_bool_value(&self, name: &str, location: &ConfigLocation) -> (r: Option<bool>)
        ensures
            r == (match self.find_spec(name@, location@) {
                Some(e) => match e.value {
                    VariantV::Scalar(ValueV::Bool(b)) => Some(b),
                    _ => None::<bool>,
                },
                None => None::<bool>,
            }),
    {
        match self.find(name, location) {
            Some((_, e)) => e.value.try_get_bool_value(),
            None => None,
        }
    }

    /// The text of the setting `name` at `location`, when it has an entry
    /// holding a scalar string.
    pub fn try_get_string_value(&self, name: &str, location: &ConfigLocation) -> (r: Option<String>)
        ensures
            match self.find_spec(name@, location@) {
                Some(e) => match e.value {
                    VariantV::Scalar(ValueV::String(s)) => r matches Some(t) && t@ == s,
                    _ => r is None,
                },
                None => r is None,
            },
    {
        match self.find(name, location) {
            Some((_, e)) => e.value.try_get_string_value(),
            None => None,
        }
    }

    /// The integer of the setting `name` at `location`, when it has an entry
    /// holding a scalar integer.
    pub fn try_get_int_value(&self, name: &str, location: &ConfigLocation) -> (r: Option<i64>)
        ensures
            r == (match self.find_spec(name@, location@) {
                Some(e) => match e.value {
                    VariantV::Scalar(ValueV::Integer(n)) => Some(n),
                    _ => None::<i64>,
                },
                None => None::<i64>,
            }),
    {
        match self.find(name, location) {
            Some((_, e)) => e.value.try_get_int_value(),
            None => None,
        }
    }

    /// The first entry for the setting `name` at `location`.
    pub open spec fn find_spec(&self, name: Seq<char>, location: ConfigLocationV) -> Option<ConfigEntryV> {
        if exists|i: int| 0 <= i < self@.len() && config_entry_is(#[trigger] self@[i], name, location) {
            let i = choose|i: int| 0 <= i < self@.len() && config_entry_is(#[trigger] self@[i], name, location)
                && forall|j: int| 0 <= j < i ==> !config_entry_is(#[trigger] self@[j], name, location);
            Some(self@[i])
        } else {
            None
        }
    }
}

} // verus!
