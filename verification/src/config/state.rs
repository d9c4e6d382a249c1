//! The built-in metadata, the user's overrides, and the effective metadata
//! that merges them; importing metadata; checking enumerations.
use vstd::prelude::*;
use crate::config::metadata::{ConfigMetadata, ConfigMetadataV, ConfigValueBaseType, Enumeration, EnumerationV, MetadataEntry, MetadataEntryV, BaseTypeV};
use crate::config::variant::{ConfigError, ConfigVariant};

verus! {

/// The first index of an enumeration called `name`.
pub open spec fn first_enum_index(enums: Seq<EnumerationV>, name: Seq<char>) -> Option<int>
    decreases enums.len(),
{
    if enums.len() == 0 {
        None
    } else {
        match first_enum_index(enums.drop_last(), name) {
            Some(i) => Some(i),
            None => if enums.last().name == name {
                Some(enums.len() - 1)
            } else {
                None
            },
        }
    }
}

/// `first_enum_index` is the least index with that name.
pub proof fn lemma_first_enum_index(enums: Seq<EnumerationV>, name: Seq<char>)
    ensures
        match first_enum_index(enums, name) {
            Some(i) => 0 <= i < enums.len() && enums[i].name == name && forall|j: int|
                0 <= j < i ==> (#[trigger] enums[j]).name != name,
            None => forall|j: int| 0 <= j < enums.len() ==> (#[trigger] enums[j]).name != name,
        },
    decreases enums.len(),
{
    if enums.len() > 0 {
        lemma_first_enum_index(enums.drop_last(), name);
        assert forall|j: int| 0 <= j < enums.len() - 1 implies enums[j] == enums.drop_last()[j] by {}
    }
}

/// The enumerations in effect: the built-in ones, each user enumeration
/// replacing the built-in one of its name, or added after them when there is
/// none.
pub open spec fn merge_enums(built_in: Seq<EnumerationV>, user: Seq<EnumerationV>) -> Seq<EnumerationV>
    decreases user.len(),
{
    if user.len() == 0 {
        built_in
    } else {
        let prev = merge_enums(built_in, user.drop_last());
        let e = user.last();
        match first_enum_index(built_in, e.name) {
            Some(i) => prev.update(i, e),
            None => prev.push(e),
        }
    }
}

/// The entries in effect: the built-in ones, each user entry replacing the
/// built-in entry for the same setting, or added after them when there is
/// none.
pub open spec fn merge_entries(built_in: Seq<MetadataEntryV>, user: Seq<MetadataEntryV>) -> Seq<MetadataEntryV>
    decreases user.len(),
{
    if user.len() == 0 {
        built_in
    } else {
        let prev = merge_entries(built_in, user.drop_last());
        let e = user.last();
        match crate::config::metadata::first_entry_index(built_in, e.name, e.location) {
            Some(i) => prev.update(i, e),
            None => prev.push(e),
        }
    }
}

/// The metadata in effect for built-in metadata `b` and user metadata `u`.
pub open spec fn spec_effective(b: ConfigMetadataV, u: ConfigMetadataV) -> ConfigMetadataV {
    ConfigMetadataV { enums: merge_enums(b.enums, u.enums), entries: merge_entries(b.entries, u.entries) }
}

proof fn lemma_merge_enums_len(b: Seq<EnumerationV>, u: Seq<EnumerationV>)
    ensures
        merge_enums(b, u).len() >= b.len(),
    decreases u.len(),
{
    if u.len() > 0 {
        lemma_merge_enums_len(b, u.drop_last());
        lemma_first_enum_index(b, u.last().name);
    }
}

proof fn lemma_merge_entries_len(b: Seq<MetadataEntryV>, u: Seq<MetadataEntryV>)
    ensures
        merge_entries(b, u).len() >= b.len(),
    decreases u.len(),
{
    if u.len() > 0 {
        lemma_merge_entries_len(b, u.drop_last());
        crate::config::metadata::lemma_first_entry_index(b, u.last().name, u.last().location);
    }
}

fn clone_enums(v: &Vec<Enumeration>) -> (r: Vec<Enumeration>)
    ensures
        r@.map_values(|e: Enumeration| e@) == v@.map_values(|e: Enumeration| e@),
{
    let mut r: Vec<Enumeration> = Vec::new();
    let mut i: usize = 0;
    while i < v.len()
        invariant
            i <= v@.len(),
            r@.map_values(|e: Enumeration| e@) == v@.take(i as int).map_values(|e: Enumeration| e@),
        decreases v@.len() - i,
    {
        let ghost prev = r@;
        r.push(v[i].deep_clone());
        assert(r@.map_values(|e: Enumeration| e@) =~= prev.map_values(|e: Enumeration| e@).push(v@[i as int]@));
        assert(v@.take(i + 1).map_values(|e: Enumeration| e@) =~= v@.take(i as int).map_values(|e: Enumeration| e@).push(v@[i as int]@));
        i = i + 1;
    }
    assert(v@.take(v@.len() as int) =~= v@);
    r
}

fn clone_entries(v: &Vec<MetadataEntry>) -> (r: Vec<MetadataEntry>)
    ensures
        r@.map_values(|e: MetadataEntry| e@) == v@.map_values(|e: MetadataEntry| e@),
{
    let mut r: Vec<MetadataEntry> = Vec::new();
    let mut i: usize = 0;
    while i < v.len()
        invariant
            i <= v@.len(),
            r@.map_values(|e: MetadataEntry| e@) == v@.take(i as int).map_values(|e: MetadataEntry| e@),
        decreases v@.len() - i,
    {
        let ghost prev = r@;
        r.push(v[i].deep_clone());
        assert(r@.map_values(|e: MetadataEntry| e@) =~= prev.map_values(|e: MetadataEntry| e@).push(v@[i as int]@));
        assert(v@.take(i + 1).map_values(|e: MetadataEntry| e@) =~= v@.take(i as int).map_values(|e: MetadataEntry| e@).push(v@[i as int]@));
        i = i + 1;
    }
    assert(v@.take(v@.len() as int) =~= v@);
    r
}

impl ConfigMetadata {
    pub fn deep_clone(&self) -> (r: ConfigMetadata)
        ensures
            r@ == self@,
    {
        ConfigMetadata { enums: clone_enums(&self.enums), entries: clone_entries(&self.entries) }
    }
}

/// Built-in metadata, the user's metadata, and the metadata in effect.
pub struct ConfigMetadataState {
    built_in: ConfigMetadata,
    user: ConfigMetadata,
    effective: ConfigMetadata,
}

impl ConfigMetadataState {
    pub closed spec fn built_in_view(&self) -> ConfigMetadataV {
        self.built_in@
    }

    pub closed spec fn user_view(&self) -> ConfigMetadataV {
        self.user@
    }

    pub closed spec fn effective_view(&self) -> ConfigMetadataV {
        self.effective@
    }

    /// The metadata in effect is the merge of the built-in and user metadata.
    pub open spec fn is_merged(&self) -> bool {
        self.effective_view() == spec_effective(self.built_in_view(), self.user_view())
    }

    /// State from built-in and user metadata; the effective metadata is their
    /// merge.
    pub fn from_built_in_and_local(built_in: ConfigMetadata, user: ConfigMetadata) -> (r: ConfigMetadataState)
        ensures
            r.built_in_view() == built_in@,
            r.user_view() == user@,
            r.is_merged(),
    {
        let effective = Self::new_effective_from_built_in_and_user(&built_in, &user);
        ConfigMetadataState { built_in, user, effective }
    }

    /// The built-in metadata.
    pub fn built_in(&self) -> (r: &ConfigMetadata)
        ensures
            r@ == self.built_in_view(),
    {
        &self.built_in
    }

    /// The metadata defined by the user.
    pub fn user(&self) -> (r: &ConfigMetadata)
        ensures
            r@ == self.user_view(),
    {
        &self.user
    }

    /// The metadata in effect.
    pub fn effective(&self) -> (r: &ConfigMetadata)
        ensures
            r@ == self.effective_view(),
    {
        &self.effective
    }

    /// The entry as a user entry: neither auto-generated nor built-in.
    pub open spec fn as_user_entry(e: MetadataEntryV) -> MetadataEntryV {
        MetadataEntryV { is_autogenerated: false, is_built_in: false, ..e }
    }

    /// Adds `entry` as a new user entry (no longer auto-generated or
    /// built-in), rebuilds the effective metadata, and returns the entry's
    /// index among the user entries.
    pub fn add_user_entry(&mut self, entry: MetadataEntry) -> (r: usize)
        requires
            old(self).user_view().entries.len() < usize::MAX,
        ensures
            r == old(self).user_view().entries.len(),
            final(self).user_view().entries == old(self).user_view().entries.push(Self::as_user_entry(entry@)),
            final(self).user_view().enums == old(self).user_view().enums,
            final(self).built_in_view() == old(self).built_in_view(),
            final(self).is_merged(),
    {
        let mut entry = entry;
        entry.is_autogenerated = false;
        entry.is_built_in = false;
        let mut user = ConfigMetadata { enums: Vec::new(), entries: Vec::new() };
        std::mem::swap(&mut user, &mut self.user);
        user.entries.push(entry);
        let n = user.entries.len();
        assert(user@.entries =~= old(self).user_view().entries.push(Self::as_user_entry(entry@)));
        let effective = Self::new_effective_from_built_in_and_user(&self.built_in, &user);
        self.user = user;
        self.effective = effective;
        n - 1
    }

    /// Replaces the user entry at `metadata_id` with `entry` (no longer
    /// auto-generated or built-in) and rebuilds the effective metadata.
    pub fn replace_user_entry(&mut self, metadata_id: usize, entry: MetadataEntry)
        requires
            metadata_id < old(self).user_view().entries.len(),
        ensures
            final(self).user_view().entries == old(self).user_view().entries.update(
                metadata_id as int,
                Self::as_user_entry(entry@),
            ),
            final(self).user_view().enums == old(self).user_view().enums,
            final(self).built_in_view() == old(self).built_in_view(),
            final(self).is_merged(),
    {
        let mut entry = entry;
        entry.is_autogenerated = false;
        entry.is_built_in = false;
        let mut user = ConfigMetadata { enums: Vec::new(), entries: Vec::new() };
        std::mem::swap(&mut user, &mut self.user);
        user.entries.set(metadata_id, entry);
        assert(user@.entries =~= old(self).user_view().entries.update(metadata_id as int, Self::as_user_entry(entry@)));
        let effective = Self::new_effective_from_built_in_and_user(&self.built_in, &user);
        self.user = user;
        self.effective = effective;
    }

    /// Removes the user entry at `metadata_id` and rebuilds the effective
    /// metadata.
    pub fn remove_user_override(&mut self, metadata_id: usize)
        requires
            metadata_id < old(self).user_view().entries.len(),
        ensures
            final(self).user_view().entries == old(self).user_view().entries.remove(metadata_id as int),
            final(self).user_view().enums == old(self).user_view().enums,
            final(self).built_in_view() == old(self).built_in_view(),
            final(self).is_merged(),
    {
        let mut user = ConfigMetadata { enums: Vec::new(), entries: Vec::new() };
        std::mem::swap(&mut user, &mut self.user);
        user.entries.remove(metadata_id);
        assert(user@.entries =~= old(self).user_view().entries.remove(metadata_id as int));
        let effective = Self::new_effective_from_built_in_and_user(&self.built_in, &user);
        self.user = user;
        self.effective = effective;
    }

    /// The merge of built-in and user metadata (`spec_effective`).
    fn new_effective_from_built_in_and_user(built_in: &ConfigMetadata, user: &ConfigMetadata) -> (r: ConfigMetadata)
        ensures
            r@ == spec_effective(built_in@, user@),
    {
        let mut enums = clone_enums(&built_in.enums);
        let mut i: usize = 0;
        while i < user.enums.len()
            invariant
                i <= user@.enums.len(),
                enums@.map_values(|e: Enumeration| e@) == merge_enums(built_in@.enums, user@.enums.take(i as int)),
            decreases user@.enums.len() - i,
        {
            let ghost prev = enums@.map_values(|e: Enumeration| e@);
            proof {
                lemma_merge_enums_len(built_in@.enums, user@.enums.take(i as int));
                assert(user@.enums.take(i + 1).drop_last() =~= user@.enums.take(i as int));
                assert(user@.enums.take(i + 1).last() == user@.enums[i as int]);
            }
            let e = user.enums[i].deep_clone();
            proof {
                lemma_first_enum_index(built_in@.enums, user@.enums[i as int].name);
            }
            match built_in.find_enum(user.enums[i].name.as_str()) {
                Some((index, _)) => {
                    enums.set(index, e);
                    assert(enums@.map_values(|e: Enumeration| e@) =~= prev.update(index as int, user@.enums[i as int]));
                },
                None => {
                    enums.push(e);
                    assert(enums@.map_values(|e: Enumeration| e@) =~= prev.push(user@.enums[i as int]));
                },
            }
            i = i + 1;
        }
        assert(user@.enums.take(user@.enums.len() as int) =~= user@.enums);
        let mut entries = clone_entries(&built_in.entries);
        let mut j: usize = 0;
        while j < user.entries.len()
            invariant
                j <= user@.entries.len(),
                entries@.map_values(|e: MetadataEntry| e@) == merge_entries(built_in@.entries, user@.entries.take(j as int)),
            decreases user@.entries.len() - j,
        {
            let ghost prev = entries@.map_values(|e: MetadataEntry| e@);
            proof {
                lemma_merge_entries_len(built_in@.entries, user@.entries.take(j as int));
                assert(user@.entries.take(j + 1).drop_last() =~= user@.entries.take(j as int));
                assert(user@.entries.take(j + 1).last() == user@.entries[j as int]);
            }
            let e = user.entries[j].deep_clone();
            proof {
                crate::config::metadata::lemma_first_entry_index(built_in@.entries, user@.entries[j as int].name, user@.entries[j as int].location);
            }
            match built_in.find_entry(user.entries[j].name.as_str(), &user.entries[j].location) {
                Some((index, _)) => {
                    entries.set(index, e);
                    assert(entries@.map_values(|e: MetadataEntry| e@) =~= prev.update(index as int, user@.entries[j as int]));
                },
                None => {
                    entries.push(e);
                    assert(entries@.map_values(|e: MetadataEntry| e@) =~= prev.push(user@.entries[j as int]));
                },
            }
            j = j + 1;
        }
        assert(user@.entries.take(user@.entries.len() as int) =~= user@.entries);
        ConfigMetadata { enums, entries }
    }
}

/// Removing the user entry that `add_user_entry` just added (at the index it
/// returned, the old number of user entries) undoes the addition: the user
/// metadata is as before, and so is the metadata in effect, the merge of the
/// built-in metadata with it.
pub proof fn lemma_add_then_remove_user_entry(b: ConfigMetadataV, u: ConfigMetadataV, e: MetadataEntryV)
    ensures
        ({
            let added = ConfigMetadataV { entries: u.entries.push(ConfigMetadataState::as_user_entry(e)), ..u };
            let removed = ConfigMetadataV { entries: added.entries.remove(u.entries.len() as int), ..added };
            &&& removed == u
            &&& spec_effective(b, removed) == spec_effective(b, u)
        }),
{
    let added = ConfigMetadataV { entries: u.entries.push(ConfigMetadataState::as_user_entry(e)), ..u };
    assert(added.entries.remove(u.entries.len() as int) =~= u.entries);
}

/// What importing one entry does to the user entries `u`, given the built-in
/// entries `b`: an auto-generated user entry for the same setting is
/// replaced, any other user entry for it is kept; a setting that only the
/// built-in metadata knows is added with the built-in type, its default read
/// again as that type (the import fails when it does not read); an unknown
/// setting is added as it is.
pub open spec fn import_step(b: Seq<MetadataEntryV>, u: Seq<MetadataEntryV>, e: MetadataEntryV) -> Result<Seq<MetadataEntryV>, ConfigError> {
    match crate::config::metadata::first_entry_index(u, e.name, e.location) {
        Some(i) => Ok(if u[i].is_autogenerated { u.update(i, e) } else { u }),
        None => match crate::config::metadata::first_entry_index(b, e.name, e.location) {
            Some(j) => match e.default_value {
                Some(v) => match crate::config::variant::spec_variant_from(
                    b[j].value_type,
                    crate::config::variant::variant_text(v),
                ) {
                    Ok(c) => Ok(u.push(MetadataEntryV { value_type: b[j].value_type, default_value: Some(c), ..e })),
                    Err(err) => Err(err),
                },
                None => Ok(u.push(MetadataEntryV { value_type: b[j].value_type, default_value: None, ..e })),
            },
            None => Ok(u.push(e)),
        },
    }
}

/// Importing the entries `news` one after another: the user entries after
/// the last step that succeeded, and the error that stopped the import, if
/// any.
pub open spec fn spec_import(b: Seq<MetadataEntryV>, u: Seq<MetadataEntryV>, news: Seq<MetadataEntryV>) -> (Seq<MetadataEntryV>, Option<ConfigError>)
    decreases news.len(),
{
    if news.len() == 0 {
        (u, None)
    } else {
        let (prev, err) = spec_import(b, u, news.drop_last());
        if err is Some {
            (prev, err)
        } else {
            match import_step(b, prev, news.last()) {
                Ok(next) => (next, None),
                Err(e) => (prev, Some(e)),
            }
        }
    }
}

impl ConfigMetadataState {
    /// Imports the entries of `new` into the user metadata, in order, as
    /// `import_step` says. Stops at the first entry whose default does not
    /// read as the built-in type; the entries before it stay imported. The
    /// effective metadata is rebuilt, whether the import succeeds or not.
    pub fn import_metadata(&mut self, new: ConfigMetadata) -> (r: Result<(), ConfigError>)
        ensures
            final(self).user_view().entries == spec_import(
                old(self).built_in_view().entries,
                old(self).user_view().entries,
                new@.entries,
            ).0,
            match spec_import(old(self).built_in_view().entries, old(self).user_view().entries, new@.entries).1 {
                Some(e) => r == Err::<(), ConfigError>(e),
                None => r is Ok,
            },
            final(self).user_view().enums == old(self).user_view().enums,
            final(self).built_in_view() == old(self).built_in_view(),
            final(self).is_merged(),
    {
        let ghost b = self.built_in@.entries;
        let ghost u0 = self.user@.entries;
        let ghost news = new@.entries;
        let mut i: usize = 0;
        while i < new.entries.len()
            invariant
                i <= new@.entries.len(),
                news == new@.entries,
                b == self.built_in@.entries,
                b == old(self).built_in_view().entries,
                self.built_in@ == old(self).built_in_view(),
                self.user@.enums == old(self).user_view().enums,
                u0 == old(self).user_view().entries,
                spec_import(b, u0, news.take(i as int)) == (self.user@.entries, None::<ConfigError>),
            decreases new@.entries.len() - i,
        {
            let ghost prev = self.user@.entries;
            proof {
                assert(news.take(i + 1).drop_last() =~= news.take(i as int));
                assert(news.take(i + 1).last() == news[i as int]);
                crate::config::metadata::lemma_first_entry_index(prev, news[i as int].name, news[i as int].location);
                crate::config::metadata::lemma_first_entry_index(b, news[i as int].name, news[i as int].location);
            }
            let new_entry = new.entries[i].deep_clone();
            let found_user = match self.user.find_entry(new_entry.name.as_str(), &new_entry.location) {
                Some((index, user_entry)) => Some((index, user_entry.is_autogenerated)),
                None => None,
            };
            match found_user {
                Some((index, is_autogenerated)) => {
                    if is_autogenerated {
                        self.user.entries.set(index, new_entry);
                        assert(self.user@.entries =~= prev.update(index as int, news[i as int]));
                    }
                },
                None => {
                    match self.built_in.find_entry(new_entry.name.as_str(), &new_entry.location) {
                        Some((_, built_in_entry)) => {
                            let value_type = built_in_entry.value_type.deep_clone();
                            let mut converted = new_entry;
                            match &converted.default_value {
                                Some(v) => {
                                    let text = v.to_string();
                                    match ConfigVariant::from_type_and_value(&value_type, text.as_str()) {
                                        Ok(c) => {
                                            converted.default_value = Some(c);
                                        },
                                        Err(e) => {
                                            proof {
                                                lemma_import_err_prefix(b, u0, news, (i + 1) as int, e);
                                            }
                                            self.effective = Self::new_effective_from_built_in_and_user(&self.built_in, &self.user);
                                            return Err(e);
                                        },
                                    }
                                },
                                None => {},
                            }
                            converted.value_type = value_type;
                            let ghost c = converted@;
                            self.user.entries.push(converted);
                            assert(self.user@.entries =~= prev.push(c));
                        },
                        None => {
                            self.user.entries.push(new_entry);
                            assert(self.user@.entries =~= prev.push(news[i as int]));
                        },
                    }
                },
            }
            i = i + 1;
        }
        assert(news.take(new@.entries.len() as int) =~= news);
        self.effective = Self::new_effective_from_built_in_and_user(&self.built_in, &self.user);
        Ok(())
    }
}

/// Once an import step has failed, the rest of the entries change nothing.
proof fn lemma_import_err_prefix(b: Seq<MetadataEntryV>, u: Seq<MetadataEntryV>, news: Seq<MetadataEntryV>, n: int, e: ConfigError)
    requires
        0 <= n <= news.len(),
        spec_import(b, u, news.take(n)).1 == Some(e),
    ensures
        spec_import(b, u, news) == spec_import(b, u, news.take(n)),
    decreases news.len() - n,
{
    if n < news.len() {
        assert(news.take(n + 1).drop_last() =~= news.take(n));
        lemma_import_err_prefix(b, u, news, n + 1, e);
    } else {
        assert(news.take(n) =~= news);
    }
}

/// Which metadata entry names an enumeration that is not there.
#[derive(Clone, Copy, Debug, PartialEq, Eq, Structural)]
pub enum MetadataError {
    MissingEnumeration { entry_index: usize },
}

/// The entry names an enumeration type that the metadata does not hold.
pub open spec fn lacks_enumeration(m: ConfigMetadataV, e: MetadataEntryV) -> bool {
    match e.value_type.base_type {
        BaseTypeV::Enum(name) => first_enum_index(m.enums, name) is None,
        _ => false,
    }
}

/// Checks that every entry of enumeration type names an enumeration of the
/// metadata; fails with the first entry that does not.
pub fn validate_enumerations(metadata: &ConfigMetadata) -> (r: Result<(), MetadataError>)
    ensures
        match r {
            Ok(()) => forall|i: int| 0 <= i < metadata@.entries.len() ==> !lacks_enumeration(metadata@, #[trigger] metadata@.entries[i]),
            Err(MetadataError::MissingEnumeration { entry_index }) => {
                &&& entry_index < metadata@.entries.len()
                &&& lacks_enumeration(metadata@, metadata@.entries[entry_index as int])
                &&& forall|i: int| 0 <= i < entry_index ==> !lacks_enumeration(metadata@, #[trigger] metadata@.entries[i])
            },
        },
{
    let mut i: usize = 0;
    while i < metadata.entries.len()
        invariant
            i <= metadata@.entries.len(),
            forall|k: int| 0 <= k < i ==> !lacks_enumeration(metadata@, #[trigger] metadata@.entries[k]),
        decreases metadata@.entries.len() - i,
    {
        match &metadata.entries[i].value_type.base_type {
            ConfigValueBaseType::Enum(enum_name) => {
                proof {
                    lemma_first_enum_index(metadata@.enums, enum_name@);
                }
                if metadata.find_enum(enum_name.as_str()).is_none() {
                    return Err(MetadataError::MissingEnumeration { entry_index: i });
                }
            },
            _ => {},
        }
        i = i + 1;
    }
    Ok(())
}

/// The last user entry that overrides the built-in entry at index `i`.
pub open spec fn last_override(b: Seq<MetadataEntryV>, u: Seq<MetadataEntryV>, i: int) -> Option<MetadataEntryV>
    decreases u.len(),
{
    if u.len() == 0 {
        None
    } else if crate::config::metadata::first_entry_index(b, u.last().name, u.last().location) == Some(i) {
        Some(u.last())
    } else {
        last_override(b, u.drop_last(), i)
    }
}

/// In the effective metadata, each built-in entry is replaced by the last
/// user entry for the same setting, and stays as it is when the user has
/// none; user entries for settings that are not built in come after the
/// built-in ones.
pub proof fn lemma_effective_entries(b: Seq<MetadataEntryV>, u: Seq<MetadataEntryV>)
    ensures
        merge_entries(b, u).len() >= b.len(),
        forall|i: int| 0 <= i < b.len() ==> #[trigger] merge_entries(b, u)[i] == match last_override(b, u, i) {
            Some(e) => e,
            None => b[i],
        },
    decreases u.len(),
{
    lemma_merge_entries_len(b, u);
    if u.len() > 0 {
        lemma_effective_entries(b, u.drop_last());
        lemma_merge_entries_len(b, u.drop_last());
        crate::config::metadata::lemma_first_entry_index(b, u.last().name, u.last().location);
    }
}

/// Importing an entry whose setting already has a user entry that is not
/// auto-generated (the first user entry with its name and location) leaves
/// the user entries as they are; an auto-generated one is replaced by the
/// imported entry.
pub proof fn lemma_import_keeps_hand_made_entry(b: Seq<MetadataEntryV>, u: Seq<MetadataEntryV>, e: MetadataEntryV, i: int)
    requires
        0 <= i < u.len(),
        u[i].name == e.name,
        u[i].location == e.location,
        forall|j: int| 0 <= j < i ==> !(#[trigger] u[j].name == e.name && u[j].location == e.location),
    ensures
        !u[i].is_autogenerated ==> import_step(b, u, e) == Ok::<Seq<MetadataEntryV>, ConfigError>(u),
        !u[i].is_autogenerated ==> spec_import(b, u, seq![e]) == (u, None::<ConfigError>),
        u[i].is_autogenerated ==> import_step(b, u, e) == Ok::<Seq<MetadataEntryV>, ConfigError>(u.update(i, e)),
{
    crate::config::metadata::lemma_first_entry_index(u, e.name, e.location);
    match crate::config::metadata::first_entry_index(u, e.name, e.location) {
        Some(f) => {
            if f < i {
                assert(!(u[f].name == e.name && u[f].location == e.location));
            }
            if f > i {
                assert(!crate::config::metadata::entry_is(u[i], e.name, e.location));
            }
        },
        None => {
            assert(!crate::config::metadata::entry_is(u[i], e.name, e.location));
        },
    }
    assert(seq![e].drop_last() =~= Seq::<MetadataEntryV>::empty());
    assert(seq![e].last() == e);
    assert(spec_import(b, u, Seq::<MetadataEntryV>::empty()) == (u, None::<ConfigError>));
    assert(spec_import(b, u, seq![e]) == match import_step(b, u, e) {
        Ok(next) => (next, None::<ConfigError>),
        Err(err) => (u, Some(err)),
    });
}

/// However many entries are imported, and whether the import succeeds or
/// not, a user entry that is not auto-generated stays where it was, as it
/// was; the user entries are never fewer than before.
pub proof fn lemma_import_never_overwrites_hand_made_entries(b: Seq<MetadataEntryV>, u: Seq<MetadataEntryV>, news: Seq<MetadataEntryV>)
    ensures
        spec_import(b, u, news).0.len() >= u.len(),
        forall|k: int| 0 <= k < u.len() && !(#[trigger] u[k]).is_autogenerated ==> spec_import(b, u, news).0[k] == u[k],
    decreases news.len(),
{
    if news.len() > 0 {
        lemma_import_never_overwrites_hand_made_entries(b, u, news.drop_last());
        let (prev, err) = spec_import(b, u, news.drop_last());
        if err is None {
            let e = news.last();
            crate::config::metadata::lemma_first_entry_index(prev, e.name, e.location);
            match import_step(b, prev, e) {
                Ok(next) => {
                    assert forall|k: int| 0 <= k < u.len() && !(#[trigger] u[k]).is_autogenerated implies next[k] == u[k] by {
                        assert(prev[k] == u[k]);
                    }
                },
                Err(_) => {},
            }
        }
    }
}

/// Lookup by name sees only the names.
proof fn lemma_first_enum_index_names(s1: Seq<EnumerationV>, s2: Seq<EnumerationV>, name: Seq<char>)
    requires
        s1.len() == s2.len(),
        forall|k: int| 0 <= k < s1.len() ==> (#[trigger] s1[k]).name == s2[k].name,
    ensures
        first_enum_index(s1, name) == first_enum_index(s2, name),
    decreases s1.len(),
{
    if s1.len() > 0 {
        assert forall|k: int| 0 <= k < s1.len() - 1 implies (#[trigger] s1.drop_last()[k]).name == s2.drop_last()[k].name by {
            assert(s1.drop_last()[k] == s1[k]);
            assert(s2.drop_last()[k] == s2[k]);
        }
        lemma_first_enum_index_names(s1.drop_last(), s2.drop_last(), name);
    }
}

/// What the merge of enumerations keeps: the built-in names at their places,
/// lookups of built-in names where they were, and no name that neither side
/// has; with distinct user names, each user enumeration is what a lookup
/// by its name finds.
proof fn lemma_merge_enums_shape(b: Seq<EnumerationV>, u: Seq<EnumerationV>)
    ensures
        merge_enums(b, u).len() >= b.len(),
        forall|k: int| 0 <= k < b.len() ==> (#[trigger] merge_enums(b, u)[k]).name == b[k].name,
        forall|name: Seq<char>| (#[trigger] first_enum_index(b, name)) is Some ==> first_enum_index(merge_enums(b, u), name) == first_enum_index(b, name),
        forall|name: Seq<char>| first_enum_index(b, name) is None && (forall|j: int| 0 <= j < u.len() ==> (#[trigger] u[j]).name != name)
            ==> (#[trigger] first_enum_index(merge_enums(b, u), name)) is None,
        (forall|j1: int, j2: int| 0 <= j1 < j2 < u.len() ==> (#[trigger] u[j1]).name != (#[trigger] u[j2]).name) ==> forall|j: int|
            0 <= j < u.len() ==> (first_enum_index(merge_enums(b, u), (#[trigger] u[j]).name) matches Some(k) && merge_enums(b, u)[k] == u[j]),
    decreases u.len(),
{
    if u.len() > 0 {
        let u0 = u.drop_last();
        let e = u.last();
        lemma_merge_enums_shape(b, u0);
        let prev = merge_enums(b, u0);
        let m = merge_enums(b, u);
        lemma_first_enum_index(b, e.name);
        assert forall|j: int| 0 <= j < u0.len() implies (#[trigger] u0[j]) == u[j] by {}
        match first_enum_index(b, e.name) {
            Some(i) => {
                assert(m == prev.update(i, e));
                assert(prev[i].name == e.name);
                assert forall|k: int| 0 <= k < m.len() implies (#[trigger] m[k]).name == prev[k].name by {}
                assert forall|name: Seq<char>| true implies #[trigger] first_enum_index(m, name) == first_enum_index(prev, name) by {
                    lemma_first_enum_index_names(m, prev, name);
                }
                if forall|j1: int, j2: int| 0 <= j1 < j2 < u.len() ==> (#[trigger] u[j1]).name != (#[trigger] u[j2]).name {
                    assert forall|j1: int, j2: int| 0 <= j1 < j2 < u0.len() implies (#[trigger] u0[j1]).name != (#[trigger] u0[j2]).name by {
                        assert(u0[j1] == u[j1]);
                        assert(u0[j2] == u[j2]);
                    }
                    assert forall|j: int| 0 <= j < u.len() implies (first_enum_index(m, (#[trigger] u[j]).name) matches Some(k) && m[k] == u[j]) by {
                        if j == u.len() - 1 {
                            assert(first_enum_index(b, e.name) is Some);
                            assert(first_enum_index(prev, e.name) == Some(i));
                            assert(first_enum_index(m, e.name) == Some(i));
                            assert(m[i] == e);
                        } else {
                            assert(u0[j] == u[j]);
                            assert(u[j].name != u[u.len() - 1].name);
                            let found = first_enum_index(prev, u0[j].name);
                            lemma_first_enum_index(prev, u0[j].name);
                            assert(found matches Some(k) && prev[k] == u0[j]);
                            let k = found->Some_0;
                            assert(k != i);
                            assert(first_enum_index(m, u[j].name) == found);
                        }
                    }
                }
            },
            None => {
                assert(m == prev.push(e));
                assert forall|k: int| 0 <= k < b.len() implies (#[trigger] m[k]).name == b[k].name by {
                    assert(m[k] == prev[k]);
                }
                assert forall|name: Seq<char>| (#[trigger] first_enum_index(b, name)) is Some implies first_enum_index(m, name) == first_enum_index(b, name) by {
                    assert(m.drop_last() =~= prev);
                }
                assert forall|name: Seq<char>| first_enum_index(b, name) is None && (forall|j: int| 0 <= j < u.len() ==> (#[trigger] u[j]).name != name)
                    implies (#[trigger] first_enum_index(m, name)) is None by {
                    assert(m.drop_last() =~= prev);
                    assert forall|j: int| 0 <= j < u0.len() implies (#[trigger] u0[j]).name != name by {
                        assert(u[j].name != name);
                    }
                    assert(first_enum_index(prev, name) is None);
                    assert(u[u.len() - 1].name != name);
                    assert(m.last() == e);
                }
                if forall|j1: int, j2: int| 0 <= j1 < j2 < u.len() ==> (#[trigger] u[j1]).name != (#[trigger] u[j2]).name {
                    assert(m.drop_last() =~= prev);
                    assert(m.last() == e);
                    assert forall|j1: int, j2: int| 0 <= j1 < j2 < u0.len() implies (#[trigger] u0[j1]).name != (#[trigger] u0[j2]).name by {
                        assert(u0[j1] == u[j1]);
                        assert(u0[j2] == u[j2]);
                    }
                    assert forall|j: int| 0 <= j < u.len() implies (first_enum_index(m, (#[trigger] u[j]).name) matches Some(k) && m[k] == u[j]) by {
                        if j == u.len() - 1 {
                            assert forall|jj: int| 0 <= jj < u0.len() implies (#[trigger] u0[jj]).name != e.name by {
                                assert(u0[jj] == u[jj]);
                                assert(u[jj].name != u[u.len() - 1].name);
                            }
                            assert(first_enum_index(prev, e.name) is None);
                            assert(first_enum_index(m, e.name) == Some(prev.len() as int));
                        } else {
                            assert(u0[j] == u[j]);
                            let found = first_enum_index(prev, u0[j].name);
                            lemma_first_enum_index(prev, u0[j].name);
                            assert(found matches Some(k) && prev[k] == u0[j]);
                            let k = found->Some_0;
                            assert(m[k] == prev[k]);
                            assert(first_enum_index(m, u[j].name) == found);
                        }
                    }
                }
            },
        }
    }
}

/// In the metadata in effect, each user enumeration (the user's names being
/// distinct) is what a lookup by its name finds: it replaces the built-in
/// enumeration of that name, or is added; a built-in enumeration whose name
/// no user enumeration takes is found as it was.
pub proof fn lemma_user_enumerations_take_effect(b: ConfigMetadataV, u: ConfigMetadataV)
    requires
        forall|j1: int, j2: int| 0 <= j1 < j2 < u.enums.len() ==> (#[trigger] u.enums[j1]).name != (#[trigger] u.enums[j2]).name,
    ensures
        forall|j: int| 0 <= j < u.enums.len() ==> (first_enum_index(spec_effective(b, u).enums, (#[trigger] u.enums[j]).name) matches Some(k)
            && spec_effective(b, u).enums[k] == u.enums[j]),
        forall|i: int| 0 <= i < b.enums.len() && first_enum_index(b.enums, b.enums[i].name) == Some(i)
            && (forall|j: int| 0 <= j < u.enums.len() ==> (#[trigger] u.enums[j]).name != b.enums[i].name)
            ==> first_enum_index(spec_effective(b, u).enums, (#[trigger] b.enums[i]).name) == Some(i) && spec_effective(b, u).enums[i] == b.enums[i],
{
    lemma_merge_enums_shape(b.enums, u.enums);
    lemma_merge_enums_untouched(b.enums, u.enums);
}

/// A built-in enumeration whose name no user enumeration takes is left in
/// place by the merge.
proof fn lemma_merge_enums_untouched(b: Seq<EnumerationV>, u: Seq<EnumerationV>)
    ensures
        forall|i: int| 0 <= i < b.len() && (forall|j: int| 0 <= j < u.len() ==> (#[trigger] u[j]).name != b[i].name)
            ==> (#[trigger] merge_enums(b, u)[i]) == b[i],
    decreases u.len(),
{
    if u.len() > 0 {
        lemma_merge_enums_untouched(b, u.drop_last());
        lemma_merge_enums_shape(b, u.drop_last());
        let e = u.last();
        lemma_first_enum_index(b, e.name);
        assert forall|i: int| 0 <= i < b.len() && (forall|j: int| 0 <= j < u.len() ==> (#[trigger] u[j]).name != b[i].name)
            implies (#[trigger] merge_enums(b, u)[i]) == b[i] by {
            assert forall|j: int| 0 <= j < u.drop_last().len() implies (#[trigger] u.drop_last()[j]).name != b[i].name by {
                assert(u.drop_last()[j] == u[j]);
            }
            assert(u[u.len() - 1].name != b[i].name);
        }
    }
}

/// Importing an entry whose setting has no user entry adds one entry after
/// the user entries, for the same setting: with the built-in type when the
/// built-in metadata knows the setting (the first built-in entry for it),
/// else with the imported type; it has a default exactly when the imported
/// entry has one. The user entries before it are kept.
pub proof fn lemma_import_adds_missing_entry(b: Seq<MetadataEntryV>, u: Seq<MetadataEntryV>, e: MetadataEntryV)
    requires
        forall|j: int| 0 <= j < u.len() ==> !(#[trigger] u[j].name == e.name && u[j].location == e.location),
    ensures
        import_step(b, u, e) matches Ok(next) ==> {
            &&& next.len() == u.len() + 1
            &&& next.take(u.len() as int) == u
            &&& next.last().name == e.name
            &&& next.last().location == e.location
            &&& (next.last().default_value is Some <==> e.default_value is Some)
            &&& match crate::config::metadata::first_entry_index(b, e.name, e.location) {
                Some(j) => next.last().value_type == b[j].value_type,
                None => next.last() == e,
            }
        },
        import_step(b, u, e) is Err ==> e.default_value is Some && crate::config::metadata::first_entry_index(b, e.name, e.location) is Some,
{
    crate::config::metadata::lemma_first_entry_index(u, e.name, e.location);
    match crate::config::metadata::first_entry_index(u, e.name, e.location) {
        Some(f) => {
            assert(u[f].name == e.name && u[f].location == e.location);
        },
        None => {},
    }
    match import_step(b, u, e) {
        Ok(next) => {
            assert(next.take(u.len() as int) =~= u);
        },
        Err(_) => {},
    }
}

} // verus!
