//! The command line that starts a server: the map with its URL options, then
//! the command-line switches.
use vstd::prelude::*;
use crate::config::entry::{ConfigEntry, ConfigEntryV};
use crate::config::metadata::{BaseTypeV, ConfigLocation, ConfigLocationV, ConfigQuantity, ConfigValueBaseType, MetadataEntryV};
use crate::config::state::ConfigMetadataState;
use crate::config::variant::{ConfigValue, ConfigVariant, ValueV, VariantV};
use crate::server::ServerSettings;
use crate::text::concat;

verus! {

/// Why no command line could be made.
#[derive(Clone, Copy, Debug, PartialEq, Eq, Structural)]
pub enum CommandLineError {
    /// A setting of the server has no metadata.
    MissingMetadata,
    /// Neither the server nor the metadata gives the map.
    MissingMapName,
}

/// Every setting has metadata in `meta`.
pub open spec fn all_have_metadata(entries: Seq<ConfigEntryV>, meta: Seq<MetadataEntryV>) -> bool {
    forall|i: int| 0 <= i < entries.len() ==> crate::config::metadata::first_entry_index(
        meta,
        (#[trigger] entries[i]).meta_name,
        entries[i].meta_location,
    ) is Some
}

/// The metadata of a setting.
pub open spec fn meta_of(e: ConfigEntryV, meta: Seq<MetadataEntryV>) -> MetadataEntryV {
    meta[crate::config::metadata::first_entry_index(meta, e.meta_name, e.meta_location).unwrap()]
}

/// The value of the first map-name setting.
pub open spec fn map_from_entries(entries: Seq<ConfigEntryV>) -> Option<Seq<char>>
    decreases entries.len(),
{
    if entries.len() == 0 {
        None
    } else {
        match map_from_entries(entries.drop_last()) {
            Some(m) => Some(m),
            None => if entries.last().meta_location == ConfigLocationV::MapName {
                Some(crate::config::variant::variant_text(entries.last().value))
            } else {
                None
            },
        }
    }
}

/// The first map-name metadata entry, with its default written as text.
pub open spec fn map_from_metadata(meta: Seq<MetadataEntryV>) -> Option<Option<Seq<char>>>
    decreases meta.len(),
{
    if meta.len() == 0 {
        None
    } else {
        match map_from_metadata(meta.drop_last()) {
            Some(m) => Some(m),
            None => if meta.last().location == ConfigLocationV::MapName {
                Some(
                    match meta.last().default_value {
                        Some(v) => Some(crate::config::variant::variant_text(v)),
                        None => None,
                    },
                )
            } else {
                None
            },
        }
    }
}

/// The map: the server's map-name setting, else the default of the map-name
/// metadata.
pub open spec fn spec_map(entries: Seq<ConfigEntryV>, meta: Seq<MetadataEntryV>) -> Option<Seq<char>> {
    match map_from_entries(entries) {
        Some(m) => Some(m),
        None => match map_from_metadata(meta) {
            Some(m) => m,
            None => None,
        },
    }
}

/// `name=value` for each map URL option, in order.
pub open spec fn url_params(entries: Seq<ConfigEntryV>) -> Seq<Seq<char>>
    decreases entries.len(),
{
    if entries.len() == 0 {
        seq![]
    } else {
        let prev = url_params(entries.drop_last());
        let e = entries.last();
        if e.meta_location == ConfigLocationV::MapUrlOption {
            prev.push(e.meta_name + seq!['='] + crate::config::variant::variant_text(e.value))
        } else {
            prev
        }
    }
}

/// The items joined with `sep` between them.
pub open spec fn join_with(items: Seq<Seq<char>>, sep: Seq<char>) -> Seq<char>
    decreases items.len(),
{
    if items.len() == 0 {
        seq![]
    } else if items.len() == 1 {
        items[0]
    } else {
        join_with(items.drop_last(), sep) + sep + items.last()
    }
}

/// A command-line switch: a scalar boolean setting is `-Name` when true and
/// empty otherwise (also when its value is not a boolean); any other setting
/// is `-Name=value`.
pub open spec fn switch_text(e: ConfigEntryV, m: MetadataEntryV) -> Seq<char> {
    if m.value_type.quantity == ConfigQuantity::Scalar && m.value_type.base_type == BaseTypeV::Bool {
        match e.value {
            VariantV::Scalar(ValueV::Bool(b)) => if b {
                seq!['-'] + e.meta_name
            } else {
                seq![]
            },
            _ => seq![],
        }
    } else {
        seq!['-'] + e.meta_name + seq!['='] + crate::config::variant::variant_text(e.value)
    }
}

/// The switches of the command-line settings, in order.
pub open spec fn switch_args(entries: Seq<ConfigEntryV>, meta: Seq<MetadataEntryV>) -> Seq<Seq<char>>
    decreases entries.len(),
{
    if entries.len() == 0 {
        seq![]
    } else {
        let prev = switch_args(entries.drop_last(), meta);
        let e = entries.last();
        if e.meta_location == ConfigLocationV::CommandLineOption {
            prev.push(switch_text(e, meta_of(e, meta)))
        } else {
            prev
        }
    }
}

/// The command line for the server's settings `entries` under the metadata
/// in effect `meta`: first the map, followed by `?` and the URL options
/// joined by `?` when there are any, then one argument per command-line
/// setting.
pub open spec fn spec_command_line(entries: Seq<ConfigEntryV>, meta: Seq<MetadataEntryV>) -> Result<Seq<Seq<char>>, CommandLineError> {
    if !all_have_metadata(entries, meta) {
        Err(CommandLineError::MissingMetadata)
    } else {
        match spec_map(entries, meta) {
            None => Err(CommandLineError::MissingMapName),
            Some(map) => {
                let params = url_params(entries);
                let first = if params.len() == 0 { map } else { map + seq!['?'] + join_with(params, seq!['?']) };
                Ok(seq![first] + switch_args(entries, meta))
            },
        }
    }
}

fn is_bool_scalar_type(m: &crate::config::metadata::MetadataEntry) -> (r: bool)
    ensures
        r == (m@.value_type.quantity == ConfigQuantity::Scalar && m@.value_type.base_type == BaseTypeV::Bool),
{
    match (&m.value_type.quantity, &m.value_type.base_type) {
        (ConfigQuantity::Scalar, ConfigValueBaseType::Bool) => true,
        _ => false,
    }
}

fn switch_for(e: &ConfigEntry, m: &crate::config::metadata::MetadataEntry) -> (r: String)
    ensures
        r@ == switch_text(e@, m@),
{
    if is_bool_scalar_type(m) {
        match &e.value {
            ConfigVariant::Scalar(ConfigValue::Bool(b)) => {
                if *b {
                    let r = concat("-", e.meta_name.as_str());
                    proof {
                        reveal_strlit("-");
                    }
                    r
                } else {
                    String::new()
                }
            },
            _ => String::new(),
        }
    } else {
        let a = concat("-", e.meta_name.as_str());
        let b = concat(a.as_str(), "=");
        let r = concat(b.as_str(), e.value.to_string().as_str());
        proof {
            reveal_strlit("-");
            reveal_strlit("=");
        }
        assert(r@ =~= switch_text(e@, m@));
        r
    }
}

/// The command line that starts the server, as `spec_command_line` says
/// over the server's settings and the metadata in effect.
pub fn generate_command_line(config_metadata: &ConfigMetadataState, server_settings: &ServerSettings) -> (r: Result<Vec<String>, CommandLineError>)
    ensures
        match spec_command_line(server_settings.config_entries@, config_metadata.effective_view().entries) {
            Ok(args) => r matches Ok(v) && v@.map_values(|s: String| s@) == args,
            Err(e) => r == Err::<Vec<String>, CommandLineError>(e),
        },
{
    let effective = config_metadata.effective();
    let entries = &server_settings.config_entries.entries;
    let ghost ev = server_settings.config_entries@;
    let ghost meta = effective@.entries;
    // Every setting needs metadata.
    let mut metas: Vec<&crate::config::metadata::MetadataEntry> = Vec::new();
    let mut i: usize = 0;
    while i < entries.len()
        invariant
            i <= entries@.len(),
            ev == server_settings.config_entries@,
            ev.len() == entries@.len(),
            forall|k: int| 0 <= k < entries@.len() ==> #[trigger] ev[k] == entries@[k]@,
            meta == effective@.entries,
            meta == config_metadata.effective_view().entries,
            metas@.len() == i,
            forall|k: int| 0 <= k < i ==> crate::config::metadata::first_entry_index(meta, (#[trigger] ev[k]).meta_name, ev[k].meta_location) is Some,
            forall|k: int| 0 <= k < i ==> (#[trigger] metas@[k])@ == meta_of(ev[k], meta),
        decreases entries@.len() - i,
    {
        let e = &entries[i];
        proof {
            crate::config::metadata::lemma_first_entry_index(meta, ev[i as int].meta_name, ev[i as int].meta_location);
        }
        match effective.find_entry(e.meta_name.as_str(), &e.meta_location) {
            Some((index, m)) => {
                proof {
                    assert(crate::config::metadata::first_entry_index(meta, ev[i as int].meta_name, ev[i as int].meta_location) == Some(index as int));
                }
                metas.push(m);
            },
            None => {
                assert(!all_have_metadata(ev, meta));
                assert(spec_command_line(ev, meta) == Err::<Seq<Seq<char>>, CommandLineError>(CommandLineError::MissingMetadata));
                return Err(CommandLineError::MissingMetadata);
            },
        }
        i = i + 1;
    }
    assert(all_have_metadata(ev, meta));
    // The map.
    let mut map: Option<String> = None;
    let mut k: usize = 0;
    while k < entries.len()
        invariant
            k <= entries@.len(),
            ev.len() == entries@.len(),
            forall|j: int| 0 <= j < entries@.len() ==> #[trigger] ev[j] == entries@[j]@,
            match map_from_entries(ev.take(k as int)) {
                Some(m) => map matches Some(s) && s@ == m,
                None => map is None,
            },
        decreases entries@.len() - k,
    {
        assert(ev.take(k + 1).drop_last() =~= ev.take(k as int));
        assert(ev.take(k + 1).last() == ev[k as int]);
        if map.is_none() {
            if let ConfigLocation::MapName = &entries[k].meta_location {
                map = Some(entries[k].value.to_string());
            }
        }
        k = k + 1;
    }
    assert(ev.take(entries@.len() as int) =~= ev);
    let ghost map_entries = map_from_entries(ev);
    let map = match map {
        Some(m) => m,
        None => {
            let mut found: Option<Option<String>> = None;
            let mut j: usize = 0;
            while j < effective.entries.len()
                invariant
                    j <= meta.len(),
                    meta == effective@.entries,
                    match map_from_metadata(meta.take(j as int)) {
                        Some(Some(m)) => found matches Some(Some(s)) && s@ == m,
                        Some(None) => found == Some(None::<String>),
                        None => found is None,
                    },
                decreases meta.len() - j,
            {
                assert(meta.take(j + 1).drop_last() =~= meta.take(j as int));
                assert(meta.take(j + 1).last() == meta[j as int]);
                if found.is_none() {
                    if let ConfigLocation::MapName = &effective.entries[j].location {
                        found = Some(match &effective.entries[j].default_value {
                            Some(v) => Some(v.to_string()),
                            None => None,
                        });
                    }
                }
                j = j + 1;
            }
            assert(meta.take(meta.len() as int) =~= meta);
            match found {
                Some(Some(m)) => m,
                _ => {
                    assert(spec_map(ev, meta) is None);
                    return Err(CommandLineError::MissingMapName);
                },
            }
        },
    };
    assert(spec_map(ev, meta) == Some(map@));
    // URL options.
    let mut params = String::new();
    let mut n_params: usize = 0;
    let mut switches: Vec<String> = Vec::new();
    let mut k: usize = 0;
    while k < entries.len()
        invariant
            k <= entries@.len(),
            ev.len() == entries@.len(),
            forall|j: int| 0 <= j < entries@.len() ==> #[trigger] ev[j] == entries@[j]@,
            metas@.len() == entries@.len(),
            forall|j: int| 0 <= j < entries@.len() ==> (#[trigger] metas@[j])@ == meta_of(ev[j], meta),
            n_params == url_params(ev.take(k as int)).len(),
            n_params <= k,
            params@ == join_with(url_params(ev.take(k as int)), seq!['?']),
            switches@.map_values(|s: String| s@) == switch_args(ev.take(k as int), meta),
        decreases entries@.len() - k,
    {
        let e = &entries[k];
        let ghost pre = ev.take(k as int);
        assert(ev.take(k + 1).drop_last() =~= pre);
        assert(ev.take(k + 1).last() == ev[k as int]);
        match &e.meta_location {
            ConfigLocation::MapUrlOption => {
                let item = concat(concat(e.meta_name.as_str(), "=").as_str(), e.value.to_string().as_str());
                proof {
                    reveal_strlit("=");
                    reveal_strlit("?");
                }
                if n_params > 0 {
                    params.append("?");
                }
                params.append(item.as_str());
                n_params = n_params + 1;
                proof {
                    let items = url_params(ev.take(k + 1));
                    assert(items == url_params(pre).push(e@.meta_name + seq!['='] + crate::config::variant::variant_text(e@.value)));
                    assert(items.drop_last() =~= url_params(pre));
                    if items.len() == 1 {
                        assert(params@ =~= items[0]);
                    } else {
                        assert(params@ =~= join_with(items.drop_last(), seq!['?']) + seq!['?'] + items.last());
                    }
                }
            },
            ConfigLocation::CommandLineOption => {
                let ghost before = switches@;
                switches.push(switch_for(e, metas[k]));
                assert(switches@.map_values(|s: String| s@) =~= before.map_values(|s: String| s@).push(switch_text(ev[k as int], meta_of(ev[k as int], meta))));
            },
            _ => {},
        }
        k = k + 1;
    }
    assert(ev.take(entries@.len() as int) =~= ev);
    let first = if n_params == 0 {
        map
    } else {
        let a = concat(map.as_str(), "?");
        proof {
            reveal_strlit("?");
        }
        concat(a.as_str(), params.as_str())
    };
    let mut args: Vec<String> = Vec::new();
    args.push(first);
    let mut s: usize = 0;
    let ghost sw = switches@.map_values(|x: String| x@);
    while s < switches.len()
        invariant
            s <= switches@.len(),
            sw == switches@.map_values(|x: String| x@),
            args@.map_values(|x: String| x@) == seq![first@] + sw.take(s as int),
        decreases switches@.len() - s,
    {
        let ghost before = args@;
        args.push(switches[s].clone());
        assert(sw.take(s + 1) =~= sw.take(s as int).push(switches@[s as int]@));
        assert(args@.map_values(|x: String| x@) =~= before.map_values(|x: String| x@).push(switches@[s as int]@));
        assert(args@.map_values(|x: String| x@) =~= seq![first@] + sw.take(s + 1));
        s = s + 1;
    }
    assert(sw.take(switches@.len() as int) =~= sw);
    assert(sw == switch_args(ev, meta));
    assert(n_params == url_params(ev).len());
    proof {
        reveal_strlit("?");
    }
    assert(first@ == (if url_params(ev).len() == 0 { map@ } else { map@ + seq!['?'] + join_with(url_params(ev), seq!['?']) }));
    Ok(args)
}

} // verus!
