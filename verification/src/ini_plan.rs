//! Settings and INI files: escaping values the way Unreal reads them, the
//! edits that bring a server's INI files in line with its settings, and
//! reading settings from the rows of an INI file.
use vstd::prelude::*;
use crate::text::{chars_of, concat, push_char};
use crate::config::entry::{ConfigEntries, ConfigEntry, ConfigEntryV};
use crate::config::metadata::{ConfigLocation, ConfigLocationV, ConfigMetadata, ConfigValueType, IniFile, IniFileV, IniSection, IniSectionV, MetadataEntry, MetadataEntryV, ValueTypeV, VectorSerialization};
use crate::config::variant::{ConfigValue, ConfigVariant, ValueV, VariantV};
use crate::server::ServerSettings;

verus! {

/// Characters that Unreal reads the same inside or outside quotes: ASCII
/// letters, digits, `.` and `/`.
pub open spec fn is_plain_char(c: char) -> bool {
    ('a' <= c && c <= 'z') || ('A' <= c && c <= 'Z') || ('0' <= c && c <= '9') || c == '.' || c == '/'
}

/// One character escaped: `\\` for a backslash, `\"` for a quote.
pub open spec fn escape_char(c: char) -> Seq<char> {
    if c == '\\' {
        seq!['\\', '\\']
    } else if c == '"' {
        seq!['\\', '"']
    } else {
        seq![c]
    }
}

/// The text with each character escaped.
pub open spec fn escape_text(s: Seq<char>) -> Seq<char>
    decreases s.len(),
{
    if s.len() == 0 {
        seq![]
    } else {
        escape_char(s[0]) + escape_text(s.drop_first())
    }
}

/// A value as Unreal reads it from an INI file: backslashes and quotes
/// escaped, and the whole enclosed in quotes unless it holds only letters,
/// digits, `.` and `/`.
pub open spec fn spec_unreal_escaped(s: Seq<char>) -> Seq<char> {
    let e = escape_text(s);
    if exists|i: int| 0 <= i < e.len() && !is_plain_char(#[trigger] e[i]) {
        seq!['"'] + e + seq!['"']
    } else {
        e
    }
}

/// Reading escaped text back: `\x` stands for `x`.
pub open spec fn unescape_text(s: Seq<char>) -> Seq<char>
    decreases s.len(),
{
    if s.len() == 0 {
        seq![]
    } else if s[0] == '\\' && s.len() >= 2 {
        seq![s[1]] + unescape_text(s.skip(2))
    } else {
        seq![s[0]] + unescape_text(s.drop_first())
    }
}

proof fn lemma_escape_push(s: Seq<char>, c: char)
    ensures
        escape_text(s.push(c)) == escape_text(s) + escape_char(c),
    decreases s.len(),
{
    if s.len() == 0 {
        assert(s.push(c).drop_first() =~= Seq::<char>::empty());
        assert(escape_text(s.push(c).drop_first()) == Seq::<char>::empty());
        assert(s.push(c)[0] == c);
        assert(escape_text(s) == Seq::<char>::empty());
        assert(escape_text(s.push(c)) =~= escape_char(c));
    } else {
        assert(s.push(c).drop_first() =~= s.drop_first().push(c));
        lemma_escape_push(s.drop_first(), c);
        assert(escape_text(s.push(c)) =~= escape_char(s[0]) + escape_text(s.drop_first().push(c)));
    }
}

/// Unescaping escaped text gives the text back.
pub proof fn lemma_unescape_escape(s: Seq<char>)
    ensures
        unescape_text(escape_text(s)) == s,
    decreases s.len(),
{
    if s.len() > 0 {
        lemma_unescape_escape(s.drop_first());
        let e = escape_text(s);
        let rest = escape_text(s.drop_first());
        let c = s[0];
        if c == '\\' || c == '"' {
            assert(e.skip(2) =~= rest);
            assert(e[0] == '\\');
            assert(e[1] == c);
        } else {
            assert(e.drop_first() =~= rest);
            assert(e[0] == c);
        }
        assert(seq![c] + s.drop_first() =~= s);
    }
}

/// Escapes `value` for an INI file (`spec_unreal_escaped`).
pub fn unreal_escaped_value(value: &str) -> (r: String)
    ensures
        r@ == spec_unreal_escaped(value@),
{
    let cs = chars_of(value);
    let mut e: Vec<char> = Vec::new();
    let mut all_plain = true;
    let mut i: usize = 0;
    while i < cs.len()
        invariant
            i <= cs@.len(),
            cs@ == value@,
            e@ == escape_text(cs@.take(i as int)),
            all_plain == forall|k: int| 0 <= k < e@.len() ==> is_plain_char(#[trigger] e@[k]),
        decreases cs@.len() - i,
    {
        let c = cs[i];
        proof {
            assert(cs@.take(i + 1) =~= cs@.take(i as int).push(c));
            lemma_escape_push(cs@.take(i as int), c);
        }
        let ghost before = e@;
        if c == '\\' {
            e.push('\\');
            e.push('\\');
            all_plain = false;
        } else if c == '"' {
            e.push('\\');
            e.push('"');
            all_plain = false;
        } else {
            e.push(c);
            let plain = ('a' <= c && c <= 'z') || ('A' <= c && c <= 'Z') || ('0' <= c && c <= '9') || c == '.' || c == '/';
            if !plain {
                all_plain = false;
            }
            proof {
                if !plain {
                    assert(!is_plain_char(e@[e@.len() - 1]));
                }
            }
        }
        proof {
            assert(e@ =~= before + escape_char(c));
            if c == '\\' || c == '"' {
                assert(!is_plain_char(e@[before.len() as int]));
            }
            assert((forall|k: int| 0 <= k < e@.len() ==> is_plain_char(#[trigger] e@[k])) == (
            (forall|k: int| 0 <= k < before.len() ==> is_plain_char(#[trigger] before[k]))
                && forall|k: int| 0 <= k < escape_char(c).len() ==> is_plain_char(#[trigger] escape_char(c)[k]))) by {
                assert forall|k: int| 0 <= k < before.len() implies e@[k] == before[k] by {}
                assert forall|k: int| 0 <= k < escape_char(c).len() implies e@[before.len() + k] == escape_char(c)[k] by {}
            }
        }
        i = i + 1;
    }
    assert(cs@.take(cs@.len() as int) =~= cs@);
    let mut r = String::new();
    if !all_plain {
        push_char(&mut r, '"');
    }
    let mut j: usize = 0;
    while j < e.len()
        invariant
            j <= e@.len(),
            r@ == (if all_plain { seq![] } else { seq!['"'] }) + e@.take(j as int),
        decreases e@.len() - j,
    {
        push_char(&mut r, e[j]);
        j = j + 1;
        assert(r@ =~= (if all_plain { seq![] } else { seq!['"'] }) + e@.take(j as int));
    }
    assert(e@.take(e@.len() as int) =~= e@);
    if !all_plain {
        push_char(&mut r, '"');
    }
    assert(r@ =~= spec_unreal_escaped(value@));
    r
}

/// How Unreal reads a value from an INI file: quotes around it dropped,
/// escapes undone.
pub open spec fn unreal_read(r: Seq<char>) -> Seq<char> {
    if r.len() >= 2 && r[0] == '"' && r.last() == '"' {
        unescape_text(r.subrange(1, r.len() - 1))
    } else {
        unescape_text(r)
    }
}

proof fn lemma_plain_unescape(e: Seq<char>)
    requires
        forall|i: int| 0 <= i < e.len() ==> is_plain_char(#[trigger] e[i]),
    ensures
        unescape_text(e) == e,
    decreases e.len(),
{
    if e.len() > 0 {
        assert(is_plain_char(e[0]));
        assert forall|i: int| 0 <= i < e.drop_first().len() implies is_plain_char(#[trigger] e.drop_first()[i]) by {
            assert(e.drop_first()[i] == e[i + 1]);
        }
        lemma_plain_unescape(e.drop_first());
        assert(seq![e[0]] + e.drop_first() =~= e);
    }
}

/// What an escaped value is read back as is the value itself.
pub proof fn lemma_unreal_escape_roundtrip(s: Seq<char>)
    ensures
        unreal_read(spec_unreal_escaped(s)) == s,
{
    let e = escape_text(s);
    lemma_unescape_escape(s);
    if exists|i: int| 0 <= i < e.len() && !is_plain_char(#[trigger] e[i]) {
        let r = seq!['"'] + e + seq!['"'];
        assert(r.subrange(1, r.len() - 1) =~= e);
    } else {
        lemma_plain_unescape(e);
        if e.len() >= 2 && e[0] == '"' {
            assert(!is_plain_char(e[0]));
        }
    }
}

/// One change to a section of an INI file.
#[derive(Debug)]
pub enum IniEdit {
    /// Remove every value of `key` from `section`, when the section is there.
    Delete { section: String, key: String },
    /// Set `key` of `section` (made when missing) to `value`, replacing its
    /// values.
    SetValue { section: String, key: String, value: String },
    /// Remove from `section` (made when missing) every key that starts with
    /// `prefix`.
    RemoveKeysWithPrefix { section: String, prefix: String },
    /// Remove every value of `key` from `section` (made when missing).
    RemoveAll { section: String, key: String },
    /// Add one more value of `key` at the end of `section` (made when missing).
    Append { section: String, key: String, value: String },
}

/// An INI edit as plain values.
pub enum IniEditV {
    Delete { section: Seq<char>, key: Seq<char> },
    SetValue { section: Seq<char>, key: Seq<char>, value: Seq<char> },
    RemoveKeysWithPrefix { section: Seq<char>, prefix: Seq<char> },
    RemoveAll { section: Seq<char>, key: Seq<char> },
    Append { section: Seq<char>, key: Seq<char>, value: Seq<char> },
}

impl View for IniEdit {
    type V = IniEditV;

    open spec fn view(&self) -> IniEditV {
        match self {
            IniEdit::Delete { section, key } => IniEditV::Delete { section: section@, key: key@ },
            IniEdit::SetValue { section, key, value } => IniEditV::SetValue { section: section@, key: key@, value: value@ },
            IniEdit::RemoveKeysWithPrefix { section, prefix } => IniEditV::RemoveKeysWithPrefix {
                section: section@,
                prefix: prefix@,
            },
            IniEdit::RemoveAll { section, key } => IniEditV::RemoveAll { section: section@, key: key@ },
            IniEdit::Append { section, key, value } => IniEditV::Append {
                section: section@,
                key: key@,
                value: value@,
            },
        }
    }
}

/// An edit of one INI file.
#[derive(Debug)]
pub struct IniFileEdit {
    pub file: IniFile,
    pub edit: IniEdit,
}

impl View for IniFileEdit {
    type V = (IniFileV, IniEditV);

    open spec fn view(&self) -> (IniFileV, IniEditV) {
        (self.file@, self.edit@)
    }
}

pub open spec fn edits_view(v: Seq<IniFileEdit>) -> Seq<(IniFileV, IniEditV)> {
    v.map_values(|e: IniFileEdit| e@)
}

/// The server has a value for the setting `name` at `location`.
pub open spec fn has_entry(entries: Seq<ConfigEntryV>, name: Seq<char>, location: ConfigLocationV) -> bool {
    exists|i: int| 0 <= i < entries.len() && crate::config::entry::config_entry_is(#[trigger] entries[i], name, location)
}

/// A deletion for each INI setting of the metadata that the server has no
/// value for, in metadata order.
pub open spec fn removal_edits(meta: Seq<MetadataEntryV>, entries: Seq<ConfigEntryV>) -> Seq<(IniFileV, IniEditV)>
    decreases meta.len(),
{
    if meta.len() == 0 {
        seq![]
    } else {
        let prev = removal_edits(meta.drop_last(), entries);
        let m = meta.last();
        match m.location {
            ConfigLocationV::IniOption(f, s) => if !has_entry(entries, m.name, m.location) {
                prev.push((f, IniEditV::Delete { section: s.text(), key: m.name }))
            } else {
                prev
            },
            _ => prev,
        }
    }
}

/// How a vector setting is written: as its metadata says, comma-separated
/// when there is no metadata or it does not say.
pub open spec fn serialization_of(meta: Seq<MetadataEntryV>, name: Seq<char>, location: ConfigLocationV) -> VectorSerialization {
    match crate::config::metadata::first_entry_index(meta, name, location) {
        Some(i) => match meta[i].vector_serialization {
            Some(v) => v,
            None => VectorSerialization::CommaSeparated,
        },
        None => VectorSerialization::CommaSeparated,
    }
}

/// `Name[0] = a`, `Name[1] = b`, ... from index `start` on.
pub open spec fn indexed_sets(section: Seq<char>, name: Seq<char>, values: Seq<ValueV>) -> Seq<IniEditV>
    decreases values.len(),
{
    if values.len() == 0 {
        seq![]
    } else {
        indexed_sets(section, name, values.drop_last()).push(
            IniEditV::SetValue {
                section,
                key: name + seq!['['] + crate::text::int_text(values.len() - 1) + seq![']'],
                value: crate::config::variant::value_text(values.last()),
            },
        )
    }
}

/// One `Name = value` line appended per value.
pub open spec fn repeated_appends(section: Seq<char>, name: Seq<char>, values: Seq<ValueV>) -> Seq<IniEditV>
    decreases values.len(),
{
    if values.len() == 0 {
        seq![]
    } else {
        repeated_appends(section, name, values.drop_last()).push(
            IniEditV::Append { section, key: name, value: crate::config::variant::value_text(values.last()) },
        )
    }
}

/// The edits that write one setting into its section: a structure as
/// written; a vector as its serialization says (one comma-separated value;
/// `Name[i]` keys after removing the old ones; or the key repeated after
/// removing the old values); anything else escaped for Unreal.
pub open spec fn entry_edits(section: Seq<char>, e: ConfigEntryV, meta: Seq<MetadataEntryV>) -> Seq<IniEditV> {
    let text = crate::config::variant::variant_text(e.value);
    match e.value {
        VariantV::Scalar(ValueV::Struct(_)) => seq![IniEditV::SetValue { section, key: e.meta_name, value: text }],
        VariantV::Vector(values) => match serialization_of(meta, e.meta_name, e.meta_location) {
            VectorSerialization::CommaSeparated => seq![IniEditV::SetValue { section, key: e.meta_name, value: text }],
            VectorSerialization::Indexed => seq![
                IniEditV::RemoveKeysWithPrefix { section, prefix: e.meta_name + seq!['['] },
            ] + indexed_sets(section, e.meta_name, values),
            VectorSerialization::Repeated => seq![IniEditV::RemoveAll { section, key: e.meta_name }]
                + repeated_appends(section, e.meta_name, values),
        },
        _ => seq![IniEditV::SetValue { section, key: e.meta_name, value: spec_unreal_escaped(text) }],
    }
}

/// The edits for each INI setting of the server, in order.
pub open spec fn setting_edits(entries: Seq<ConfigEntryV>, meta: Seq<MetadataEntryV>) -> Seq<(IniFileV, IniEditV)>
    decreases entries.len(),
{
    if entries.len() == 0 {
        seq![]
    } else {
        let prev = setting_edits(entries.drop_last(), meta);
        let e = entries.last();
        match e.meta_location {
            ConfigLocationV::IniOption(f, s) => prev + entry_edits(s.text(), e, meta).map_values(
                |x: IniEditV| (f, x),
            ),
            _ => prev,
        }
    }
}

/// The edits that bring the server's INI files in line with its settings:
/// first (unless the server allows managing its INI files by hand) the
/// deletion of each metadata setting it has no value for, then the writing
/// of each of its INI settings.
pub open spec fn spec_ini_plan(meta: Seq<MetadataEntryV>, entries: Seq<ConfigEntryV>, allow_external: bool) -> Seq<(IniFileV, IniEditV)> {
    (if allow_external { seq![] } else { removal_edits(meta, entries) }) + setting_edits(entries, meta)
}

proof fn lemma_indexed_sets_no_delete(section: Seq<char>, name: Seq<char>, values: Seq<ValueV>)
    ensures
        forall|i: int| 0 <= i < indexed_sets(section, name, values).len() ==> !(#[trigger] indexed_sets(section, name, values)[i] is Delete),
    decreases values.len(),
{
    if values.len() > 0 {
        lemma_indexed_sets_no_delete(section, name, values.drop_last());
    }
}

proof fn lemma_repeated_appends_no_delete(section: Seq<char>, name: Seq<char>, values: Seq<ValueV>)
    ensures
        forall|i: int| 0 <= i < repeated_appends(section, name, values).len() ==> !(#[trigger] repeated_appends(section, name, values)[i] is Delete),
    decreases values.len(),
{
    if values.len() > 0 {
        lemma_repeated_appends_no_delete(section, name, values.drop_last());
    }
}

proof fn lemma_setting_edits_no_delete(entries: Seq<ConfigEntryV>, meta: Seq<MetadataEntryV>)
    ensures
        forall|i: int| 0 <= i < setting_edits(entries, meta).len() ==> !((#[trigger] setting_edits(entries, meta)[i]).1 is Delete),
    decreases entries.len(),
{
    if entries.len() > 0 {
        lemma_setting_edits_no_delete(entries.drop_last(), meta);
        let e = entries.last();
        match e.meta_location {
            ConfigLocationV::IniOption(f, s) => {
                let es = entry_edits(s.text(), e, meta);
                lemma_indexed_sets_no_delete(s.text(), e.meta_name, match e.value {
                    VariantV::Vector(vs) => vs,
                    _ => seq![],
                });
                lemma_repeated_appends_no_delete(s.text(), e.meta_name, match e.value {
                    VariantV::Vector(vs) => vs,
                    _ => seq![],
                });
                assert forall|i: int| 0 <= i < es.len() implies !(#[trigger] es[i] is Delete) by {
                    match e.value {
                        VariantV::Vector(vs) => {
                            match serialization_of(meta, e.meta_name, e.meta_location) {
                                VectorSerialization::Indexed => {
                                    if i > 0 {
                                        assert(es[i] == indexed_sets(s.text(), e.meta_name, vs)[i - 1]);
                                    }
                                },
                                VectorSerialization::Repeated => {
                                    if i > 0 {
                                        assert(es[i] == repeated_appends(s.text(), e.meta_name, vs)[i - 1]);
                                    }
                                },
                                _ => {},
                            }
                        },
                        _ => {},
                    }
                }
            },
            _ => {},
        }
    }
}

/// A server whose INI files are managed by other programs loses no setting
/// from them: the edits made for it delete no key.
pub proof fn lemma_external_management_deletes_nothing(meta: Seq<MetadataEntryV>, entries: Seq<ConfigEntryV>)
    ensures
        forall|i: int| 0 <= i < spec_ini_plan(meta, entries, true).len() ==> !((#[trigger] spec_ini_plan(meta, entries, true)[i]).1 is Delete),
{
    lemma_setting_edits_no_delete(entries, meta);
    assert(spec_ini_plan(meta, entries, true) =~= setting_edits(entries, meta));
}

fn usize_text(n: usize) -> (r: String)
    ensures
        r@ == crate::text::int_text(n as int),
{
    crate::text::u64_to_string(n as u64)
}

fn section_edits_for(section: &IniSection, entry: &ConfigEntry, metadata: &ConfigMetadata) -> (r: Vec<IniEdit>)
    ensures
        r@.map_values(|x: IniEdit| x@) == entry_edits(section@.text(), entry@, metadata@.entries),
{
    let text = entry.value.to_string();
    let name = entry.meta_name.as_str();
    let mut r: Vec<IniEdit> = Vec::new();
    let ghost sec = section@.text();
    match &entry.value {
        ConfigVariant::Scalar(ConfigValue::Struct(_)) => {
            r.push(IniEdit::SetValue { section: section.to_string(), key: entry.meta_name.clone(), value: text });
            assert(r@.map_values(|x: IniEdit| x@) =~= entry_edits(sec, entry@, metadata@.entries));
        },
        ConfigVariant::Vector(values) => {
            proof {
                crate::config::metadata::lemma_first_entry_index(metadata@.entries, entry@.meta_name, entry@.meta_location);
                crate::config::variant::lemma_values_view(values@);
            }
            let mode = match metadata.find_entry(name, &entry.meta_location) {
                Some((_, m)) => match m.vector_serialization {
                    Some(v) => v,
                    None => VectorSerialization::CommaSeparated,
                },
                None => VectorSerialization::CommaSeparated,
            };
            assert(mode == serialization_of(metadata@.entries, entry@.meta_name, entry@.meta_location));
            let ghost vv = crate::config::variant::values_view(values@);
            match mode {
                VectorSerialization::CommaSeparated => {
                    r.push(IniEdit::SetValue { section: section.to_string(), key: entry.meta_name.clone(), value: text });
                    assert(r@.map_values(|x: IniEdit| x@) =~= entry_edits(sec, entry@, metadata@.entries));
                },
                VectorSerialization::Indexed => {
                    proof {
                        reveal_strlit("[");
                        reveal_strlit("]");
                    }
                    let prefix = concat(name, "[");
                    assert(prefix@ =~= entry@.meta_name + seq!['[']);
                    r.push(IniEdit::RemoveKeysWithPrefix { section: section.to_string(), prefix });
                    assert(vv.take(0) =~= Seq::<ValueV>::empty());
                    assert(indexed_sets(sec, entry@.meta_name, vv.take(0)) == Seq::<IniEditV>::empty());
                    assert(r@[0]@ == IniEditV::RemoveKeysWithPrefix { section: sec, prefix: entry@.meta_name + seq!['['] });
                    assert(r@.map_values(|x: IniEdit| x@) =~= seq![
                        IniEditV::RemoveKeysWithPrefix { section: sec, prefix: entry@.meta_name + seq!['['] },
                    ] + indexed_sets(sec, entry@.meta_name, vv.take(0)));
                    let mut k: usize = 0;
                    while k < values.len()
                        invariant
                            k <= values@.len(),
                            vv == crate::config::variant::values_view(values@),
                            vv.len() == values@.len(),
                            forall|j: int| 0 <= j < values@.len() ==> #[trigger] vv[j] == values@[j]@,
                            sec == section@.text(),
                            name@ == entry@.meta_name,
                            r@.map_values(|x: IniEdit| x@) == seq![
                                IniEditV::RemoveKeysWithPrefix { section: sec, prefix: entry@.meta_name + seq!['['] },
                            ] + indexed_sets(sec, entry@.meta_name, vv.take(k as int)),
                        decreases values@.len() - k,
                    {
                        proof {
                            reveal_strlit("[");
                            reveal_strlit("]");
                        }
                        let idx = usize_text(k);
                        let key = concat(concat(concat(name, "[").as_str(), idx.as_str()).as_str(), "]");
                        let ghost before = r@.map_values(|x: IniEdit| x@);
                        r.push(IniEdit::SetValue { section: section.to_string(), key, value: values[k].to_string() });
                        proof {
                            let t = vv.take(k + 1);
                            assert(t.drop_last() =~= vv.take(k as int));
                            assert(t.last() == vv[k as int]);
                            assert(key@ =~= entry@.meta_name + seq!['['] + crate::text::int_text(t.len() - 1) + seq![']']);
                            assert(r@.map_values(|x: IniEdit| x@) =~= before.push(IniEditV::SetValue {
                                section: sec,
                                key: key@,
                                value: crate::config::variant::value_text(vv[k as int]),
                            }));
                        }
                        k = k + 1;
                    }
                    assert(vv.take(values@.len() as int) =~= vv);
                },
                VectorSerialization::Repeated => {
                    r.push(IniEdit::RemoveAll { section: section.to_string(), key: entry.meta_name.clone() });
                    assert(vv.take(0) =~= Seq::<ValueV>::empty());
                    assert(repeated_appends(sec, entry@.meta_name, vv.take(0)) == Seq::<IniEditV>::empty());
                    assert(r@.map_values(|x: IniEdit| x@) =~= seq![
                        IniEditV::RemoveAll { section: sec, key: entry@.meta_name },
                    ] + repeated_appends(sec, entry@.meta_name, vv.take(0)));
                    let mut k: usize = 0;
                    while k < values.len()
                        invariant
                            k <= values@.len(),
                            vv == crate::config::variant::values_view(values@),
                            vv.len() == values@.len(),
                            forall|j: int| 0 <= j < values@.len() ==> #[trigger] vv[j] == values@[j]@,
                            sec == section@.text(),
                            r@.map_values(|x: IniEdit| x@) == seq![
                                IniEditV::RemoveAll { section: sec, key: entry@.meta_name },
                            ] + repeated_appends(sec, entry@.meta_name, vv.take(k as int)),
                        decreases values@.len() - k,
                    {
                        let ghost before = r@.map_values(|x: IniEdit| x@);
                        r.push(IniEdit::Append { section: section.to_string(), key: entry.meta_name.clone(), value: values[k].to_string() });
                        proof {
                            let t = vv.take(k + 1);
                            assert(t.drop_last() =~= vv.take(k as int));
                            assert(t.last() == vv[k as int]);
                            assert(r@.map_values(|x: IniEdit| x@) =~= before.push(IniEditV::Append {
                                section: sec,
                                key: entry@.meta_name,
                                value: crate::config::variant::value_text(vv[k as int]),
                            }));
                        }
                        k = k + 1;
                    }
                    assert(vv.take(values@.len() as int) =~= vv);
                },
            }
        },
        _ => {
            let escaped = unreal_escaped_value(text.as_str());
            r.push(IniEdit::SetValue { section: section.to_string(), key: entry.meta_name.clone(), value: escaped });
            assert(r@.map_values(|x: IniEdit| x@) =~= entry_edits(sec, entry@, metadata@.entries));
        },
    }
    r
}

/// The edits that bring the server's INI files in line with its settings
/// (`spec_ini_plan`), over the metadata in effect.
pub fn plan_ini_updates(config_metadata: &ConfigMetadata, server_settings: &ServerSettings) -> (r: Vec<IniFileEdit>)
    ensures
        edits_view(r@) == spec_ini_plan(
            config_metadata@.entries,
            server_settings.config_entries@,
            server_settings.allow_external_ini_management,
        ),
{
    let entries = &server_settings.config_entries;
    let ghost ev = entries@;
    let ghost meta = config_metadata@.entries;
    let mut r: Vec<IniFileEdit> = Vec::new();
    if !server_settings.allow_external_ini_management {
        let mut i: usize = 0;
        while i < config_metadata.entries.len()
            invariant
                i <= meta.len(),
                meta == config_metadata@.entries,
                ev == entries@,
                edits_view(r@) == removal_edits(meta.take(i as int), ev),
            decreases meta.len() - i,
        {
            let m = &config_metadata.entries[i];
            proof {
                assert(meta.take(i + 1).drop_last() =~= meta.take(i as int));
                assert(meta.take(i + 1).last() == meta[i as int]);
            }
            let ghost before = edits_view(r@);
            match &m.location {
                ConfigLocation::IniOption(file, section) => {
                    if entries.find(m.name.as_str(), &m.location).is_none() {
                        r.push(IniFileEdit {
                            file: file.deep_clone(),
                            edit: IniEdit::Delete { section: section.to_string(), key: m.name.clone() },
                        });
                        assert(edits_view(r@) =~= before.push((file@, IniEditV::Delete { section: section@.text(), key: m@.name })));
                    } else {
                        assert(has_entry(ev, m@.name, m@.location));
                    }
                },
                _ => {},
            }
            i = i + 1;
        }
        assert(meta.take(meta.len() as int) =~= meta);
    }
    let ghost base = edits_view(r@);
    assert(base == (if server_settings.allow_external_ini_management { seq![] } else { removal_edits(meta, ev) }));
    let mut j: usize = 0;
    while j < entries.entries.len()
        invariant
            j <= ev.len(),
            ev == entries@,
            ev.len() == entries.entries@.len(),
            meta == config_metadata@.entries,
            edits_view(r@) == base + setting_edits(ev.take(j as int), meta),
        decreases ev.len() - j,
    {
        let e = &entries.entries[j];
        proof {
            assert(ev.take(j + 1).drop_last() =~= ev.take(j as int));
            assert(ev.take(j + 1).last() == ev[j as int]);
            assert(ev[j as int] == e@);
        }
        match &e.meta_location {
            ConfigLocation::IniOption(file, section) => {
                let edits = section_edits_for(section, e, config_metadata);
                let ghost ed = edits@.map_values(|x: IniEdit| x@);
                let mut k: usize = 0;
                let ghost start = edits_view(r@);
                while k < edits.len()
                    invariant
                        k <= edits@.len(),
                        ed == edits@.map_values(|x: IniEdit| x@),
                        edits_view(r@) == start + ed.take(k as int).map_values(|x: IniEditV| (file@, x)),
                    decreases edits@.len() - k,
                {
                    let ghost before = edits_view(r@);
                    let edit = clone_edit(&edits[k]);
                    r.push(IniFileEdit { file: file.deep_clone(), edit });
                    assert(ed.take(k + 1).map_values(|x: IniEditV| (file@, x)) =~= ed.take(k as int).map_values(|x: IniEditV| (file@, x)).push((file@, ed[k as int])));
                    assert(edits_view(r@) =~= before.push((file@, ed[k as int])));
                    k = k + 1;
                }
                assert(ed.take(edits@.len() as int) =~= ed);
                assert(edits_view(r@) =~= base + setting_edits(ev.take(j + 1), meta));
            },
            _ => {},
        }
        j = j + 1;
    }
    assert(ev.take(ev.len() as int) =~= ev);
    r
}

fn clone_edit(e: &IniEdit) -> (r: IniEdit)
    ensures
        r@ == e@,
{
    match e {
        IniEdit::Delete { section, key } => IniEdit::Delete { section: section.clone(), key: key.clone() },
        IniEdit::SetValue { section, key, value } => IniEdit::SetValue { section: section.clone(), key: key.clone(), value: value.clone() },
        IniEdit::RemoveKeysWithPrefix { section, prefix } => IniEdit::RemoveKeysWithPrefix { section: section.clone(), prefix: prefix.clone() },
        IniEdit::RemoveAll { section, key } => IniEdit::RemoveAll { section: section.clone(), key: key.clone() },
        IniEdit::Append { section, key, value } => IniEdit::Append { section: section.clone(), key: key.clone(), value: value.clone() },
    }
}

/// One `key = value` line of an INI file, with the section it is in (none for
/// lines before the first section header).
#[derive(Debug)]
pub struct IniRow {
    pub section: Option<String>,
    pub key: String,
    pub value: String,
}

/// An INI row as plain values.
pub struct IniRowV {
    pub section: Option<Seq<char>>,
    pub key: Seq<char>,
    pub value: Seq<char>,
}

impl View for IniRow {
    type V = IniRowV;

    open spec fn view(&self) -> IniRowV {
        IniRowV {
            section: match self.section {
                Some(s) => Some(s@),
                None => None,
            },
            key: self.key@,
            value: self.value@,
        }
    }
}

pub open spec fn rows_view(rows: Seq<IniRow>) -> Seq<IniRowV> {
    rows.map_values(|r: IniRow| r@)
}

/// Where a row of the file `file_name` puts its setting; rows outside any
/// section go to a custom section with an empty name.
pub open spec fn row_location(file_name: Seq<char>, row: IniRowV) -> ConfigLocationV {
    ConfigLocationV::IniOption(
        crate::config::metadata::spec_ini_file_from(file_name),
        match row.section {
            Some(s) => crate::config::metadata::spec_ini_section_from(s),
            None => IniSectionV::Custom(seq![]),
        },
    )
}

/// Settings read from the rows of an INI file with known metadata: each row
/// whose setting has metadata and whose value reads as the setting's type,
/// unless the value is the setting's default; other rows are passed over.
pub open spec fn spec_import_ini(meta: Seq<MetadataEntryV>, file_name: Seq<char>, rows: Seq<IniRowV>) -> Seq<ConfigEntryV>
    decreases rows.len(),
{
    if rows.len() == 0 {
        seq![]
    } else {
        let prev = spec_import_ini(meta, file_name, rows.drop_last());
        let row = rows.last();
        let loc = row_location(file_name, row);
        match crate::config::metadata::first_entry_index(meta, row.key, loc) {
            Some(i) => match crate::config::variant::spec_variant_from(meta[i].value_type, row.value) {
                Ok(v) => if meta[i].default_value == Some(v) {
                    prev
                } else {
                    prev.push(ConfigEntryV { meta_name: meta[i].name, meta_location: meta[i].location, is_favorite: false, value: v })
                },
                Err(_) => prev,
            },
            None => prev,
        }
    }
}

fn row_location_exec(file_name: &str, row: &IniRow) -> (r: ConfigLocation)
    ensures
        r@ == row_location(file_name@, row@),
{
    let section = match &row.section {
        Some(s) => IniSection::from(s.as_str()),
        None => IniSection::Custom(String::new()),
    };
    ConfigLocation::IniOption(IniFile::from(file_name), section)
}

/// Reads the settings of the rows of the INI file `file_name` that have
/// metadata (`spec_import_ini`).
pub fn import_ini_with_metadata(config_metadata: &ConfigMetadata, file_name: &str, rows: &Vec<IniRow>) -> (r: ConfigEntries)
    ensures
        r@ == spec_import_ini(config_metadata@.entries, file_name@, rows_view(rows@)),
{
    let ghost meta = config_metadata@.entries;
    let ghost rv = rows_view(rows@);
    let mut result = ConfigEntries::new();
    let mut i: usize = 0;
    while i < rows.len()
        invariant
            i <= rows@.len(),
            meta == config_metadata@.entries,
            rv == rows_view(rows@),
            result@ == spec_import_ini(meta, file_name@, rv.take(i as int)),
        decreases rows@.len() - i,
    {
        let row = &rows[i];
        proof {
            assert(rv.take(i + 1).drop_last() =~= rv.take(i as int));
            assert(rv.take(i + 1).last() == row@);
        }
        let location = row_location_exec(file_name, row);
        proof {
            crate::config::metadata::lemma_first_entry_index(meta, row@.key, location@);
        }
        match config_metadata.find_entry(row.key.as_str(), &location) {
            Some((_, m)) => {
                match ConfigVariant::from_type_and_value(&m.value_type, row.value.as_str()) {
                    Ok(variant) => {
                        let is_default = match &m.default_value {
                            Some(d) => d.equals(&variant),
                            None => false,
                        };
                        if !is_default {
                            let ghost before = result@;
                            result.entries.push(ConfigEntry {
                                meta_name: m.name.clone(),
                                meta_location: m.location.deep_clone(),
                                is_favorite: false,
                                value: variant,
                            });
                            assert(result@ =~= before.push(result@.last()));
                        }
                    },
                    Err(_) => {},
                }
            },
            None => {},
        }
        i = i + 1;
    }
    assert(rv.take(rows@.len() as int) =~= rv);
    result
}

/// The type guessed for a value read from an INI file.
pub open spec fn inferred_type(value: Seq<char>) -> ValueTypeV {
    ValueTypeV {
        quantity: crate::config::metadata::spec_infer_quantity(value),
        base_type: crate::config::metadata::spec_infer_base_type(value),
    }
}

/// The metadata entry made for a row of an INI file without metadata.
pub open spec fn imported_meta(file_name: Seq<char>, row: IniRowV, v: VariantV) -> MetadataEntryV {
    MetadataEntryV {
        name: row.key,
        location: row_location(file_name, row),
        is_autogenerated: true,
        is_built_in: false,
        is_deprecated: false,
        vector_serialization: None,
        description: "Auto imported - validate the configuration for this before using it"@,
        value_type: inferred_type(row.value),
        default_value: Some(v),
    }
}

/// Metadata and settings read from the rows of an INI file without
/// metadata: for each row whose value reads as its guessed type, a metadata
/// entry of that type with the value as default, and a setting with the
/// value.
pub open spec fn spec_import_file(file_name: Seq<char>, rows: Seq<IniRowV>) -> (Seq<MetadataEntryV>, Seq<ConfigEntryV>)
    decreases rows.len(),
{
    if rows.len() == 0 {
        (seq![], seq![])
    } else {
        let (ms, es) = spec_import_file(file_name, rows.drop_last());
        let row = rows.last();
        match crate::config::variant::spec_variant_from(inferred_type(row.value), row.value) {
            Ok(v) => (
                ms.push(imported_meta(file_name, row, v)),
                es.push(ConfigEntryV { meta_name: row.key, meta_location: row_location(file_name, row), is_favorite: false, value: v }),
            ),
            Err(_) => (ms, es),
        }
    }
}

/// Reads metadata and settings from the rows of the INI file `file_name`,
/// guessing each setting's type from its value (`spec_import_file`).
pub fn import_config_file(file_name: &str, rows: &Vec<IniRow>) -> (r: (ConfigMetadata, ConfigEntries))
    ensures
        (r.0@.entries, r.1@) == spec_import_file(file_name@, rows_view(rows@)),
        r.0@.enums.len() == 0,
{
    let ghost rv = rows_view(rows@);
    let mut metadata = ConfigMetadata::new();
    let mut entries = ConfigEntries::new();
    let mut i: usize = 0;
    while i < rows.len()
        invariant
            i <= rows@.len(),
            rv == rows_view(rows@),
            metadata@.enums.len() == 0,
            (metadata@.entries, entries@) == spec_import_file(file_name@, rv.take(i as int)),
        decreases rows@.len() - i,
    {
        let row = &rows[i];
        proof {
            assert(rv.take(i + 1).drop_last() =~= rv.take(i as int));
            assert(rv.take(i + 1).last() == row@);
        }
        let location = row_location_exec(file_name, row);
        let value_type = ConfigValueType::infer_from(row.value.as_str());
        match ConfigVariant::from_type_and_value(&value_type, row.value.as_str()) {
            Ok(default_value) => {
                let ghost before_m = metadata@.entries;
                let ghost before_e = entries@;
                metadata.entries.push(MetadataEntry {
                    name: row.key.clone(),
                    location: location.deep_clone(),
                    is_autogenerated: true,
                    is_built_in: false,
                    is_deprecated: false,
                    vector_serialization: None,
                    description: crate::text::owned("Auto imported - validate the configuration for this before using it"),
                    value_type: value_type.deep_clone(),
                    default_value: Some(default_value.deep_clone()),
                });
                entries.entries.push(ConfigEntry {
                    meta_name: row.key.clone(),
                    meta_location: location,
                    is_favorite: false,
                    value: default_value,
                });
                assert(metadata@.entries =~= before_m.push(metadata@.entries.last()));
                assert(entries@ =~= before_e.push(entries@.last()));
            },
            Err(_) => {},
        }
        i = i + 1;
    }
    assert(rv.take(rows@.len() as int) =~= rv);
    (metadata, entries)
}

proof fn lemma_strings_always_read(pieces: Seq<Seq<char>>)
    ensures
        crate::config::variant::spec_values_from(crate::config::metadata::BaseTypeV::String, pieces) is Ok,
    decreases pieces.len(),
{
    if pieces.len() > 0 {
        lemma_strings_always_read(pieces.drop_last());
    }
}

/// Every value of an INI file reads as the type guessed for it, so importing
/// a file without metadata keeps every row.
pub proof fn lemma_inferred_type_reads(value: Seq<char>)
    ensures
        crate::config::variant::spec_variant_from(inferred_type(value), value) is Ok,
{
    let t = inferred_type(value);
    if t.quantity == crate::config::metadata::ConfigQuantity::Vector {
        let l = crate::parse::ascii_lowercase(value);
        assert(value[0] == '[');
        assert(l[0] == '[');
        assert(crate::parse::spec_parse_i64(value) is None) by {
            assert(!crate::parse::is_radix_digit(value[0], 10));
        }
        reveal_strlit("true");
        assert(crate::parse::true_text()[0] == 't');
        assert(crate::parse::false_text()[0] == 'f');
        assert(crate::parse::inf_text()[0] == 'i');
        assert(crate::parse::infinity_text()[0] == 'i');
        assert(crate::parse::nan_text()[0] == 'n');
        assert(crate::parse::unsigned_part(value) == value);
        assert(crate::parse::leading_digits(value) == 0);
        assert(value.skip(0) =~= value);
        assert(!crate::parse::spec_is_float(value));
        assert(crate::parse::spec_parse_bool(value) is None);
        assert(t.base_type == crate::config::metadata::BaseTypeV::String);
        lemma_strings_always_read(crate::config::variant::split_commas(value));
    }
}

/// `repeated_appends` appends each value once, in order.
proof fn lemma_repeated_appends_values(section: Seq<char>, name: Seq<char>, values: Seq<ValueV>)
    ensures
        repeated_appends(section, name, values).len() == values.len(),
        forall|k: int| 0 <= k < values.len() ==> #[trigger] repeated_appends(section, name, values)[k]
            == (IniEditV::Append { section, key: name, value: crate::config::variant::value_text(values[k]) }),
    decreases values.len(),
{
    if values.len() > 0 {
        lemma_repeated_appends_values(section, name, values.drop_last());
        let prev = repeated_appends(section, name, values.drop_last());
        assert forall|k: int| 0 <= k < values.len() implies #[trigger] repeated_appends(section, name, values)[k]
            == (IniEditV::Append { section, key: name, value: crate::config::variant::value_text(values[k]) }) by {
            if k < values.len() - 1 {
                assert(repeated_appends(section, name, values)[k] == prev[k]);
                assert(values.drop_last()[k] == values[k]);
            }
        }
    }
}

/// A vector setting whose metadata says its values are written on repeated
/// lines: the old lines of the key are all removed, then one line is
/// appended per value, carrying the values in order, each written as text.
pub proof fn lemma_repeated_vector_writes_each_value(
    section: Seq<char>,
    e: ConfigEntryV,
    values: Seq<ValueV>,
    meta: Seq<MetadataEntryV>,
    i: int,
)
    requires
        e.value == VariantV::Vector(values),
        0 <= i < meta.len(),
        meta[i].name == e.meta_name,
        meta[i].location == e.meta_location,
        forall|j: int| 0 <= j < i ==> !(#[trigger] meta[j].name == e.meta_name && meta[j].location == e.meta_location),
        meta[i].vector_serialization == Some(VectorSerialization::Repeated),
    ensures
        entry_edits(section, e, meta).len() == values.len() + 1,
        entry_edits(section, e, meta)[0] == (IniEditV::RemoveAll { section, key: e.meta_name }),
        forall|k: int| 0 <= k < values.len() ==> #[trigger] entry_edits(section, e, meta)[k + 1]
            == (IniEditV::Append { section, key: e.meta_name, value: crate::config::variant::value_text(values[k]) }),
{
    crate::config::metadata::lemma_first_entry_index(meta, e.meta_name, e.meta_location);
    match crate::config::metadata::first_entry_index(meta, e.meta_name, e.meta_location) {
        Some(f) => {
            if f < i {
                assert(!(meta[f].name == e.meta_name && meta[f].location == e.meta_location));
            }
            if f > i {
                assert(!crate::config::metadata::entry_is(meta[i], e.meta_name, e.meta_location));
            }
        },
        None => {
            assert(!crate::config::metadata::entry_is(meta[i], e.meta_name, e.meta_location));
        },
    }
    lemma_repeated_appends_values(section, e.meta_name, values);
    let edits = entry_edits(section, e, meta);
    let tail = repeated_appends(section, e.meta_name, values);
    assert(edits == seq![IniEditV::RemoveAll { section, key: e.meta_name }] + tail);
    assert forall|k: int| 0 <= k < values.len() implies #[trigger] edits[k + 1]
        == (IniEditV::Append { section, key: e.meta_name, value: crate::config::variant::value_text(values[k]) }) by {
        assert(edits[k + 1] == tail[k]);
    }
}

/// `indexed_sets` sets `Name[k]` to the k-th value, for each k in order.
proof fn lemma_indexed_sets_values(section: Seq<char>, name: Seq<char>, values: Seq<ValueV>)
    ensures
        indexed_sets(section, name, values).len() == values.len(),
        forall|k: int| 0 <= k < values.len() ==> #[trigger] indexed_sets(section, name, values)[k] == (IniEditV::SetValue {
            section,
            key: name + seq!['['] + crate::text::int_text(k) + seq![']'],
            value: crate::config::variant::value_text(values[k]),
        }),
    decreases values.len(),
{
    if values.len() > 0 {
        lemma_indexed_sets_values(section, name, values.drop_last());
        let prev = indexed_sets(section, name, values.drop_last());
        assert forall|k: int| 0 <= k < values.len() implies #[trigger] indexed_sets(section, name, values)[k] == (IniEditV::SetValue {
            section,
            key: name + seq!['['] + crate::text::int_text(k) + seq![']'],
            value: crate::config::variant::value_text(values[k]),
        }) by {
            if k < values.len() - 1 {
                assert(indexed_sets(section, name, values)[k] == prev[k]);
                assert(values.drop_last()[k] == values[k]);
            }
        }
    }
}

/// A vector setting whose metadata says its values are written under
/// indexed keys: the old `Name[..]` keys are removed, then `Name[k]` is set
/// to the k-th value, for each value in order.
pub proof fn lemma_indexed_vector_writes_each_value(
    section: Seq<char>,
    e: ConfigEntryV,
    values: Seq<ValueV>,
    meta: Seq<MetadataEntryV>,
    i: int,
)
    requires
        e.value == VariantV::Vector(values),
        0 <= i < meta.len(),
        meta[i].name == e.meta_name,
        meta[i].location == e.meta_location,
        forall|j: int| 0 <= j < i ==> !(#[trigger] meta[j].name == e.meta_name && meta[j].location == e.meta_location),
        meta[i].vector_serialization == Some(VectorSerialization::Indexed),
    ensures
        entry_edits(section, e, meta).len() == values.len() + 1,
        entry_edits(section, e, meta)[0] == (IniEditV::RemoveKeysWithPrefix { section, prefix: e.meta_name + seq!['['] }),
        forall|k: int| 0 <= k < values.len() ==> #[trigger] entry_edits(section, e, meta)[k + 1] == (IniEditV::SetValue {
            section,
            key: e.meta_name + seq!['['] + crate::text::int_text(k) + seq![']'],
            value: crate::config::variant::value_text(values[k]),
        }),
{
    crate::config::metadata::lemma_first_entry_index(meta, e.meta_name, e.meta_location);
    match crate::config::metadata::first_entry_index(meta, e.meta_name, e.meta_location) {
        Some(f) => {
            if f < i {
                assert(!(meta[f].name == e.meta_name && meta[f].location == e.meta_location));
            }
            if f > i {
                assert(!crate::config::metadata::entry_is(meta[i], e.meta_name, e.meta_location));
            }
        },
        None => {
            assert(!crate::config::metadata::entry_is(meta[i], e.meta_name, e.meta_location));
        },
    }
    lemma_indexed_sets_values(section, e.meta_name, values);
    let edits = entry_edits(section, e, meta);
    let tail = indexed_sets(section, e.meta_name, values);
    assert(edits == seq![IniEditV::RemoveKeysWithPrefix { section, prefix: e.meta_name + seq!['['] }] + tail);
    assert forall|k: int| 0 <= k < values.len() implies #[trigger] edits[k + 1] == (IniEditV::SetValue {
        section,
        key: e.meta_name + seq!['['] + crate::text::int_text(k) + seq![']'],
        value: crate::config::variant::value_text(values[k]),
    }) by {
        assert(edits[k + 1] == tail[k]);
    }
}

} // verus!
