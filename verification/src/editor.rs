//! Edits made in the setting editor: a change to one value of a setting,
//! found by a path of field names and `[index]` segments through structures
//! and vectors.
use vstd::prelude::*;
use crate::config::metadata::{ConfigValueType, ValueTypeV};
use crate::config::variant::{
    ConfigStructFieldVariant, ConfigValue, ConfigVariant, FieldVariantV, ValueV, VariantV, clone_values,
    default_value, field_variant_view, field_variants_view, lemma_field_variants_view, lemma_values_view,
    value_view, values_view, variant_view,
};
use crate::parse::parse_unsigned;
use crate::text::{chars_of, push_char, str_eq};

verus! {

/// Text being typed into a numeric field, with what is wrong with it.
#[derive(Debug)]
pub struct InterimValue {
    pub value: String,
    pub error: Option<String>,
}

/// A change to a vector setting at one index.
#[derive(Debug)]
pub enum VectorChange {
    /// Add a default value of the type at the end.
    Add(ConfigValueType),
    Remove,
    MoveUp,
    MoveDown,
}

/// A change made in the editor. A float is held as its decimal text.
#[derive(Debug)]
pub enum SettingChange {
    BoolValue(bool),
    IntegerValue(i64, InterimValue),
    StringValue(String),
    FloatValue(String, InterimValue),
    EnumValue { enum_name: String, value: String },
    VectorChange(VectorChange),
}

pub enum VectorChangeV {
    Add(ValueTypeV),
    Remove,
    MoveUp,
    MoveDown,
}

/// A change as plain values (the text being typed plays no part in it).
pub enum ChangeV {
    Value(ValueV),
    Vector(VectorChangeV),
}

impl View for SettingChange {
    type V = ChangeV;

    open spec fn view(&self) -> ChangeV {
        match self {
            SettingChange::BoolValue(b) => ChangeV::Value(ValueV::Bool(*b)),
            SettingChange::IntegerValue(n, _) => ChangeV::Value(ValueV::Integer(*n)),
            SettingChange::StringValue(s) => ChangeV::Value(ValueV::String(s@)),
            SettingChange::FloatValue(t, _) => ChangeV::Value(ValueV::Float(t@)),
            SettingChange::EnumValue { enum_name, value } => ChangeV::Value(
                ValueV::Enum { enum_name: enum_name@, value: value@ },
            ),
            SettingChange::VectorChange(vc) => ChangeV::Vector(
                match vc {
                    VectorChange::Add(t) => VectorChangeV::Add(t@),
                    VectorChange::Remove => VectorChangeV::Remove,
                    VectorChange::MoveUp => VectorChangeV::MoveUp,
                    VectorChange::MoveDown => VectorChangeV::MoveDown,
                },
            ),
        }
    }
}

/// The index written in a field name `[i]`; `None` for any other name.
pub open spec fn bracket_index(name: Seq<char>) -> Option<nat> {
    if name.len() >= 2 && name[0] == '[' && name.last() == ']' {
        crate::parse::spec_parse_unsigned(name.subrange(1, name.len() - 1), 10, usize::MAX as nat)
    } else {
        None
    }
}

/// The two values at `a` and `b` exchanged.
pub open spec fn swapped(s: Seq<ValueV>, a: int, b: int) -> Seq<ValueV> {
    s.update(a, s[b]).update(b, s[a])
}

/// A change to the value `existing` of the field named `field`; `None`
/// where the editor would fail (a vector change on a scalar, a vector index
/// that is not `[i]` or is out of range, moving down in an empty vector).
pub open spec fn spec_perform_change(existing: VariantV, field: Seq<char>, c: ChangeV) -> Option<VariantV> {
    match c {
        ChangeV::Vector(vc) => match existing {
            VariantV::Vector(values) => match bracket_index(field) {
                Some(i) => match vc {
                    VectorChangeV::Add(t) => Some(VariantV::Vector(values.push(default_value(t.base_type)))),
                    VectorChangeV::MoveDown => if values.len() > 0 && i == values.len() - 1 {
                        Some(VariantV::Vector(values))
                    } else if i + 1 < values.len() {
                        Some(VariantV::Vector(swapped(values, i as int, i as int + 1)))
                    } else {
                        None
                    },
                    VectorChangeV::MoveUp => if i == 0 {
                        Some(VariantV::Vector(values))
                    } else if i < values.len() {
                        Some(VariantV::Vector(swapped(values, i as int, i as int - 1)))
                    } else {
                        None
                    },
                    VectorChangeV::Remove => if i < values.len() {
                        Some(VariantV::Vector(values.remove(i as int)))
                    } else {
                        None
                    },
                },
                None => None,
            },
            VariantV::Scalar(_) => None,
        },
        ChangeV::Value(x) => match existing {
            VariantV::Vector(values) => match bracket_index(field) {
                Some(i) => if i < values.len() {
                    Some(VariantV::Vector(values.update(i as int, x)))
                } else {
                    None
                },
                None => None,
            },
            VariantV::Scalar(_) => Some(VariantV::Scalar(x)),
        },
    }
}

/// Where the first `/` of the path is; its length when there is none.
pub open spec fn slash_index(path: Seq<char>) -> int
    decreases path.len(),
{
    if path.len() == 0 {
        0
    } else if path[0] == '/' {
        0
    } else {
        1 + slash_index(path.drop_first())
    }
}

pub proof fn lemma_slash_index(path: Seq<char>)
    ensures
        0 <= slash_index(path) <= path.len(),
        slash_index(path) < path.len() ==> path[slash_index(path)] == '/',
        forall|i: int| 0 <= i < slash_index(path) ==> path[i] != '/',
    decreases path.len(),
{
    if path.len() > 0 && path[0] != '/' {
        lemma_slash_index(path.drop_first());
        assert forall|i: int| 0 < i < slash_index(path) implies path[i] != '/' by {
            assert(path[i] == path.drop_first()[i - 1]);
        }
    }
}

/// A change at `path`: the path's first segment (before its first `/`)
/// names the field of a structure, or the `[i]` entry of a vector, in which
/// the rest of the path goes on; the last segment is the field or entry
/// changed. A path without `/` replaces the whole value.
pub open spec fn spec_change_at_path(v: VariantV, path: Seq<char>, c: ChangeV) -> Option<VariantV>
    decreases path.len(), v,
{
    let k = slash_index(path);
    if 0 <= k < path.len() {
        proof {
            lemma_slash_index(path);
        }
        let seg = path.take(k);
        let rem = path.skip(k + 1);
        match v {
            VariantV::Scalar(ValueV::Struct(fs)) => match spec_change_fields(fs, path, c) {
                Some(nfs) => Some(VariantV::Scalar(ValueV::Struct(nfs))),
                None => None,
            },
            VariantV::Vector(values) => if rem.len() == 0 {
                spec_perform_change(v, seg, c)
            } else {
                match bracket_index(seg) {
                    Some(i) => if i < values.len() {
                        match spec_change_at_path(VariantV::Scalar(values[i as int]), rem, c) {
                            Some(VariantV::Scalar(nv)) => Some(VariantV::Vector(values.update(i as int, nv))),
                            Some(VariantV::Vector(_)) => Some(VariantV::Vector(values)),
                            None => None,
                        }
                    } else {
                        None
                    },
                    None => None,
                }
            },
            _ => None,
        }
    } else {
        match c {
            ChangeV::Value(x) => Some(VariantV::Scalar(x)),
            ChangeV::Vector(_) => None,
        }
    }
}

/// The fields of a structure with every field named by the path's first
/// segment changed at the rest of the path.
pub open spec fn spec_change_fields(fs: Seq<FieldVariantV>, path: Seq<char>, c: ChangeV) -> Option<Seq<FieldVariantV>>
    decreases path.len(), fs,
{
    if fs.len() == 0 {
        Some(seq![])
    } else {
        match spec_change_fields(fs.drop_last(), path, c) {
            None => None,
            Some(prev) => {
                let f = fs.last();
                let k = slash_index(path);
                if 0 <= k < path.len() && f.name == path.take(k) {
                    proof {
                        lemma_slash_index(path);
                    }
                    let rem = path.skip(k + 1);
                    let nv = if rem.len() == 0 {
                        spec_perform_change(f.value, f.name, c)
                    } else {
                        spec_change_at_path(f.value, rem, c)
                    };
                    match nv {
                        Some(x) => Some(prev.push(FieldVariantV { name: f.name, value: x })),
                        None => None,
                    }
                } else {
                    Some(prev.push(f))
                }
            },
        }
    }
}

impl SettingChange {
    /// The value a change other than a vector change sets.
    pub fn to_value(&self) -> (r: ConfigValue)
        requires
            self@ is Value,
        ensures
            ChangeV::Value(r@) == self@,
    {
        match self {
            SettingChange::BoolValue(b) => ConfigValue::Bool(*b),
            SettingChange::IntegerValue(n, _) => ConfigValue::Integer(*n),
            SettingChange::StringValue(s) => ConfigValue::String(s.clone()),
            SettingChange::FloatValue(t, _) => ConfigValue::Float(t.clone()),
            SettingChange::EnumValue { enum_name, value } => ConfigValue::Enum {
                enum_name: enum_name.clone(),
                value: value.clone(),
            },
            SettingChange::VectorChange(_) => {
                assert(false);
                ConfigValue::Bool(false)
            },
        }
    }
}

/// The index written in a field name `[i]`.
pub fn bracket_index_exec(name: &str) -> (r: Option<usize>)
    ensures
        match bracket_index(name@) {
            Some(i) => r == Some(i as usize),
            None => r is None,
        },
{
    let cs = chars_of(name);
    let n = cs.len();
    if n >= 2 && cs[0] == '[' && cs[n - 1] == ']' {
        let mut inner = String::new();
        let mut i: usize = 1;
        while i < n - 1
            invariant
                1 <= i <= n - 1,
                n == cs@.len(),
                inner@ == cs@.subrange(1, i as int),
            decreases n - 1 - i,
        {
            push_char(&mut inner, cs[i]);
            i = i + 1;
            assert(inner@ =~= cs@.subrange(1, i as int));
        }
        assert(cs@ == name@);
        match parse_unsigned(inner.as_str(), 10, usize::MAX as u64) {
            Some(v) => Some(v as usize),
            None => None,
        }
    } else {
        None
    }
}

/// Applies a change to the value of the field named `field_name`.
pub fn perform_change(existing_value: &ConfigVariant, field_name: &str, change: &SettingChange) -> (r: ConfigVariant)
    requires
        spec_perform_change(existing_value@, field_name@, change@) is Some,
    ensures
        Some(r@) == spec_perform_change(existing_value@, field_name@, change@),
{
    match change {
        SettingChange::VectorChange(vc) => {
            match existing_value {
                ConfigVariant::Vector(values) => {
                    let index = bracket_index_exec(field_name).unwrap();
                    let mut values = clone_values(values);
                    let ghost vs = values_view(values@);
                    proof {
                        lemma_values_view(values@);
                    }
                    match vc {
                        VectorChange::Add(value_type) => {
                            let ghost before = values@;
                            values.push(ConfigValue::default_from_type(value_type));
                            assert(values@.drop_last() =~= before);
                            assert(values_view(values@) =~= vs.push(default_value(value_type@.base_type)));
                        },
                        VectorChange::MoveDown => {
                            if index != values.len() - 1 {
                                let a = values[index].deep_clone();
                                let b = values[index + 1].deep_clone();
                                values.set(index, b);
                                values.set(index + 1, a);
                                proof {
                                    lemma_values_view(values@);
                                }
                                assert(values_view(values@) =~= swapped(vs, index as int, index + 1));
                            }
                        },
                        VectorChange::MoveUp => {
                            if index != 0 {
                                let a = values[index].deep_clone();
                                let b = values[index - 1].deep_clone();
                                values.set(index, b);
                                values.set(index - 1, a);
                                proof {
                                    lemma_values_view(values@);
                                }
                                assert(values_view(values@) =~= swapped(vs, index as int, index - 1));
                            }
                        },
                        VectorChange::Remove => {
                            let ghost before = values@;
                            let _ = values.remove(index);
                            proof {
                                lemma_values_view(values@);
                                lemma_values_view(before);
                            }
                            assert(values_view(values@) =~= vs.remove(index as int));
                        },
                    }
                    ConfigVariant::Vector(values)
                },
                ConfigVariant::Scalar(_) => {
                    assert(false);
                    existing_value.deep_clone()
                },
            }
        },
        _ => {
            match existing_value {
                ConfigVariant::Vector(values) => {
                    let index = bracket_index_exec(field_name).unwrap();
                    let mut values = clone_values(values);
                    let ghost vs = values_view(values@);
                    proof {
                        lemma_values_view(values@);
                    }
                    let x = change.to_value();
                    values.set(index, x);
                    proof {
                        lemma_values_view(values@);
                    }
                    assert(values_view(values@) =~= vs.update(index as int, x@));
                    ConfigVariant::Vector(values)
                },
                ConfigVariant::Scalar(_) => ConfigVariant::Scalar(change.to_value()),
            }
        },
    }
}

pub proof fn lemma_change_fields_prefix(fs: Seq<FieldVariantV>, path: Seq<char>, c: ChangeV, j: int)
    requires
        0 <= j <= fs.len(),
        spec_change_fields(fs, path, c) is Some,
    ensures
        spec_change_fields(fs.take(j), path, c) is Some,
    decreases fs.len(),
{
    if j == fs.len() {
        assert(fs.take(j) =~= fs);
    } else {
        lemma_change_fields_prefix(fs.drop_last(), path, c, j);
        assert(fs.drop_last().take(j) =~= fs.take(j));
    }
}

/// The characters `cs[a..b]` as a `String`.
fn chars_between(cs: &Vec<char>, a: usize, b: usize) -> (r: String)
    requires
        a <= b <= cs@.len(),
    ensures
        r@ == cs@.subrange(a as int, b as int),
{
    let mut s = String::new();
    let mut i = a;
    while i < b
        invariant
            a <= i <= b,
            b <= cs@.len(),
            s@ == cs@.subrange(a as int, i as int),
        decreases b - i,
    {
        push_char(&mut s, cs[i]);
        i = i + 1;
        assert(s@ =~= cs@.subrange(a as int, i as int));
    }
    s
}

/// Applies a change at `path` (see `spec_change_at_path`).
pub fn perform_change_at_path(value: &ConfigVariant, path: &str, change: &SettingChange) -> (r: ConfigVariant)
    requires
        spec_change_at_path(value@, path@, change@) is Some,
    ensures
        Some(r@) == spec_change_at_path(value@, path@, change@),
    decreases path@.len(),
{
    let cs = chars_of(path);
    let mut k: usize = 0;
    while k < cs.len() && cs[k] != '/'
        invariant
            k <= cs@.len(),
            cs@ == path@,
            forall|i: int| 0 <= i < k ==> cs@[i] != '/',
        decreases cs@.len() - k,
    {
        k = k + 1;
    }
    proof {
        lemma_slash_index(path@);
    }
    assert(slash_index(path@) == k);
    if k < cs.len() {
        let seg = chars_between(&cs, 0, k);
        let rem = chars_between(&cs, k + 1, cs.len());
        assert(seg@ =~= path@.take(k as int));
        assert(rem@ =~= path@.skip(k + 1));
        match value {
            ConfigVariant::Scalar(ConfigValue::Struct(fields)) => {
                let ghost fsv = field_variants_view(fields@);
                proof {
                    lemma_field_variants_view(fields@);
                }
                let mut copied: Vec<ConfigStructFieldVariant> = Vec::new();
                let mut j: usize = 0;
                while j < fields.len()
                    invariant
                        j <= fields@.len(),
                        fsv == field_variants_view(fields@),
                        fsv.len() == fields@.len(),
                        forall|i: int| 0 <= i < fields@.len() ==> #[trigger] fsv[i] == field_variant_view(fields@[i]),
                        spec_change_fields(fsv, path@, change@) is Some,
                        slash_index(path@) == k,
                        k < path@.len(),
                        seg@ == path@.take(k as int),
                        rem@ == path@.skip(k + 1),
                        rem@.len() < path@.len(),
                        cs@ == path@,
                        spec_change_fields(fsv.take(j as int), path@, change@) == Some(field_variants_view(copied@)),
                    decreases fields@.len() - j,
                {
                    proof {
                        lemma_change_fields_prefix(fsv, path@, change@, j + 1);
                    }
                    let f = &fields[j];
                    assert(fsv.take(j + 1).drop_last() =~= fsv.take(j as int));
                    assert(fsv.take(j + 1).last() == field_variant_view(*f));
                    let ghost before = copied@;
                    if str_eq(f.name.as_str(), seg.as_str()) {
                        let nv = if k + 1 == cs.len() {
                            perform_change(&f.value, f.name.as_str(), change)
                        } else {
                            perform_change_at_path(&f.value, rem.as_str(), change)
                        };
                        let name = f.name.clone();
                        assert(name@ == f.name@);
                        let ghost fv = FieldVariantV { name: f.name@, value: nv@ };
                        copied.push(ConfigStructFieldVariant { name, value: nv });
                        assert(copied@.drop_last() =~= before);
                        assert(copied@.last().name@ == f.name@);
                        assert(variant_view(copied@.last().value) == nv@);
                        assert(field_variant_view(copied@.last()) == fv);
                        assert(field_variants_view(copied@) == field_variants_view(before).push(fv));
                        assert(spec_change_fields(fsv.take(j + 1), path@, change@) == Some(
                            field_variants_view(before).push(fv),
                        ));
                    } else {
                        copied.push(f.deep_clone());
                        assert(copied@.drop_last() =~= before);
                    }
                    j = j + 1;
                }
                assert(fsv.take(fields@.len() as int) =~= fsv);
                ConfigVariant::Scalar(ConfigValue::Struct(copied))
            },
            ConfigVariant::Vector(values) => {
                if k + 1 == cs.len() {
                    perform_change(value, seg.as_str(), change)
                } else {
                    let index = bracket_index_exec(seg.as_str()).unwrap();
                    let mut values = clone_values(values);
                    let ghost vs = values_view(values@);
                    proof {
                        lemma_values_view(values@);
                    }
                    let item = ConfigVariant::Scalar(values[index].deep_clone());
                    let changed = perform_change_at_path(&item, rem.as_str(), change);
                    match changed {
                        ConfigVariant::Scalar(nv) => {
                            values.set(index, nv);
                            proof {
                                lemma_values_view(values@);
                            }
                            assert(values_view(values@) =~= vs.update(index as int, nv@));
                        },
                        ConfigVariant::Vector(_) => {},
                    }
                    ConfigVariant::Vector(values)
                }
            },
            _ => {
                assert(false);
                value.deep_clone()
            },
        }
    } else {
        ConfigVariant::Scalar(change.to_value())
    }
}

/// Moving the entry at `[i]` down and then the entry at `[i+1]` up gives the
/// vector back unchanged.
pub proof fn lemma_move_down_then_up(values: Seq<ValueV>, down_field: Seq<char>, up_field: Seq<char>, i: nat)
    requires
        i + 1 < values.len(),
        bracket_index(down_field) == Some(i),
        bracket_index(up_field) == Some(i + 1),
    ensures
        ({
            let moved = spec_perform_change(VariantV::Vector(values), down_field, ChangeV::Vector(VectorChangeV::MoveDown));
            &&& moved is Some
            &&& spec_perform_change(moved->0, up_field, ChangeV::Vector(VectorChangeV::MoveUp)) == Some(
                VariantV::Vector(values),
            )
        }),
{
    let once = swapped(values, i as int, i as int + 1);
    assert(swapped(once, i as int + 1, i as int) =~= values);
}

/// Adding an entry and then removing the entry at the old length gives the
/// vector back unchanged.
pub proof fn lemma_add_then_remove(values: Seq<ValueV>, field: Seq<char>, t: ValueTypeV, last_field: Seq<char>)
    requires
        bracket_index(field) is Some,
        bracket_index(last_field) == Some(values.len()),
    ensures
        ({
            let added = spec_perform_change(VariantV::Vector(values), field, ChangeV::Vector(VectorChangeV::Add(t)));
            &&& added is Some
            &&& spec_perform_change(added->0, last_field, ChangeV::Vector(VectorChangeV::Remove)) == Some(
                VariantV::Vector(values),
            )
        }),
{
    let added = values.push(default_value(t.base_type));
    assert(added.remove(values.len() as int) =~= values);
}

/// A message from the editor: a change at a path (`None` for the whole
/// value).
#[derive(Debug)]
pub enum SettingEditorMessage {
    Edit(Option<String>, SettingChange),
}

/// The text being typed and its error, as plain values.
pub open spec fn interim_view(v: InterimValue) -> (Seq<char>, Option<Seq<char>>) {
    (
        v.value@,
        match v.error {
            Some(e) => Some(e@),
            None => None,
        },
    )
}

/// The text being typed at each path, the later of two entries for a path
/// winning.
pub open spec fn interim_map(s: Seq<(String, InterimValue)>) -> Map<Seq<char>, (Seq<char>, Option<Seq<char>>)>
    decreases s.len(),
{
    if s.len() == 0 {
        Map::empty()
    } else {
        interim_map(s.drop_last()).insert(s.last().0@, interim_view(s.last().1))
    }
}

pub open spec fn unique_paths(s: Seq<(String, InterimValue)>) -> bool {
    forall|i: int, j: int| 0 <= i < j < s.len() ==> s[i].0@ != s[j].0@
}

proof fn lemma_interim_map_update(s: Seq<(String, InterimValue)>, k: int, v: (String, InterimValue))
    requires
        unique_paths(s),
        0 <= k < s.len(),
        v.0@ == s[k].0@,
    ensures
        interim_map(s.update(k, v)) == interim_map(s).insert(v.0@, interim_view(v.1)),
    decreases s.len(),
{
    let t = s.update(k, v);
    if k == s.len() - 1 {
        assert(t.drop_last() =~= s.drop_last());
        assert(interim_map(t) =~= interim_map(s).insert(v.0@, interim_view(v.1)));
    } else {
        assert(t.drop_last() =~= s.drop_last().update(k, v));
        lemma_interim_map_update(s.drop_last(), k, v);
        assert(s.last().0@ != v.0@);
        assert(interim_map(t) =~= interim_map(s).insert(v.0@, interim_view(v.1)));
    }
}

proof fn lemma_interim_map_lookup(s: Seq<(String, InterimValue)>, k: int)
    requires
        unique_paths(s),
        0 <= k < s.len(),
    ensures
        interim_map(s).contains_key(s[k].0@),
        interim_map(s)[s[k].0@] == interim_view(s[k].1),
    decreases s.len(),
{
    if k < s.len() - 1 {
        lemma_interim_map_lookup(s.drop_last(), k);
    }
}

proof fn lemma_interim_map_absent(s: Seq<(String, InterimValue)>, p: Seq<char>)
    requires
        forall|i: int| 0 <= i < s.len() ==> (#[trigger] s[i]).0@ != p,
    ensures
        !interim_map(s).contains_key(p),
    decreases s.len(),
{
    if s.len() > 0 {
        lemma_interim_map_absent(s.drop_last(), p);
    }
}

/// The editor of one setting: its type, its value, and the text being
/// typed into its numeric fields, by path.
pub struct SettingEditor {
    value_type: ConfigValueType,
    value: ConfigVariant,
    interim_values: Vec<(String, InterimValue)>,
}

impl SettingEditor {
    #[verifier::type_invariant]
    spec fn paths_unique(self) -> bool {
        unique_paths(self.interim_values@)
    }

    pub closed spec fn value_view(self) -> VariantV {
        self.value@
    }

    pub closed spec fn value_type_view(self) -> ValueTypeV {
        self.value_type@
    }

    pub closed spec fn interim_values_view(self) -> Map<Seq<char>, (Seq<char>, Option<Seq<char>>)> {
        interim_map(self.interim_values@)
    }

    /// An editor of a setting of type `value_type` holding `value`, with
    /// nothing being typed.
    pub fn new(value_type: ConfigValueType, value: ConfigVariant) -> (r: SettingEditor)
        ensures
            r.value_view() == value@,
            r.value_type_view() == value_type@,
            r.interim_values_view() == Map::<Seq<char>, (Seq<char>, Option<Seq<char>>)>::empty(),
    {
        SettingEditor { value_type, value, interim_values: Vec::new() }
    }

    /// The value being edited.
    pub fn value(&self) -> (r: &ConfigVariant)
        ensures
            r@ == self.value_view(),
    {
        &self.value
    }

    /// The text being typed at `path`, if any.
    pub fn interim_value(&self, path: &str) -> (r: Option<&InterimValue>)
        ensures
            match r {
                Some(v) => self.interim_values_view().contains_key(path@) && self.interim_values_view()[path@]
                    == interim_view(*v),
                None => !self.interim_values_view().contains_key(path@),
            },
    {
        proof {
            use_type_invariant(self);
        }
        let mut i: usize = 0;
        while i < self.interim_values.len()
            invariant
                i <= self.interim_values@.len(),
                unique_paths(self.interim_values@),
                forall|j: int| 0 <= j < i ==> (#[trigger] self.interim_values@[j]).0@ != path@,
            decreases self.interim_values@.len() - i,
        {
            if str_eq(self.interim_values[i].0.as_str(), path) {
                proof {
                    lemma_interim_map_lookup(self.interim_values@, i as int);
                }
                return Some(&self.interim_values[i].1);
            }
            i = i + 1;
        }
        proof {
            lemma_interim_map_absent(self.interim_values@, path@);
        }
        None
    }

    /// Records the text being typed at `path`.
    fn set_interim(&mut self, path: String, interim: InterimValue)
        ensures
            final(self).interim_values_view() == old(self).interim_values_view().insert(path@, interim_view(interim)),
            final(self).value_view() == old(self).value_view(),
            final(self).value_type_view() == old(self).value_type_view(),
    {
        proof {
            use_type_invariant(&*self);
        }
        let ghost s = self.interim_values@;
        let mut i: usize = 0;
        while i < self.interim_values.len()
            invariant
                i <= s.len(),
                s == self.interim_values@,
                *self == *old(self),
                unique_paths(s),
                forall|j: int| 0 <= j < i ==> (#[trigger] s[j]).0@ != path@,
            decreases s.len() - i,
        {
            if str_eq(self.interim_values[i].0.as_str(), path.as_str()) {
                let ghost entry = (path, interim);
                proof {
                    lemma_interim_map_update(s, i as int, entry);
                }
                let mut values = Vec::new();
                std::mem::swap(&mut values, &mut self.interim_values);
                values.set(i, (path, interim));
                assert(values@ == s.update(i as int, entry));
                assert forall|a: int, b: int| 0 <= a < b < values@.len() implies values@[a].0@ != values@[b].0@ by {
                    if a != i && b != i {
                        assert(values@[a] == s[a] && values@[b] == s[b]);
                    } else if a == i {
                        assert(values@[b] == s[b]);
                    } else {
                        assert(values@[a] == s[a]);
                    }
                }
                self.interim_values = values;
                return;
            }
            i = i + 1;
        }
        let ghost entry = (path, interim);
        let mut values = Vec::new();
        std::mem::swap(&mut values, &mut self.interim_values);
        values.push((path, interim));
        assert(values@.drop_last() =~= s);
        assert forall|a: int, b: int| 0 <= a < b < values@.len() implies values@[a].0@ != values@[b].0@ by {
            if b == s.len() {
                assert(values@[a] == s[a]);
            } else {
                assert(values@[a] == s[a] && values@[b] == s[b]);
            }
        }
        self.interim_values = values;
    }

    /// Applies an edit: the text typed into a numeric field is kept by its
    /// path, and the value changes at the path (see `spec_change_at_path`).
    pub fn update(&mut self, message: SettingEditorMessage)
        requires
            match message {
                SettingEditorMessage::Edit(path, change) => spec_change_at_path(
                    old(self).value_view(),
                    match path {
                        Some(p) => p@,
                        None => Seq::<char>::empty(),
                    },
                    change@,
                ) is Some,
            },
        ensures
            match message {
                SettingEditorMessage::Edit(path, change) => {
                    let p = match path {
                        Some(p) => p@,
                        None => Seq::<char>::empty(),
                    };
                    &&& Some(final(self).value_view()) == spec_change_at_path(old(self).value_view(), p, change@)
                    &&& final(self).interim_values_view() == match change {
                        SettingChange::FloatValue(_, iv) => old(self).interim_values_view().insert(p, interim_view(iv)),
                        SettingChange::IntegerValue(_, iv) => old(self).interim_values_view().insert(p, interim_view(iv)),
                        _ => old(self).interim_values_view(),
                    }
                },
            },
            final(self).value_type_view() == old(self).value_type_view(),
    {
        match message {
            SettingEditorMessage::Edit(path, change) => {
                let path = match path {
                    Some(p) => p,
                    None => String::new(),
                };
                let change = match change {
                    SettingChange::FloatValue(f, iv) => {
                        let copy = InterimValue { value: iv.value.clone(), error: iv.error.clone() };
                        self.set_interim(path.clone(), iv);
                        SettingChange::FloatValue(f, copy)
                    },
                    SettingChange::IntegerValue(n, iv) => {
                        let copy = InterimValue { value: iv.value.clone(), error: iv.error.clone() };
                        self.set_interim(path.clone(), iv);
                        SettingChange::IntegerValue(n, copy)
                    },
                    other => other,
                };
                let new_value = perform_change_at_path(&self.value, path.as_str(), &change);
                proof {
                    use_type_invariant(&*self);
                }
                self.value = new_value;
            },
        }
    }
}

} // verus!
