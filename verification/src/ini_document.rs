//! Applying the planned edits to an INI document held by `rust-ini`.
//!
//! The document is seen through the values each key holds: for a section
//! name (`None` for the general section) and a key, the values of that key in
//! the first section of that name, in order. Every change `rust-ini` makes
//! through the calls below goes to that first section.
use vstd::prelude::*;
use crate::config::metadata::IniFile;
use crate::ini_plan::{IniEdit, IniEditV, IniFileEdit, edits_view};
use crate::config::metadata::IniFileV;
use crate::text::chars_of;
use ::ini::Ini;

verus! {

#[verifier::external_type_specification]
#[verifier::external_body]
pub struct ExIni(::ini::Ini);

/// The values of every key of every section of the document.
pub uninterp spec fn ini_values(ini: Ini) -> Map<(Option<Seq<char>>, Seq<char>), Seq<Seq<char>>>;

/// The values of `key` in the first section named `section`; none when
/// there is no such key or section.
pub open spec fn values_at(m: Map<(Option<Seq<char>>, Seq<char>), Seq<Seq<char>>>, section: Option<Seq<char>>, key: Seq<char>) -> Seq<Seq<char>> {
    if m.contains_key((section, key)) {
        m[(section, key)]
    } else {
        seq![]
    }
}

/// `rust-ini`'s `Ini::new`: a document with an empty general section and no
/// values.
#[verifier::external_body]
pub fn ini_new() -> (r: Ini)
    ensures
        forall|s: Option<Seq<char>>, k: Seq<char>| values_at(ini_values(r), s, k) == Seq::<Seq<char>>::empty(),
{
    Ini::new()
}

/// `rust-ini`'s `Ini::set_to`: `key` of `section` (made when missing) holds
/// exactly `value` afterwards; nothing else changes.
#[verifier::external_body]
fn ini_set_to(ini: &mut Ini, section: &str, key: &str, value: &str)
    ensures
        values_at(ini_values(*final(ini)), Some(section@), key@) == seq![value@],
        forall|s: Option<Seq<char>>, k: Seq<char>|
            (s, k) != (Some(section@), key@) ==> values_at(ini_values(*final(ini)), s, k) == values_at(
                ini_values(*old(ini)),
                s,
                k,
            ),
{
    ini.set_to(Some(section.to_string()), key.to_string(), value.to_string());
}

/// `rust-ini`'s `Ini::delete_from`: every value of `key` in `section` is
/// removed (the underlying multimap's `remove` drops them all) and the first
/// one is returned; nothing else changes.
#[verifier::external_body]
fn ini_delete_from(ini: &mut Ini, section: &str, key: &str) -> (r: Option<String>)
    ensures
        values_at(ini_values(*final(ini)), Some(section@), key@) == Seq::<Seq<char>>::empty(),
        forall|s: Option<Seq<char>>, k: Seq<char>|
            (s, k) != (Some(section@), key@) ==> values_at(ini_values(*final(ini)), s, k) == values_at(
                ini_values(*old(ini)),
                s,
                k,
            ),
        match r {
            Some(v) => values_at(ini_values(*old(ini)), Some(section@), key@).len() > 0 && v@ == values_at(
                ini_values(*old(ini)),
                Some(section@),
                key@,
            )[0],
            None => values_at(ini_values(*old(ini)), Some(section@), key@).len() == 0,
        },
{
    ini.delete_from(Some(section.to_string()), key)
}

/// `rust-ini`'s `Ini::entry(..).or_insert_with(..)` followed by the keys of
/// `Properties::iter`: the section is made when missing, and the keys that
/// hold a value in it are listed (a key once per value). No value changes.
#[verifier::external_body]
fn ini_section_keys(ini: &mut Ini, section: &str) -> (r: Vec<String>)
    ensures
        forall|s: Option<Seq<char>>, k: Seq<char>| values_at(ini_values(*final(ini)), s, k) == values_at(ini_values(*old(ini)), s, k),
        forall|k: Seq<char>|
            values_at(ini_values(*old(ini)), Some(section@), k).len() > 0 <==> exists|i: int|
                0 <= i < r@.len() && (#[trigger] r@[i])@ == k,
{
    ini.entry(Some(section.to_string())).or_insert_with(Default::default).iter().map(|(k, _)| k.to_string()).collect()
}

/// `rust-ini`'s `Properties::append` on the section made when missing: one
/// more value of `key` at its end; nothing else changes.
#[verifier::external_body]
fn ini_append(ini: &mut Ini, section: &str, key: &str, value: &str)
    ensures
        values_at(ini_values(*final(ini)), Some(section@), key@) == values_at(ini_values(*old(ini)), Some(section@), key@).push(value@),
        forall|s: Option<Seq<char>>, k: Seq<char>|
            (s, k) != (Some(section@), key@) ==> values_at(ini_values(*final(ini)), s, k) == values_at(
                ini_values(*old(ini)),
                s,
                k,
            ),
{
    ini.entry(Some(section.to_string())).or_insert_with(Default::default).append(key, value);
}

/// What one edit does to the values of `key` in section `section`.
pub open spec fn edit_effect(vals: Seq<Seq<char>>, section: Option<Seq<char>>, key: Seq<char>, e: IniEditV) -> Seq<Seq<char>> {
    match e {
        IniEditV::Delete { section: s, key: k } => if section == Some(s) && key == k { seq![] } else { vals },
        IniEditV::SetValue { section: s, key: k, value: v } => if section == Some(s) && key == k {
            seq![v]
        } else {
            vals
        },
        IniEditV::RemoveKeysWithPrefix { section: s, prefix: p } => if section == Some(s) && p.is_prefix_of(key) {
            seq![]
        } else {
            vals
        },
        IniEditV::RemoveAll { section: s, key: k } => if section == Some(s) && key == k { seq![] } else { vals },
        IniEditV::Append { section: s, key: k, value: v } => if section == Some(s) && key == k {
            vals.push(v)
        } else {
            vals
        },
    }
}

/// What the edits of file `file`, in order, do to the values of `key` in
/// section `section`; the edits of other files are passed over.
pub open spec fn edits_effect(
    vals: Seq<Seq<char>>,
    section: Option<Seq<char>>,
    key: Seq<char>,
    file: IniFileV,
    edits: Seq<(IniFileV, IniEditV)>,
) -> Seq<Seq<char>>
    decreases edits.len(),
{
    if edits.len() == 0 {
        vals
    } else {
        let before = edits_effect(vals, section, key, file, edits.drop_last());
        if edits.last().0 == file {
            edit_effect(before, section, key, edits.last().1)
        } else {
            before
        }
    }
}

/// `p` is a prefix of `s`.
pub fn starts_with(s: &str, p: &str) -> (r: bool)
    ensures
        r == p@.is_prefix_of(s@),
{
    let cs = chars_of(s);
    let cp = chars_of(p);
    if cp.len() > cs.len() {
        return false;
    }
    let mut i: usize = 0;
    while i < cp.len()
        invariant
            i <= cp@.len() <= cs@.len(),
            cs@ == s@,
            cp@ == p@,
            cp@.take(i as int) =~= cs@.subrange(0, i as int),
        decreases cp@.len() - i,
    {
        if cp[i] != cs[i] {
            assert(cp@[i as int] != cs@.subrange(0, cp@.len() as int)[i as int]);
            return false;
        }
        i = i + 1;
    }
    assert(cp@ =~= cp@.take(cp@.len() as int));
    true
}

/// Applies one edit to the document.
pub fn apply_ini_edit(ini: &mut Ini, edit: &IniEdit)
    ensures
        forall|s: Option<Seq<char>>, k: Seq<char>|
            values_at(ini_values(*final(ini)), s, k) == edit_effect(values_at(ini_values(*old(ini)), s, k), s, k, edit@),
{
    match edit {
        IniEdit::Delete { section, key } => {
            let _ = ini_delete_from(ini, section.as_str(), key.as_str());
        },
        IniEdit::SetValue { section, key, value } => {
            ini_set_to(ini, section.as_str(), key.as_str(), value.as_str());
        },
        IniEdit::RemoveKeysWithPrefix { section, prefix } => {
            let ghost start = ini_values(*ini);
            let keys = ini_section_keys(ini, section.as_str());
            let mut i: usize = 0;
            while i < keys.len()
                invariant
                    i <= keys@.len(),
                    forall|k: Seq<char>|
                        values_at(start, Some(section@), k).len() > 0 <==> exists|j: int|
                            0 <= j < keys@.len() && (#[trigger] keys@[j])@ == k,
                    forall|s: Option<Seq<char>>, k: Seq<char>|
                        values_at(ini_values(*ini), s, k) == if s == Some(section@) && prefix@.is_prefix_of(k)
                            && exists|j: int| 0 <= j < i && (#[trigger] keys@[j])@ == k {
                            Seq::<Seq<char>>::empty()
                        } else {
                            values_at(start, s, k)
                        },
                decreases keys@.len() - i,
            {
                if starts_with(keys[i].as_str(), prefix.as_str()) {
                    let _ = ini_delete_from(ini, section.as_str(), keys[i].as_str());
                }
                i = i + 1;
            }
        },
        IniEdit::RemoveAll { section, key } => {
            let _ = ini_section_keys(ini, section.as_str());
            let _ = ini_delete_from(ini, section.as_str(), key.as_str());
        },
        IniEdit::Append { section, key, value } => {
            ini_append(ini, section.as_str(), key.as_str(), value.as_str());
        },
    }
}

/// Applies, in order, the edits of `edits` that belong to `file`.
pub fn apply_ini_edits(ini: &mut Ini, file: &IniFile, edits: &Vec<IniFileEdit>)
    ensures
        forall|s: Option<Seq<char>>, k: Seq<char>|
            values_at(ini_values(*final(ini)), s, k) == edits_effect(
                values_at(ini_values(*old(ini)), s, k),
                s,
                k,
                file@,
                edits_view(edits@),
            ),
{
    let ghost start = ini_values(*ini);
    let ghost ev = edits_view(edits@);
    let mut i: usize = 0;
    while i < edits.len()
        invariant
            i <= edits@.len(),
            ev == edits_view(edits@),
            forall|s: Option<Seq<char>>, k: Seq<char>|
                values_at(ini_values(*ini), s, k) == edits_effect(values_at(start, s, k), s, k, file@, ev.take(i as int)),
        decreases edits@.len() - i,
    {
        assert(ev.take(i + 1).drop_last() =~= ev.take(i as int));
        assert(ev.take(i + 1).last() == edits@[i as int]@);
        if edits[i].file.equals(file) {
            apply_ini_edit(ini, &edits[i].edit);
        }
        i = i + 1;
    }
    assert(ev.take(edits@.len() as int) =~= ev);
}

} // verus!
