//! Setting values: scalars, vectors and structures, how they are written as
//! text, read from text, and what type they have.
use vstd::prelude::*;
use crate::config::metadata::{BaseTypeV, ConfigQuantity, ConfigStructFieldType, ConfigValueBaseType, ConfigValueType, FieldTypeV, ValueTypeV};
use crate::parse::{is_float, parse_bool, parse_i64};
use crate::text::{concat, i64_to_string, owned, push_char, split_on_exec};

verus! {

/// Why a text could not be read as a value of a type.
#[derive(Clone, Copy, Debug, PartialEq, Eq, Structural)]
pub enum ConfigError {
    InvalidBool,
    InvalidInteger,
    InvalidFloat,
    /// Reading enumeration values from text is not supported.
    EnumNotSupported,
    /// Reading structured values from text is not supported.
    StructNotSupported,
}

/// One named field of a structured value.
#[derive(Debug)]
pub struct ConfigStructFieldVariant {
    pub name: String,
    pub value: ConfigVariant,
}

/// A single value. A float is held as the decimal text it was read from.
#[derive(Debug)]
pub enum ConfigValue {
    Bool(bool),
    Float(String),
    Integer(i64),
    String(String),
    Enum { enum_name: String, value: String },
    Struct(Vec<ConfigStructFieldVariant>),
}

/// The value of a setting: one value or a list of them.
#[derive(Debug)]
pub enum ConfigVariant {
    Scalar(ConfigValue),
    Vector(Vec<ConfigValue>),
}

/// A field of a structured value, as plain values.
pub struct FieldVariantV {
    pub name: Seq<char>,
    pub value: VariantV,
}

/// A value as plain values.
pub enum ValueV {
    Bool(bool),
    Float(Seq<char>),
    Integer(i64),
    String(Seq<char>),
    Enum { enum_name: Seq<char>, value: Seq<char> },
    Struct(Seq<FieldVariantV>),
}

/// A setting's value as plain values.
pub enum VariantV {
    Scalar(ValueV),
    Vector(Seq<ValueV>),
}

pub open spec fn value_view(v: ConfigValue) -> ValueV
    decreases v,
{
    match v {
        ConfigValue::Bool(b) => ValueV::Bool(b),
        ConfigValue::Float(t) => ValueV::Float(t@),
        ConfigValue::Integer(n) => ValueV::Integer(n),
        ConfigValue::String(s) => ValueV::String(s@),
        ConfigValue::Enum { enum_name, value } => ValueV::Enum { enum_name: enum_name@, value: value@ },
        ConfigValue::Struct(fields) => ValueV::Struct(field_variants_view(fields@)),
    }
}

pub open spec fn field_variant_view(f: ConfigStructFieldVariant) -> FieldVariantV
    decreases f,
{
    FieldVariantV { name: f.name@, value: variant_view(f.value) }
}

pub open spec fn field_variants_view(fs: Seq<ConfigStructFieldVariant>) -> Seq<FieldVariantV>
    decreases fs,
{
    if fs.len() == 0 {
        seq![]
    } else {
        field_variants_view(fs.drop_last()).push(field_variant_view(fs.last()))
    }
}

pub open spec fn variant_view(v: ConfigVariant) -> VariantV
    decreases v,
{
    match v {
        ConfigVariant::Scalar(x) => VariantV::Scalar(value_view(x)),
        ConfigVariant::Vector(xs) => VariantV::Vector(values_view(xs@)),
    }
}

pub open spec fn values_view(vs: Seq<ConfigValue>) -> Seq<ValueV>
    decreases vs,
{
    if vs.len() == 0 {
        seq![]
    } else {
        values_view(vs.drop_last()).push(value_view(vs.last()))
    }
}

pub proof fn lemma_field_variants_view(fs: Seq<ConfigStructFieldVariant>)
    ensures
        field_variants_view(fs).len() == fs.len(),
        forall|i: int| 0 <= i < fs.len() ==> #[trigger] field_variants_view(fs)[i] == field_variant_view(fs[i]),
    decreases fs.len(),
{
    if fs.len() > 0 {
        lemma_field_variants_view(fs.drop_last());
    }
}

pub proof fn lemma_values_view(vs: Seq<ConfigValue>)
    ensures
        values_view(vs).len() == vs.len(),
        forall|i: int| 0 <= i < vs.len() ==> #[trigger] values_view(vs)[i] == value_view(vs[i]),
    decreases vs.len(),
{
    if vs.len() > 0 {
        lemma_values_view(vs.drop_last());
    }
}

impl View for ConfigValue {
    type V = ValueV;

    open spec fn view(&self) -> ValueV {
        value_view(*self)
    }
}

impl View for ConfigVariant {
    type V = VariantV;

    open spec fn view(&self) -> VariantV {
        variant_view(*self)
    }
}

impl View for ConfigStructFieldVariant {
    type V = FieldVariantV;

    open spec fn view(&self) -> FieldVariantV {
        field_variant_view(*self)
    }
}

/// `true` or `false`.
pub open spec fn bool_text(b: bool) -> Seq<char> {
    if b { "true"@ } else { "false"@ }
}

/// `"` + `s` + `"`.
pub open spec fn quoted(s: Seq<char>) -> Seq<char> {
    seq!['"'] + s + seq!['"']
}

/// How a value that is not a structure is written.
pub open spec fn atom_text(v: ValueV) -> Seq<char> {
    match v {
        ValueV::Bool(b) => bool_text(b),
        ValueV::Float(t) => t,
        ValueV::Integer(n) => crate::text::int_text(n as int),
        ValueV::String(s) => s,
        ValueV::Enum { value, .. } => value,
        ValueV::Struct(_) => seq![],
    }
}

/// How a value is written; a structure as its fields in round brackets.
pub open spec fn value_text(v: ValueV) -> Seq<char>
    decreases v,
{
    match v {
        ValueV::Struct(fields) => seq!['('] + fields_text(fields) + seq![')'],
        _ => atom_text(v),
    }
}

/// The fields of a structure, separated by commas.
pub open spec fn fields_text(fs: Seq<FieldVariantV>) -> Seq<char>
    decreases fs,
{
    if fs.len() == 0 {
        seq![]
    } else if fs.len() == 1 {
        field_text(fs[0])
    } else {
        fields_text(fs.drop_last()) + seq![','] + field_text(fs.last())
    }
}

/// One field of a structure: `name="text"` for strings and enumerations,
/// `name=(a,b)` for vectors (with strings and enumerations quoted), and
/// `name=value` otherwise.
pub open spec fn field_text(f: FieldVariantV) -> Seq<char>
    decreases f,
{
    match f.value {
        VariantV::Scalar(ValueV::Enum { value, .. }) => f.name + seq!['='] + quoted(value),
        VariantV::Scalar(ValueV::String(s)) => f.name + seq!['='] + quoted(s),
        VariantV::Vector(values) => f.name + seq!['=', '('] + quoted_list_text(values) + seq![')'],
        VariantV::Scalar(x) => f.name + seq!['='] + value_text(x),
    }
}

/// A list item inside a structure field: strings and enumerations quoted.
pub open spec fn quoted_item_text(v: ValueV) -> Seq<char>
    decreases v,
{
    match v {
        ValueV::String(s) => quoted(s),
        ValueV::Enum { value, .. } => quoted(value),
        ValueV::Struct(fields) => seq!['('] + fields_text(fields) + seq![')'],
        _ => atom_text(v),
    }
}

pub open spec fn quoted_list_text(vs: Seq<ValueV>) -> Seq<char>
    decreases vs,
{
    if vs.len() == 0 {
        seq![]
    } else if vs.len() == 1 {
        quoted_item_text(vs[0])
    } else {
        quoted_list_text(vs.drop_last()) + seq![','] + quoted_item_text(vs.last())
    }
}

/// Values written one after another, separated by commas.
pub open spec fn list_text(vs: Seq<ValueV>) -> Seq<char>
    decreases vs,
{
    if vs.len() == 0 {
        seq![]
    } else if vs.len() == 1 {
        value_text(vs[0])
    } else {
        list_text(vs.drop_last()) + seq![','] + value_text(vs.last())
    }
}

/// How a setting's value is written: a scalar as its value, a vector as its
/// values separated by commas, in brackets when they are structures.
pub open spec fn variant_text(v: VariantV) -> Seq<char> {
    match v {
        VariantV::Scalar(x) => value_text(x),
        VariantV::Vector(xs) => if xs.len() > 0 && xs[0] is Struct {
            seq!['('] + list_text(xs) + seq![')']
        } else {
            list_text(xs)
        },
    }
}

/// Appends `b` to `a`.
fn append_str(a: &mut String, b: &str)
    ensures
        final(a)@ == old(a)@ + b@,
{
    a.append(b);
}

fn quoted_string(s: &str) -> (r: String)
    ensures
        r@ == quoted(s@),
{
    let mut r = String::new();
    push_char(&mut r, '"');
    append_str(&mut r, s);
    push_char(&mut r, '"');
    assert(r@ =~= quoted(s@));
    r
}

fn bool_to_string(b: bool) -> (r: String)
    ensures
        r@ == bool_text(b),
{
    if b { owned("true") } else { owned("false") }
}

/// The fields of a structure, written and separated by commas.
fn fields_to_string(fs: &Vec<ConfigStructFieldVariant>) -> (r: String)
    ensures
        r@ == fields_text(field_variants_view(fs@)),
    decreases fs,
{
    let ghost view = field_variants_view(fs@);
    proof {
        lemma_field_variants_view(fs@);
    }
    let mut r = String::new();
    let mut i: usize = 0;
    while i < fs.len()
        invariant
            i <= fs@.len(),
            view == field_variants_view(fs@),
            view.len() == fs@.len(),
            forall|k: int| 0 <= k < fs@.len() ==> #[trigger] view[k] == field_variant_view(fs@[k]),
            r@ == fields_text(view.take(i as int)),
        decreases fs@.len() - i,
    {
        assert(decreases_to!(fs => fs@[i as int]));
        let piece = field_to_string(&fs[i]);
        if i > 0 {
            push_char(&mut r, ',');
        }
        append_str(&mut r, piece.as_str());
        proof {
            let t = view.take(i + 1);
            assert(t.drop_last() =~= view.take(i as int));
            assert(t.last() == view[i as int]);
            if i == 0 {
                assert(t[0] == view[0]);
            }
        }
        i = i + 1;
    }
    assert(view.take(fs@.len() as int) =~= view);
    r
}

/// One field of a structure, written as `field_text` says.
fn field_to_string(f: &ConfigStructFieldVariant) -> (r: String)
    ensures
        r@ == field_text(f@),
    decreases f,
{
    let name = f.name.as_str();
    proof {
        reveal_strlit("=");
    }
    assert(f@.name == name@);
    assert(f@.value == variant_view(f.value));
    match &f.value {
        ConfigVariant::Scalar(x) => {
            assert(f@.value == VariantV::Scalar(value_view(*x)));
            match x {
                ConfigValue::Enum { value, .. } => {
                    assert(value_view(*x) matches ValueV::Enum { value: v, .. } && v == value@);
                    concat(concat(name, "=").as_str(), quoted_string(value.as_str()).as_str())
                },
                ConfigValue::String(v) => {
                    assert(value_view(*x) == ValueV::String(v@));
                    concat(concat(name, "=").as_str(), quoted_string(v.as_str()).as_str())
                },
                _ => {
                    assert(decreases_to!(f => x));
                    assert(!(value_view(*x) is Enum) && !(value_view(*x) is String));
                    proof {
                        reveal_strlit("=");
                    }
                    let r = concat(concat(name, "=").as_str(), x.to_string().as_str());
                    assert(r@ =~= field_text(f@));
                    r
                },
            }
        },
        ConfigVariant::Vector(values) => {
            assert(f@.value == VariantV::Vector(values_view(values@)));
            assert(decreases_to!(f => values));
            let inner = quoted_list_to_string(values);
            proof {
                reveal_strlit("=(");
                reveal_strlit(")");
            }
            let r = concat(concat(concat(name, "=(").as_str(), inner.as_str()).as_str(), ")");
            assert(r@ =~= field_text(f@));
            r
        },
    }
}

/// How a value that is not a structure is written.
fn atom_to_string(v: &ConfigValue) -> (r: String)
    requires
        !(v is Struct),
    ensures
        r@ == atom_text(v@),
{
    match v {
        ConfigValue::Bool(b) => bool_to_string(*b),
        ConfigValue::Float(t) => t.clone(),
        ConfigValue::Integer(n) => i64_to_string(*n),
        ConfigValue::String(s) => s.clone(),
        ConfigValue::Enum { value, .. } => value.clone(),
        ConfigValue::Struct(_) => String::new(),
    }
}

/// A list item inside a structure: strings and enumerations quoted.
fn quoted_item_to_string(v: &ConfigValue) -> (r: String)
    ensures
        r@ == quoted_item_text(v@),
    decreases v,
{
    match v {
        ConfigValue::String(s) => quoted_string(s.as_str()),
        ConfigValue::Enum { value, .. } => quoted_string(value.as_str()),
        ConfigValue::Struct(fields) => {
            assert(decreases_to!(v => fields));
            let mut r = String::new();
            push_char(&mut r, '(');
            let inner = fields_to_string(fields);
            append_str(&mut r, inner.as_str());
            push_char(&mut r, ')');
            assert(r@ =~= quoted_item_text(v@));
            r
        },
        _ => atom_to_string(v),
    }
}

fn quoted_list_to_string(vs: &Vec<ConfigValue>) -> (r: String)
    ensures
        r@ == quoted_list_text(values_view(vs@)),
    decreases vs,
{
    let ghost view = values_view(vs@);
    proof {
        lemma_values_view(vs@);
    }
    let mut r = String::new();
    let mut i: usize = 0;
    while i < vs.len()
        invariant
            i <= vs@.len(),
            view == values_view(vs@),
            view.len() == vs@.len(),
            forall|k: int| 0 <= k < vs@.len() ==> #[trigger] view[k] == value_view(vs@[k]),
            r@ == quoted_list_text(view.take(i as int)),
        decreases vs@.len() - i,
    {
        assert(decreases_to!(vs => vs@[i as int]));
        let piece = quoted_item_to_string(&vs[i]);
        if i > 0 {
            push_char(&mut r, ',');
        }
        append_str(&mut r, piece.as_str());
        proof {
            let t = view.take(i + 1);
            assert(t.drop_last() =~= view.take(i as int));
            assert(t.last() == view[i as int]);
            if i == 0 {
                assert(t[0] == view[0]);
            }
        }
        i = i + 1;
    }
    assert(view.take(vs@.len() as int) =~= view);
    r
}

fn list_to_string(vs: &Vec<ConfigValue>) -> (r: String)
    ensures
        r@ == list_text(values_view(vs@)),
{
    let ghost view = values_view(vs@);
    proof {
        lemma_values_view(vs@);
    }
    let mut r = String::new();
    let mut i: usize = 0;
    while i < vs.len()
        invariant
            i <= vs@.len(),
            view == values_view(vs@),
            view.len() == vs@.len(),
            forall|k: int| 0 <= k < vs@.len() ==> #[trigger] view[k] == value_view(vs@[k]),
            r@ == list_text(view.take(i as int)),
        decreases vs@.len() - i,
    {
        let piece = vs[i].to_string();
        if i > 0 {
            push_char(&mut r, ',');
        }
        append_str(&mut r, piece.as_str());
        proof {
            let t = view.take(i + 1);
            assert(t.drop_last() =~= view.take(i as int));
            assert(t.last() == view[i as int]);
            if i == 0 {
                assert(t[0] == view[0]);
            }
        }
        i = i + 1;
    }
    assert(view.take(vs@.len() as int) =~= view);
    r
}

impl ConfigValue {
    /// The value written as text (`value_text`).
    pub fn to_string(&self) -> (r: String)
        ensures
            r@ == value_text(self@),
        decreases self,
    {
        match self {
            ConfigValue::Struct(fields) => {
                assert(decreases_to!(self => fields));
                let mut r = String::new();
                push_char(&mut r, '(');
                let inner = fields_to_string(fields);
                append_str(&mut r, inner.as_str());
                push_char(&mut r, ')');
                assert(r@ =~= value_text(self@));
                r
            },
            _ => atom_to_string(self),
        }
    }
}

impl ConfigVariant {
    /// The value written as text (`variant_text`).
    pub fn to_string(&self) -> (r: String)
        ensures
            r@ == variant_text(self@),
    {
        match self {
            ConfigVariant::Scalar(v) => v.to_string(),
            ConfigVariant::Vector(values) => {
                let inner = list_to_string(values);
                proof {
                    lemma_values_view(values@);
                }
                let is_struct = values.len() > 0 && match &values[0] {
                    ConfigValue::Struct(_) => true,
                    _ => false,
                };
                if is_struct {
                    let mut r = String::new();
                    push_char(&mut r, '(');
                    append_str(&mut r, inner.as_str());
                    push_char(&mut r, ')');
                    assert(r@ =~= variant_text(self@));
                    r
                } else {
                    inner
                }
            },
        }
    }
}

/// What reading the text `s` as a single value of base type `t` gives.
pub open spec fn spec_value_from(t: BaseTypeV, s: Seq<char>) -> Result<ValueV, ConfigError> {
    match t {
        BaseTypeV::Bool => match crate::parse::spec_parse_bool(s) {
            Some(b) => Ok(ValueV::Bool(b)),
            None => Err(ConfigError::InvalidBool),
        },
        BaseTypeV::Integer => match crate::parse::spec_parse_i64(s) {
            Some(n) => Ok(ValueV::Integer(n)),
            None => Err(ConfigError::InvalidInteger),
        },
        BaseTypeV::Float => if crate::parse::spec_is_float(s) {
            Ok(ValueV::Float(s))
        } else {
            Err(ConfigError::InvalidFloat)
        },
        BaseTypeV::String => Ok(ValueV::String(s)),
        BaseTypeV::Enum(_) => Err(ConfigError::EnumNotSupported),
        BaseTypeV::Struct(_) => Err(ConfigError::StructNotSupported),
    }
}

/// The pieces of `s` between commas (std's `str::split(',')`): always at
/// least one piece, empty pieces kept.
pub open spec fn split_commas(s: Seq<char>) -> Seq<Seq<char>> {
    crate::text::split_on(s, ',')
}

pub proof fn lemma_split_commas_nonempty(s: Seq<char>)
    ensures
        split_commas(s).len() >= 1,
{
    crate::text::lemma_split_on_nonempty(s, ',');
}

/// Reading each piece as a value of base type `t`, in order; the first piece
/// that does not read gives the error.
pub open spec fn spec_values_from(t: BaseTypeV, pieces: Seq<Seq<char>>) -> Result<Seq<ValueV>, ConfigError>
    decreases pieces.len(),
{
    if pieces.len() == 0 {
        Ok(seq![])
    } else {
        match spec_values_from(t, pieces.drop_last()) {
            Err(e) => Err(e),
            Ok(vs) => match spec_value_from(t, pieces.last()) {
                Ok(v) => Ok(vs.push(v)),
                Err(e) => Err(e),
            },
        }
    }
}

/// What reading `s` as a setting of type `t` gives: one value for a scalar,
/// the comma-separated pieces for a vector.
pub open spec fn spec_variant_from(t: ValueTypeV, s: Seq<char>) -> Result<VariantV, ConfigError> {
    match t.quantity {
        ConfigQuantity::Scalar => match spec_value_from(t.base_type, s) {
            Ok(v) => Ok(VariantV::Scalar(v)),
            Err(e) => Err(e),
        },
        ConfigQuantity::Vector => match spec_values_from(t.base_type, split_commas(s)) {
            Ok(vs) => Ok(VariantV::Vector(vs)),
            Err(e) => Err(e),
        },
    }
}

pub open spec fn strings_view(ss: Seq<String>) -> Seq<Seq<char>> {
    ss.map_values(|x: String| x@)
}

/// The pieces of `s` between commas.
pub fn split_commas_exec(s: &str) -> (r: Vec<String>)
    ensures
        strings_view(r@) == split_commas(s@),
{
    let r = split_on_exec(s, ',');
    assert(strings_view(r@) =~= crate::text::texts_view(r@));
    r
}

impl ConfigValue {
    /// Reads `value` as a single value of the base type of `value_type`.
    pub fn from_type_and_value(value_type: &ConfigValueType, value: &str) -> (r: Result<ConfigValue, ConfigError>)
        ensures
            match r {
                Ok(v) => spec_value_from(value_type@.base_type, value@) == Ok::<ValueV, ConfigError>(v@),
                Err(e) => spec_value_from(value_type@.base_type, value@) == Err::<ValueV, ConfigError>(e),
            },
    {
        match &value_type.base_type {
            ConfigValueBaseType::Bool => match parse_bool(value) {
                Some(b) => Ok(ConfigValue::Bool(b)),
                None => Err(ConfigError::InvalidBool),
            },
            ConfigValueBaseType::Integer => match parse_i64(value) {
                Some(n) => Ok(ConfigValue::Integer(n)),
                None => Err(ConfigError::InvalidInteger),
            },
            ConfigValueBaseType::Float => if is_float(value) {
                Ok(ConfigValue::Float(owned(value)))
            } else {
                Err(ConfigError::InvalidFloat)
            },
            ConfigValueBaseType::String => Ok(ConfigValue::String(owned(value))),
            ConfigValueBaseType::Enum(_) => Err(ConfigError::EnumNotSupported),
            ConfigValueBaseType::Struct(_) => Err(ConfigError::StructNotSupported),
        }
    }
}

impl ConfigVariant {
    /// Reads `value` as a setting of type `value_type`: a vector is read
    /// piece by piece between commas, and fails at the first piece that
    /// does not read.
    pub fn from_type_and_value(value_type: &ConfigValueType, value: &str) -> (r: Result<ConfigVariant, ConfigError>)
        ensures
            match r {
                Ok(v) => spec_variant_from(value_type@, value@) == Ok::<VariantV, ConfigError>(v@),
                Err(e) => spec_variant_from(value_type@, value@) == Err::<VariantV, ConfigError>(e),
            },
    {
        match value_type.quantity {
            ConfigQuantity::Scalar => match ConfigValue::from_type_and_value(value_type, value) {
                Ok(v) => Ok(ConfigVariant::Scalar(v)),
                Err(e) => Err(e),
            },
            ConfigQuantity::Vector => {
                let pieces = split_commas_exec(value);
                let ghost t = value_type@.base_type;
                let ghost pv = strings_view(pieces@);
                let mut values: Vec<ConfigValue> = Vec::new();
                let mut i: usize = 0;
                while i < pieces.len()
                    invariant
                        i <= pieces@.len(),
                        pv == strings_view(pieces@),
                        pv == split_commas(value@),
                        t == value_type@.base_type,
                        value_type.quantity == ConfigQuantity::Vector,
                        spec_values_from(t, pv.take(i as int)) == Ok::<Seq<ValueV>, ConfigError>(values_view(values@)),
                    decreases pieces@.len() - i,
                {
                    assert(pv.take(i + 1).drop_last() =~= pv.take(i as int));
                    assert(pv.take(i + 1).last() == pieces@[i as int]@);
                    match ConfigValue::from_type_and_value(value_type, pieces[i].as_str()) {
                        Ok(v) => {
                            let ghost prev = values@;
                            values.push(v);
                            assert(values@.drop_last() =~= prev);
                        },
                        Err(e) => {
                            proof {
                                assert(spec_value_from(t, pv.take(i + 1).last()) == Err::<ValueV, ConfigError>(e));
                                assert(spec_values_from(t, pv.take(i + 1)) == Err::<Seq<ValueV>, ConfigError>(e));
                                lemma_values_from_err_prefix(t, pv, (i + 1) as int, e);
                            }
                            return Err(e);
                        },
                    }
                    i = i + 1;
                }
                assert(pv.take(pieces@.len() as int) =~= pv);
                Ok(ConfigVariant::Vector(values))
            },
        }
    }
}

/// An error on a prefix of the pieces is the error on all of them.
proof fn lemma_values_from_err_prefix(t: BaseTypeV, pieces: Seq<Seq<char>>, n: int, e: ConfigError)
    requires
        0 <= n <= pieces.len(),
        spec_values_from(t, pieces.take(n)) == Err::<Seq<ValueV>, ConfigError>(e),
    ensures
        spec_values_from(t, pieces) == Err::<Seq<ValueV>, ConfigError>(e),
    decreases pieces.len() - n,
{
    if n < pieces.len() {
        assert(pieces.take(n + 1).drop_last() =~= pieces.take(n));
        lemma_values_from_err_prefix(t, pieces, n + 1, e);
    } else {
        assert(pieces.take(n) =~= pieces);
    }
}

/// The value a setting of base type `t` starts with: `false`, `0`, empty
/// text, an enumeration with no value chosen, or a structure whose fields
/// each start with their own default.
pub open spec fn default_value(t: BaseTypeV) -> ValueV
    decreases t,
{
    match t {
        BaseTypeV::Bool => ValueV::Bool(false),
        BaseTypeV::Float => ValueV::Float("0"@),
        BaseTypeV::Integer => ValueV::Integer(0),
        BaseTypeV::String => ValueV::String(seq![]),
        BaseTypeV::Enum(name) => ValueV::Enum { enum_name: name, value: seq![] },
        BaseTypeV::Struct(fields) => ValueV::Struct(default_fields(fields)),
    }
}

pub open spec fn default_fields(fs: Seq<FieldTypeV>) -> Seq<FieldVariantV>
    decreases fs,
{
    if fs.len() == 0 {
        seq![]
    } else {
        default_fields(fs.drop_last()).push(
            FieldVariantV { name: fs.last().name, value: default_variant(fs.last().value_type) },
        )
    }
}

/// The value a setting of type `t` starts with: a default scalar, or an
/// empty vector.
pub open spec fn default_variant(t: ValueTypeV) -> VariantV
    decreases t,
{
    match t.quantity {
        ConfigQuantity::Scalar => VariantV::Scalar(default_value(t.base_type)),
        ConfigQuantity::Vector => VariantV::Vector(seq![]),
    }
}

fn default_for_base(b: &ConfigValueBaseType) -> (r: ConfigValue)
    ensures
        r@ == default_value(b@),
    decreases b,
{
    match b {
        ConfigValueBaseType::Bool => ConfigValue::Bool(false),
        ConfigValueBaseType::Float => ConfigValue::Float(owned("0")),
        ConfigValueBaseType::Integer => ConfigValue::Integer(0),
        ConfigValueBaseType::String => ConfigValue::String(String::new()),
        ConfigValueBaseType::Enum(name) => ConfigValue::Enum { enum_name: name.clone(), value: String::new() },
        ConfigValueBaseType::Struct(fields) => {
            assert(decreases_to!(b => fields));
            let fs = default_fields_exec(fields);
            ConfigValue::Struct(fs)
        },
    }
}

fn default_fields_exec(fs: &Vec<ConfigStructFieldType>) -> (r: Vec<ConfigStructFieldVariant>)
    ensures
        field_variants_view(r@) == default_fields(crate::config::metadata::field_types_view(fs@)),
    decreases fs,
{
    let mut r: Vec<ConfigStructFieldVariant> = Vec::new();
    let mut i: usize = 0;
    while i < fs.len()
        invariant
            i <= fs@.len(),
            field_variants_view(r@) == default_fields(crate::config::metadata::field_types_view(fs@.take(i as int))),
        decreases fs@.len() - i,
    {
        assert(decreases_to!(fs => fs@[i as int].value_type));
        let f = ConfigStructFieldVariant {
            name: fs[i].name.clone(),
            value: ConfigVariant::default_from_type(&fs[i].value_type),
        };
        let ghost prev = r@;
        let ghost fg = f;
        r.push(f);
        proof {
            assert(fs@.take(i + 1).drop_last() =~= fs@.take(i as int));
            assert(fs@.take(i + 1).last() == fs@[i as int]);
            assert(r@.drop_last() =~= prev);
            assert(field_variants_view(r@) == field_variants_view(prev).push(field_variant_view(fg)));
            let ftv = crate::config::metadata::field_types_view(fs@.take(i + 1));
            assert(ftv == crate::config::metadata::field_types_view(fs@.take(i as int)).push(crate::config::metadata::field_type_view(fs@[i as int])));
            assert(ftv.drop_last() =~= crate::config::metadata::field_types_view(fs@.take(i as int)));
        }
        i = i + 1;
    }
    assert(fs@.take(fs@.len() as int) =~= fs@);
    r
}

impl ConfigValue {
    /// The value a setting of type `value_type` starts with (its base type
    /// decides).
    pub fn default_from_type(value_type: &ConfigValueType) -> (r: ConfigValue)
        ensures
            r@ == default_value(value_type@.base_type),
    {
        default_for_base(&value_type.base_type)
    }
}

impl ConfigVariant {
    /// The value a setting of type `value_type` starts with.
    pub fn default_from_type(value_type: &ConfigValueType) -> (r: ConfigVariant)
        ensures
            r@ == default_variant(value_type@),
        decreases value_type,
    {
        match value_type.quantity {
            ConfigQuantity::Scalar => ConfigVariant::Scalar(default_for_base(&value_type.base_type)),
            ConfigQuantity::Vector => ConfigVariant::Vector(Vec::new()),
        }
    }
}

/// The base type of a value: a structure's type lists each field's name with
/// the type of its value.
pub open spec fn value_base_type(v: ValueV) -> BaseTypeV
    decreases v,
{
    match v {
        ValueV::Bool(_) => BaseTypeV::Bool,
        ValueV::Float(_) => BaseTypeV::Float,
        ValueV::Integer(_) => BaseTypeV::Integer,
        ValueV::String(_) => BaseTypeV::String,
        ValueV::Enum { enum_name, .. } => BaseTypeV::Enum(enum_name),
        ValueV::Struct(fields) => BaseTypeV::Struct(field_types_of(fields)),
    }
}

pub open spec fn field_types_of(fs: Seq<FieldVariantV>) -> Seq<FieldTypeV>
    decreases fs,
{
    if fs.len() == 0 {
        seq![]
    } else {
        field_types_of(fs.drop_last()).push(FieldTypeV { name: fs.last().name, value_type: variant_type(fs.last().value) })
    }
}

/// The type of a setting's value; an empty vector counts as a vector of
/// strings, any other vector has the type of its first value.
pub open spec fn variant_type(v: VariantV) -> ValueTypeV
    decreases v,
{
    match v {
        VariantV::Scalar(x) => ValueTypeV { quantity: ConfigQuantity::Scalar, base_type: value_base_type(x) },
        VariantV::Vector(xs) => ValueTypeV {
            quantity: ConfigQuantity::Vector,
            base_type: if xs.len() == 0 { BaseTypeV::String } else { value_base_type(xs[0]) },
        },
    }
}

fn field_types_of_exec(fs: &Vec<ConfigStructFieldVariant>) -> (r: Vec<ConfigStructFieldType>)
    ensures
        crate::config::metadata::field_types_view(r@) == field_types_of(field_variants_view(fs@)),
    decreases fs,
{
    let mut r: Vec<ConfigStructFieldType> = Vec::new();
    let mut i: usize = 0;
    while i < fs.len()
        invariant
            i <= fs@.len(),
            crate::config::metadata::field_types_view(r@) == field_types_of(field_variants_view(fs@.take(i as int))),
        decreases fs@.len() - i,
    {
        assert(decreases_to!(fs => fs@[i as int]));
        let f = fs[i].get_field_type();
        let ghost prev = r@;
        let ghost fg = f;
        r.push(f);
        proof {
            assert(fs@.take(i + 1).drop_last() =~= fs@.take(i as int));
            assert(fs@.take(i + 1).last() == fs@[i as int]);
            assert(r@.drop_last() =~= prev);
            let fvv = field_variants_view(fs@.take(i + 1));
            assert(fvv == field_variants_view(fs@.take(i as int)).push(field_variant_view(fs@[i as int])));
            assert(fvv.drop_last() =~= field_variants_view(fs@.take(i as int)));
        }
        i = i + 1;
    }
    assert(fs@.take(fs@.len() as int) =~= fs@);
    r
}

impl ConfigStructFieldVariant {
    /// The field's name with the type of its value.
    pub fn get_field_type(&self) -> (r: ConfigStructFieldType)
        ensures
            r@ == (FieldTypeV { name: self@.name, value_type: variant_type(self@.value) }),
        decreases self,
    {
        ConfigStructFieldType { name: self.name.clone(), value_type: self.value.get_value_type() }
    }

    pub fn deep_clone(&self) -> (r: ConfigStructFieldVariant)
        ensures
            r@ == self@,
        decreases self,
    {
        ConfigStructFieldVariant { name: self.name.clone(), value: self.value.deep_clone() }
    }
}

fn clone_field_variants(fs: &Vec<ConfigStructFieldVariant>) -> (r: Vec<ConfigStructFieldVariant>)
    ensures
        field_variants_view(r@) == field_variants_view(fs@),
    decreases fs,
{
    let mut r: Vec<ConfigStructFieldVariant> = Vec::new();
    let mut i: usize = 0;
    while i < fs.len()
        invariant
            i <= fs@.len(),
            field_variants_view(r@) == field_variants_view(fs@.take(i as int)),
        decreases fs@.len() - i,
    {
        assert(decreases_to!(fs => fs@[i as int]));
        let f = fs[i].deep_clone();
        let ghost prev = r@;
        let ghost fg = f;
        r.push(f);
        proof {
            assert(fs@.take(i + 1).drop_last() =~= fs@.take(i as int));
            assert(fs@.take(i + 1).last() == fs@[i as int]);
            assert(r@.drop_last() =~= prev);
        }
        i = i + 1;
    }
    assert(fs@.take(fs@.len() as int) =~= fs@);
    r
}

pub(crate) fn clone_values(vs: &Vec<ConfigValue>) -> (r: Vec<ConfigValue>)
    ensures
        values_view(r@) == values_view(vs@),
    decreases vs,
{
    let mut r: Vec<ConfigValue> = Vec::new();
    let mut i: usize = 0;
    while i < vs.len()
        invariant
            i <= vs@.len(),
            values_view(r@) == values_view(vs@.take(i as int)),
        decreases vs@.len() - i,
    {
        assert(decreases_to!(vs => vs@[i as int]));
        let v = vs[i].deep_clone();
        let ghost prev = r@;
        r.push(v);
        proof {
            assert(vs@.take(i + 1).drop_last() =~= vs@.take(i as int));
            assert(vs@.take(i + 1).last() == vs@[i as int]);
            assert(r@.drop_last() =~= prev);
        }
        i = i + 1;
    }
    assert(vs@.take(vs@.len() as int) =~= vs@);
    r
}

impl ConfigValue {
    /// The base type of this value.
    pub fn get_value_base_type(&self) -> (r: ConfigValueBaseType)
        ensures
            r@ == value_base_type(self@),
        decreases self,
    {
        match self {
            ConfigValue::Bool(_) => ConfigValueBaseType::Bool,
            ConfigValue::Float(_) => ConfigValueBaseType::Float,
            ConfigValue::Integer(_) => ConfigValueBaseType::Integer,
            ConfigValue::String(_) => ConfigValueBaseType::String,
            ConfigValue::Enum { enum_name, .. } => ConfigValueBaseType::Enum(enum_name.clone()),
            ConfigValue::Struct(fields) => {
                assert(decreases_to!(self => fields));
                ConfigValueBaseType::Struct(field_types_of_exec(fields))
            },
        }
    }

    pub fn deep_clone(&self) -> (r: ConfigValue)
        ensures
            r@ == self@,
        decreases self,
    {
        match self {
            ConfigValue::Bool(b) => ConfigValue::Bool(*b),
            ConfigValue::Float(t) => ConfigValue::Float(t.clone()),
            ConfigValue::Integer(n) => ConfigValue::Integer(*n),
            ConfigValue::String(v) => ConfigValue::String(v.clone()),
            ConfigValue::Enum { enum_name, value } => ConfigValue::Enum { enum_name: enum_name.clone(), value: value.clone() },
            ConfigValue::Struct(fields) => {
                assert(decreases_to!(self => fields));
                ConfigValue::Struct(clone_field_variants(fields))
            },
        }
    }
}

impl ConfigVariant {
    /// The type of this setting's value.
    pub fn get_value_type(&self) -> (r: ConfigValueType)
        ensures
            r@ == variant_type(self@),
        decreases self,
    {
        match self {
            ConfigVariant::Scalar(v) => ConfigValueType {
                quantity: ConfigQuantity::Scalar,
                base_type: v.get_value_base_type(),
            },
            ConfigVariant::Vector(values) => {
                proof {
                    lemma_values_view(values@);
                }
                let base_type = if values.len() == 0 {
                    ConfigValueBaseType::String
                } else {
                    assert(decreases_to!(self => values@[0]));
                    values[0].get_value_base_type()
                };
                ConfigValueType { quantity: ConfigQuantity::Vector, base_type }
            },
        }
    }

    pub fn deep_clone(&self) -> (r: ConfigVariant)
        ensures
            r@ == self@,
        decreases self,
    {
        match self {
            ConfigVariant::Scalar(v) => ConfigVariant::Scalar(v.deep_clone()),
            ConfigVariant::Vector(values) => {
                assert(decreases_to!(self => values));
                ConfigVariant::Vector(clone_values(values))
            },
        }
    }

    /// The boolean, when this is a scalar boolean.
    pub fn try_get_bool_value(&self) -> (r: Option<bool>)
        ensures
            r == (match self@ {
                VariantV::Scalar(ValueV::Bool(b)) => Some(b),
                _ => None::<bool>,
            }),
    {
        match self {
            ConfigVariant::Scalar(ConfigValue::Bool(b)) => Some(*b),
            _ => None,
        }
    }

    /// The text, when this is a scalar string.
    pub fn try_get_string_value(&self) -> (r: Option<String>)
        ensures
            match self@ {
                VariantV::Scalar(ValueV::String(s)) => r matches Some(t) && t@ == s,
                _ => r is None,
            },
    {
        match self {
            ConfigVariant::Scalar(ConfigValue::String(s)) => Some(s.clone()),
            _ => None,
        }
    }

    /// The integer, when this is a scalar integer.
    pub fn try_get_int_value(&self) -> (r: Option<i64>)
        ensures
            r == (match self@ {
                VariantV::Scalar(ValueV::Integer(n)) => Some(n),
                _ => None::<i64>,
            }),
    {
        match self {
            ConfigVariant::Scalar(ConfigValue::Integer(n)) => Some(*n),
            _ => None,
        }
    }
}

/// Values that are written as text and read back without loss: booleans,
/// integers, strings, and floats whose text is a float literal.
pub open spec fn readable_atom(v: ValueV) -> bool {
    match v {
        ValueV::Bool(_) => true,
        ValueV::Integer(_) => true,
        ValueV::String(_) => true,
        ValueV::Float(t) => crate::parse::spec_is_float(t),
        _ => false,
    }
}

/// A value written as text reads back, with its own type, as the same value.
pub proof fn lemma_value_text_reads_back(v: ValueV)
    requires
        readable_atom(v),
    ensures
        spec_value_from(value_base_type(v), value_text(v)) == Ok::<ValueV, ConfigError>(v),
{
    match v {
        ValueV::Bool(b) => {
            reveal_strlit("true");
            reveal_strlit("false");
            assert(crate::parse::ascii_lowercase("true"@) =~= crate::parse::true_text());
            assert(crate::parse::ascii_lowercase("false"@) =~= crate::parse::false_text());
            assert(crate::parse::true_text() != crate::parse::false_text());
        },
        ValueV::Integer(n) => {
            crate::parse::lemma_parse_int_text(n);
        },
        _ => {},
    }
}

pub open spec fn has_comma(s: Seq<char>) -> bool {
    exists|i: int| 0 <= i < s.len() && s[i] == ','
}

proof fn lemma_split_no_comma(b: Seq<char>)
    requires
        !has_comma(b),
    ensures
        split_commas(b) == seq![b],
    decreases b.len(),
{
    if b.len() > 0 {
        assert(!has_comma(b.drop_last())) by {
            if has_comma(b.drop_last()) {
                let i = choose|i: int| 0 <= i < b.drop_last().len() && b.drop_last()[i] == ',';
                assert(b[i] == ',');
            }
        }
        lemma_split_no_comma(b.drop_last());
        assert(b.last() != ',') by {
            if b.last() == ',' {
                assert(b[b.len() - 1] == ',');
            }
        }
        assert(b.drop_last().push(b.last()) =~= b);
        let p = split_commas(b.drop_last());
        assert(split_commas(b) == p.update(p.len() - 1, p.last().push(b.last())));
        assert(split_commas(b) =~= seq![b]);
    } else {
        assert(b =~= Seq::<char>::empty());
        assert(split_commas(b) =~= seq![b]);
    }
}

proof fn lemma_split_append(a: Seq<char>, b: Seq<char>)
    ensures
        split_commas(a + seq![','] + b) == split_commas(a) + split_commas(b),
    decreases b.len(),
{
    lemma_split_commas_nonempty(a);
    lemma_split_commas_nonempty(b);
    let ac = a + seq![','];
    assert(ac.drop_last() =~= a);
    if b.len() == 0 {
        assert(ac + b =~= ac);
        assert(split_commas(ac) =~= split_commas(a) + split_commas(b));
    } else {
        let b0 = b.drop_last();
        let c = b.last();
        lemma_split_append(a, b0);
        lemma_split_commas_nonempty(b0);
        assert((ac + b).drop_last() =~= ac + b0);
        assert((ac + b).last() == c);
        let sa = split_commas(a);
        let sb0 = split_commas(b0);
        if c == ',' {
            assert(split_commas(ac + b) =~= (sa + sb0).push(seq![]));
            assert(split_commas(b) =~= sb0.push(seq![]));
        } else {
            let whole = sa + sb0;
            assert(split_commas(ac + b) == whole.update(whole.len() - 1, whole.last().push(c)));
            assert(split_commas(b) == sb0.update(sb0.len() - 1, sb0.last().push(c)));
            assert(whole.update(whole.len() - 1, whole.last().push(c)) =~= sa + sb0.update(sb0.len() - 1, sb0.last().push(c)));
        }
    }
}

/// The texts of the values, in order.
pub open spec fn texts_of(vs: Seq<ValueV>) -> Seq<Seq<char>> {
    vs.map_values(|v: ValueV| value_text(v))
}

proof fn lemma_split_list_text(vs: Seq<ValueV>)
    requires
        vs.len() > 0,
        forall|i: int| 0 <= i < vs.len() ==> !has_comma(#[trigger] value_text(vs[i])),
    ensures
        split_commas(list_text(vs)) == texts_of(vs),
    decreases vs.len(),
{
    if vs.len() == 1 {
        lemma_split_no_comma(value_text(vs[0]));
        assert(texts_of(vs) =~= seq![value_text(vs[0])]);
    } else {
        let init = vs.drop_last();
        assert forall|i: int| 0 <= i < init.len() implies !has_comma(#[trigger] value_text(init[i])) by {
            assert(init[i] == vs[i]);
        }
        lemma_split_list_text(init);
        lemma_split_append(list_text(init), value_text(vs.last()));
        lemma_split_no_comma(value_text(vs.last()));
        assert(texts_of(vs) =~= texts_of(init) + seq![value_text(vs.last())]);
    }
}

proof fn lemma_values_read_back(t: BaseTypeV, vs: Seq<ValueV>)
    requires
        forall|i: int| 0 <= i < vs.len() ==> readable_atom(#[trigger] vs[i]) && value_base_type(vs[i]) == t,
    ensures
        spec_values_from(t, texts_of(vs)) == Ok::<Seq<ValueV>, ConfigError>(vs),
    decreases vs.len(),
{
    if vs.len() > 0 {
        let init = vs.drop_last();
        assert forall|i: int| 0 <= i < init.len() implies readable_atom(#[trigger] init[i]) && value_base_type(init[i]) == t by {
            assert(init[i] == vs[i]);
        }
        lemma_values_read_back(t, init);
        assert(texts_of(vs).drop_last() =~= texts_of(init));
        assert(readable_atom(vs[vs.len() - 1]));
        assert(value_base_type(vs[vs.len() - 1]) == t);
        lemma_value_text_reads_back(vs.last());
        assert(texts_of(vs).last() == value_text(vs.last()));
        assert(init.push(vs.last()) =~= vs);
        assert(spec_values_from(t, texts_of(vs)) == Ok::<Seq<ValueV>, ConfigError>(init.push(vs.last())));
    } else {
        assert(texts_of(vs) =~= Seq::<Seq<char>>::empty());
        assert(vs =~= Seq::<ValueV>::empty());
    }
}

/// A setting's value written as text reads back, with the value's own type,
/// as the same value: for a scalar of a readable kind, and for a non-empty
/// vector whose values are all readable, of the same type, and written
/// without commas.
pub proof fn lemma_variant_text_reads_back(v: VariantV)
    requires
        match v {
            VariantV::Scalar(x) => readable_atom(x),
            VariantV::Vector(xs) => xs.len() > 0 && forall|i: int| 0 <= i < xs.len() ==> readable_atom(#[trigger] xs[i])
                && value_base_type(xs[i]) == value_base_type(xs[0]) && !has_comma(value_text(xs[i])),
        },
    ensures
        spec_variant_from(variant_type(v), variant_text(v)) == Ok::<VariantV, ConfigError>(v),
{
    match v {
        VariantV::Scalar(x) => {
            lemma_value_text_reads_back(x);
        },
        VariantV::Vector(xs) => {
            assert(readable_atom(xs[0]));
            assert(!(xs[0] is Struct));
            lemma_split_list_text(xs);
            lemma_values_read_back(value_base_type(xs[0]), xs);
        },
    }
}

fn field_variants_equal(a: &Vec<ConfigStructFieldVariant>, b: &Vec<ConfigStructFieldVariant>) -> (r: bool)
    ensures
        r == (field_variants_view(a@) == field_variants_view(b@)),
    decreases a,
{
    proof {
        lemma_field_variants_view(a@);
        lemma_field_variants_view(b@);
    }
    if a.len() != b.len() {
        return false;
    }
    let mut i: usize = 0;
    while i < a.len()
        invariant
            i <= a@.len(),
            a@.len() == b@.len(),
            field_variants_view(a@).len() == a@.len(),
            field_variants_view(b@).len() == b@.len(),
            forall|k: int| 0 <= k < a@.len() ==> #[trigger] field_variants_view(a@)[k] == field_variant_view(a@[k]),
            forall|k: int| 0 <= k < b@.len() ==> #[trigger] field_variants_view(b@)[k] == field_variant_view(b@[k]),
            forall|k: int| 0 <= k < i ==> field_variant_view(#[trigger] a@[k]) == field_variant_view(b@[k]),
        decreases a@.len() - i,
    {
        assert(decreases_to!(a => a@[i as int]));
        if !a[i].equals(&b[i]) {
            assert(field_variants_view(a@)[i as int] != field_variants_view(b@)[i as int]);
            return false;
        }
        i = i + 1;
    }
    assert(field_variants_view(a@) =~= field_variants_view(b@));
    true
}

fn values_equal(a: &Vec<ConfigValue>, b: &Vec<ConfigValue>) -> (r: bool)
    ensures
        r == (values_view(a@) == values_view(b@)),
    decreases a,
{
    proof {
        lemma_values_view(a@);
        lemma_values_view(b@);
    }
    if a.len() != b.len() {
        return false;
    }
    let mut i: usize = 0;
    while i < a.len()
        invariant
            i <= a@.len(),
            a@.len() == b@.len(),
            values_view(a@).len() == a@.len(),
            values_view(b@).len() == b@.len(),
            forall|k: int| 0 <= k < a@.len() ==> #[trigger] values_view(a@)[k] == value_view(a@[k]),
            forall|k: int| 0 <= k < b@.len() ==> #[trigger] values_view(b@)[k] == value_view(b@[k]),
            forall|k: int| 0 <= k < i ==> value_view(#[trigger] a@[k]) == value_view(b@[k]),
        decreases a@.len() - i,
    {
        assert(decreases_to!(a => a@[i as int]));
        if !a[i].equals(&b[i]) {
            assert(values_view(a@)[i as int] != values_view(b@)[i as int]);
            return false;
        }
        i = i + 1;
    }
    assert(values_view(a@) =~= values_view(b@));
    true
}

impl ConfigStructFieldVariant {
    /// Whether both fields have the same name and value.
    pub fn equals(&self, other: &ConfigStructFieldVariant) -> (r: bool)
        ensures
            r == (self@ == other@),
        decreases self,
    {
        crate::text::str_eq(self.name.as_str(), other.name.as_str()) && self.value.equals(&other.value)
    }
}

impl ConfigValue {
    /// Whether both are the same value (floats compared by their text).
    pub fn equals(&self, other: &ConfigValue) -> (r: bool)
        ensures
            r == (self@ == other@),
        decreases self,
    {
        match (self, other) {
            (ConfigValue::Bool(a), ConfigValue::Bool(b)) => *a == *b,
            (ConfigValue::Float(a), ConfigValue::Float(b)) => crate::text::str_eq(a.as_str(), b.as_str()),
            (ConfigValue::Integer(a), ConfigValue::Integer(b)) => *a == *b,
            (ConfigValue::String(a), ConfigValue::String(b)) => crate::text::str_eq(a.as_str(), b.as_str()),
            (ConfigValue::Enum { enum_name: n1, value: v1 }, ConfigValue::Enum { enum_name: n2, value: v2 }) => {
                crate::text::str_eq(n1.as_str(), n2.as_str()) && crate::text::str_eq(v1.as_str(), v2.as_str())
            },
            (ConfigValue::Struct(a), ConfigValue::Struct(b)) => {
                assert(decreases_to!(self => a));
                field_variants_equal(a, b)
            },
            _ => false,
        }
    }
}

impl ConfigVariant {
    /// Whether both are the same setting value.
    pub fn equals(&self, other: &ConfigVariant) -> (r: bool)
        ensures
            r == (self@ == other@),
        decreases self,
    {
        match (self, other) {
            (ConfigVariant::Scalar(a), ConfigVariant::Scalar(b)) => a.equals(b),
            (ConfigVariant::Vector(a), ConfigVariant::Vector(b)) => {
                assert(decreases_to!(self => a));
                values_equal(a, b)
            },
            _ => false,
        }
    }
}

/// A structure field that holds an enumeration value is written
/// `name="value"`: the value in double quotes, exactly as a field that holds
/// the same text as a string; a structure of that one field is written
/// `(name="value")`.
pub proof fn lemma_enum_field_written_quoted(name: Seq<char>, enum_name: Seq<char>, value: Seq<char>)
    ensures
        field_text(FieldVariantV { name, value: VariantV::Scalar(ValueV::Enum { enum_name, value }) })
            == name + seq!['=', '"'] + value + seq!['"'],
        field_text(FieldVariantV { name, value: VariantV::Scalar(ValueV::Enum { enum_name, value }) })
            == field_text(FieldVariantV { name, value: VariantV::Scalar(ValueV::String(value)) }),
        value_text(ValueV::Struct(seq![FieldVariantV { name, value: VariantV::Scalar(ValueV::Enum { enum_name, value }) }]))
            == seq!['('] + name + seq!['=', '"'] + value + seq!['"', ')'],
{
    let f = FieldVariantV { name, value: VariantV::Scalar(ValueV::Enum { enum_name, value }) };
    assert(field_text(f) =~= name + seq!['=', '"'] + value + seq!['"']);
    assert(fields_text(seq![f]) == field_text(f));
    assert(value_text(ValueV::Struct(seq![f])) =~= seq!['('] + name + seq!['=', '"'] + value + seq!['"', ')']);
}

} // verus!
