//! The trusted boundary to the `toml` crate: a mathematical model of a
//! parsed TOML document, and thin wrappers around the crate's parsing,
//! rendering, and table operations. Everything above this module is
//! verified against the contracts stated here.

use vstd::prelude::*;

verus! {

/// What a TOML value holds, as far as this crate reads or writes one:
/// strings, integers, arrays, and nested tables. Every other kind of
/// value (float, boolean, datetime) is collapsed into `Opaque`, since no
/// configuration field has one of those types.
pub enum TomlData {
    /// A TOML string.
    Text(Seq<char>),
    /// A TOML integer.
    Int(i64),
    /// A TOML array.
    List(Seq<TomlData>),
    /// A TOML table.
    Table(Map<Seq<char>, TomlData>),
    /// A float, boolean, or datetime: never produced or read here.
    Opaque,
}

#[verifier::external_type_specification]
#[verifier::external_body]
#[verifier::reject_recursive_types(K)]
#[verifier::reject_recursive_types(V)]
pub struct ExTomlMap<K, V>(toml::map::Map<K, V>);

#[verifier::external_type_specification]
#[verifier::external_body]
pub struct ExTomlValue(toml::Value);

/// What a `toml::Value` holds.
pub uninterp spec fn value_data(v: toml::Value) -> TomlData;

/// What a `toml::map::Map<String, toml::Value>` holds.
pub uninterp spec fn table_data(t: toml::map::Map<String, toml::Value>) -> Map<Seq<char>, TomlData>;

/// What parsing a text as a TOML document yields: the table it denotes,
/// or `None` when the text is not valid TOML.
pub uninterp spec fn toml_parse(s: Seq<char>) -> Option<Map<Seq<char>, TomlData>>;

/// The models of the values in `items`, in order.
pub open spec fn list_data(items: Seq<toml::Value>) -> Seq<TomlData> {
    Seq::new(items.len(), |i: int| value_data(items[i]))
}

/// Whether a value nests no deeper than `n` levels of arrays and tables.
pub open spec fn data_depth_le(d: TomlData, n: nat) -> bool
    decreases n,
{
    match d {
        TomlData::Text(_) => true,
        TomlData::Int(_) => true,
        TomlData::Opaque => true,
        TomlData::List(items) => n > 0 && forall|i: int|
            0 <= i < items.len() ==> data_depth_le(#[trigger] items[i], (n - 1) as nat),
        TomlData::Table(m) => n > 0 && forall|k: Seq<char>|
            m.contains_key(k) ==> data_depth_le(#[trigger] m[k], (n - 1) as nat),
    }
}

/// Whether every value of a document nests no deeper than `n` levels.
pub open spec fn doc_depth_le(m: Map<Seq<char>, TomlData>, n: nat) -> bool {
    forall|k: Seq<char>| m.contains_key(k) ==> data_depth_le(#[trigger] m[k], n)
}

/// Inserting a shallow-enough value keeps a document shallow enough.
pub proof fn lemma_doc_depth_insert(m: Map<Seq<char>, TomlData>, k: Seq<char>, v: TomlData, n: nat)
    requires
        doc_depth_le(m, n),
        data_depth_le(v, n),
    ensures
        doc_depth_le(m.insert(k, v), n),
{
    assert forall|k2: Seq<char>| m.insert(k, v).contains_key(k2) implies data_depth_le(
        #[trigger] m.insert(k, v)[k2],
        n,
    ) by {
        if k2 != k {
            assert(m.contains_key(k2));
        }
    }
}

/// Relies on `toml::from_str`: parses a text as a TOML document, returning
/// its top-level table; fails exactly when the text is not valid TOML.
/// The parse error carries only diagnostics, which no caller reads.
#[verifier::external_body]
pub(crate) fn parse_toml(s: &str) -> (r: Option<toml::map::Map<String, toml::Value>>)
    ensures
        match r {
            Some(t) => toml_parse(s@) == Some(table_data(t)),
            None => toml_parse(s@) is None,
        },
{
    toml::from_str::<toml::map::Map<String, toml::Value>>(s).ok()
}

/// Relies on `toml::to_string_pretty`: renders a table as TOML text.
/// Rendering a string-keyed table of TOML values has no failure path in
/// the serializer, so it succeeds; and parsing the rendered text yields
/// a table holding the same data. The parser refuses documents nested
/// deeper than its recursion limit of 80, so the round trip is claimed
/// only for tables nested well below it.
#[verifier::external_body]
pub(crate) fn render_toml(t: &toml::map::Map<String, toml::Value>) -> (r: Option<String>)
    requires
        doc_depth_le(table_data(*t), 32),
    ensures
        r is Some,
        r matches Some(text) ==> toml_parse(text@) == Some(table_data(*t)),
{
    toml::to_string_pretty(t).ok()
}

/// The model of a table with no entries.
pub open spec fn empty_doc() -> Map<Seq<char>, TomlData> {
    Map::empty()
}

/// Relies on `toml::map::Map::new`: the new table is empty.
#[verifier::external_body]
pub(crate) fn table_new() -> (t: toml::map::Map<String, toml::Value>)
    ensures
        table_data(t) == empty_doc(),
{
    toml::map::Map::new()
}

/// Relies on `toml::map::Map::insert`: maps `k` to `v`, leaving the other
/// entries as they were.
#[verifier::external_body]
pub(crate) fn table_insert(t: &mut toml::map::Map<String, toml::Value>, k: &str, v: toml::Value)
    ensures
        table_data(*final(t)) == table_data(*old(t)).insert(k@, value_data(v)),
{
    t.insert(k.to_owned(), v);
}

/// Relies on `toml::map::Map::get`: returns the value at `k`, or `None`
/// when the table has no entry for `k`.
#[verifier::external_body]
pub(crate) fn table_get<'a>(t: &'a toml::map::Map<String, toml::Value>, k: &str) -> (r: Option<
    &'a toml::Value,
>)
    ensures
        match r {
            Some(v) => table_data(*t).contains_key(k@) && value_data(*v) == table_data(*t)[k@],
            None => !table_data(*t).contains_key(k@),
        },
{
    t.get(k)
}

/// Relies on `toml::map::Map::iter` (and `Clone`): yields every entry of
/// the table exactly once.
#[verifier::external_body]
pub(crate) fn table_entries(t: &toml::map::Map<String, toml::Value>) -> (r: Vec<
    (String, toml::Value),
>)
    ensures
        forall|i: int, j: int| 0 <= i < j < r@.len() ==> r@[i].0@ != r@[j].0@,
        forall|i: int|
            0 <= i < r@.len() ==> table_data(*t).contains_key(#[trigger] (r@[i].0)@) && value_data(
                r@[i].1,
            ) == table_data(*t)[r@[i].0@],
        table_data(*t).dom() == r@.map_values(|p: (String, toml::Value)| p.0@).to_set(),
{
    t.iter().map(|(k, v)| (k.clone(), v.clone())).collect()
}

/// Relies on `toml::Value::String`: the value holds exactly `s`.
#[verifier::external_body]
pub(crate) fn value_text(s: &str) -> (v: toml::Value)
    ensures
        value_data(v) == TomlData::Text(s@),
{
    toml::Value::String(s.to_owned())
}

/// Relies on `toml::Value::Integer`: the value holds exactly `i`.
#[verifier::external_body]
pub(crate) fn value_int(i: i64) -> (v: toml::Value)
    ensures
        value_data(v) == TomlData::Int(i),
{
    toml::Value::Integer(i)
}

/// Relies on `toml::Value::Array`: the value holds exactly `items`.
#[verifier::external_body]
pub(crate) fn value_list(items: Vec<toml::Value>) -> (v: toml::Value)
    ensures
        value_data(v) == TomlData::List(list_data(items@)),
{
    toml::Value::Array(items)
}

/// Relies on `toml::Value::Table`: the value holds exactly `t`.
#[verifier::external_body]
pub(crate) fn value_table(t: toml::map::Map<String, toml::Value>) -> (v: toml::Value)
    ensures
        value_data(v) == TomlData::Table(table_data(t)),
{
    toml::Value::Table(t)
}

/// Relies on `toml::Value::as_str`: returns the held string, or `None`
/// when the value is not a TOML string.
#[verifier::external_body]
pub(crate) fn value_as_text(v: &toml::Value) -> (r: Option<String>)
    ensures
        match r {
            Some(s) => value_data(*v) == TomlData::Text(s@),
            None => !(value_data(*v) is Text),
        },
{
    v.as_str().map(str::to_owned)
}

/// Relies on `toml::Value::as_integer`: returns the held integer, or
/// `None` when the value is not a TOML integer.
#[verifier::external_body]
pub(crate) fn value_as_int(v: &toml::Value) -> (r: Option<i64>)
    ensures
        match r {
            Some(i) => value_data(*v) == TomlData::Int(i),
            None => !(value_data(*v) is Int),
        },
{
    v.as_integer()
}

/// Relies on `toml::Value::as_table`: returns the held table, or `None`
/// when the value is not a TOML table.
#[verifier::external_body]
pub(crate) fn value_as_table<'a>(v: &'a toml::Value) -> (r: Option<
    &'a toml::map::Map<String, toml::Value>,
>)
    ensures
        match r {
            Some(t) => value_data(*v) == TomlData::Table(table_data(*t)),
            None => !(value_data(*v) is Table),
        },
{
    v.as_table()
}

/// Relies on `toml::Value::as_array`: returns the held array, or `None`
/// when the value is not a TOML array.
#[verifier::external_body]
pub(crate) fn value_as_list<'a>(v: &'a toml::Value) -> (r: Option<&'a Vec<toml::Value>>)
    ensures
        match r {
            Some(items) => value_data(*v) == TomlData::List(list_data(items@)),
            None => !(value_data(*v) is List),
        },
{
    v.as_array()
}

} // verus!
