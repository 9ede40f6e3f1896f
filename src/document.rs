//! TOML tables as the library sees them: a map from keys to opaque values.
use toml::Table;
use toml::Value;
use vstd::prelude::*;

verus! {

#[verifier::external_type_specification]
#[verifier::external_body]
#[verifier::reject_recursive_types(K)]
#[verifier::reject_recursive_types(V)]
pub struct ExTomlMap<K, V>(toml::map::Map<K, V>);

#[verifier::external_type_specification]
#[verifier::external_body]
pub struct ExTomlValue(toml::Value);

/// The top-level entries of a table, by key.
pub uninterp spec fn table_entries(t: Table) -> Map<Seq<char>, Value>;

/// What `toml::from_str` makes of a text: the entries of the table, or
/// nothing where the text is not a TOML document.
pub uninterp spec fn parsed_entries(text: Seq<char>) -> Option<Map<Seq<char>, Value>>;

/// What `toml::to_string` makes of a table with the given entries.
pub uninterp spec fn rendered_text(m: Map<Seq<char>, Value>) -> Option<Seq<char>>;

/// The TOML string value `Value::String(s)`.
pub uninterp spec fn str_value(s: Seq<char>) -> Value;

/// The string held under `k`, where the entry there is a string.
pub open spec fn str_entry(m: Map<Seq<char>, Value>, k: Seq<char>) -> Option<Seq<char>> {
    if m.contains_key(k) && exists|s: Seq<char>| m[k] == str_value(s) {
        Some(choose|s: Seq<char>| m[k] == str_value(s))
    } else {
        None
    }
}

/// Relies on `toml::from_str::<Table>`: parses a document into its table.
/// The empty text is the empty document.
#[verifier::external_body]
pub fn parse_table(text: &str) -> (r: Option<Table>)
    ensures
        r is Some <==> parsed_entries(text@) is Some,
        r matches Some(t) ==> parsed_entries(text@) == Some(table_entries(t)),
        text@.len() == 0 ==> r is Some,
        r matches Some(t) ==> (text@.len() == 0 ==> table_entries(t).dom() == Set::<Seq<char>>::empty()),
{
    toml::from_str::<Table>(text).ok()
}

/// Relies on `toml::to_string`: the canonical text of a table.
#[verifier::external_body]
pub fn render_table(t: &Table) -> (r: Option<String>)
    ensures
        r is Some <==> rendered_text(table_entries(*t)) is Some,
        r matches Some(s) ==> rendered_text(table_entries(*t)) == Some(s@),
{
    toml::to_string(t).ok()
}

/// Relies on `toml::map::Map::new`: a table with no entries.
#[verifier::external_body]
pub fn new_table() -> (r: Table)
    ensures
        table_entries(r).dom() == Set::<Seq<char>>::empty(),
{
    Table::new()
}

/// Relies on `toml::map::Map::get`: the string under a key, where the value
/// there is `Value::String`.
#[verifier::external_body]
pub fn get_str(t: &Table, k: &str) -> (r: Option<String>)
    ensures
        match r {
            Some(s) => str_entry(table_entries(*t), k@) == Some(s@),
            None => str_entry(table_entries(*t), k@) is None,
        },
{
    match t.get(k) {
        Some(Value::String(s)) => Some(s.clone()),
        _ => None,
    }
}

/// Relies on `toml::map::Map::remove`: takes the entry under a key out.
#[verifier::external_body]
pub fn remove_entry(t: &mut Table, k: &str) -> (r: Option<Value>)
    ensures
        table_entries(*final(t)) == table_entries(*old(t)).remove(k@),
        match r {
            Some(v) => table_entries(*old(t)).contains_key(k@) && v == table_entries(*old(t))[k@],
            None => !table_entries(*old(t)).contains_key(k@),
        },
{
    t.remove(k)
}

/// Relies on `toml::map::Map::insert`: sets the entry under a key.
#[verifier::external_body]
pub fn insert_entry(t: &mut Table, k: &str, v: Value)
    ensures
        table_entries(*final(t)) == table_entries(*old(t)).insert(k@, v),
{
    t.insert(k.to_string(), v);
}

/// Relies on `Value::String`: a string value; distinct strings give distinct values.
#[verifier::external_body]
pub fn string_value(s: &str) -> (r: Value)
    ensures
        r == str_value(s@),
        forall|x: Seq<char>| str_value(x) == r ==> x == s@,
{
    Value::String(s.to_string())
}

} // verus!
