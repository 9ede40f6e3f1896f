//! Loading, rendering and updating the configuration and state documents.
use toml::Table;
use toml::Value;
use vstd::prelude::*;
use crate::document::{
    get_str, insert_entry, new_table, parse_table, parsed_entries, remove_entry, render_table,
    rendered_text, str_entry, str_value, string_value, table_entries,
};

verus! {

/// Why a document could not be loaded.
pub enum LoadError {
    /// There is no file and creating one was not allowed.
    Missing,
    /// The file's text is not a TOML document.
    Malformed,
}

/// Why a theme could not be applied.
pub enum ApplyError {
    /// The theme's document has no `colors` entry.
    MissingColors,
}

/// The document that a file's text gives (`None`: there is no file). A
/// missing file gives the empty document where `create_if_missing` holds.
pub fn load_document(text: Option<String>, create_if_missing: bool) -> (r: Result<Table, LoadError>)
    ensures
        text matches Some(s) ==> (r is Ok <==> parsed_entries(s@) is Some),
        text matches Some(s) ==> (r matches Ok(t) ==> parsed_entries(s@) == Some(table_entries(t))),
        text is Some ==> (r matches Err(e) ==> e is Malformed),
        text matches Some(s) ==> (s@.len() == 0 ==> (r matches Ok(t) && table_entries(t).dom() == Set::<Seq<char>>::empty())),
        text is None && create_if_missing ==> (r matches Ok(t) && table_entries(t).dom() == Set::<Seq<char>>::empty()),
        text is None && !create_if_missing ==> (r matches Err(e) && e is Missing),
{
    match text {
        Some(s) => match parse_table(s.as_str()) {
            Some(t) => Ok(t),
            None => Err(LoadError::Malformed),
        },
        None => if create_if_missing {
            Ok(new_table())
        } else {
            Err(LoadError::Missing)
        },
    }
}

/// The text to write for a document, where it can be rendered.
pub fn render_document(doc: &Table) -> (r: Option<String>)
    ensures
        r is Some <==> rendered_text(table_entries(*doc)) is Some,
        r matches Some(s) ==> rendered_text(table_entries(*doc)) == Some(s@),
{
    render_table(doc)
}

/// The author that a theme records: its `author` string, else `"unknown"`.
pub open spec fn author_of(theme: Map<Seq<char>, Value>) -> Seq<char> {
    match str_entry(theme, "author"@) {
        Some(a) => a,
        None => "unknown"@,
    }
}

/// The target document after a theme is applied: its `colors` entry is the theme's.
pub open spec fn merged_target(target: Map<Seq<char>, Value>, theme: Map<Seq<char>, Value>) -> Map<
    Seq<char>,
    Value,
> {
    target.insert("colors"@, theme["colors"@])
}

/// The state document after a theme is applied: it names the theme and its author.
pub open spec fn recorded_state(
    state: Map<Seq<char>, Value>,
    name: Seq<char>,
    theme: Map<Seq<char>, Value>,
) -> Map<Seq<char>, Value> {
    state.insert("theme"@, str_value(name)).insert("author"@, str_value(author_of(theme)))
}

/// Applies the theme `theme_name`, defined by `theme_doc`: the target's
/// `colors` entry becomes the theme's, and the state records the theme's name
/// and author. Fails, changing nothing, where the theme has no colors.
pub fn apply_theme(target: &mut Table, state: &mut Table, theme_doc: Table, theme_name: &str) -> (r:
    Result<(), ApplyError>)
    ensures
        r is Err <==> !table_entries(theme_doc).contains_key("colors"@),
        r is Err ==> *final(target) == *old(target) && *final(state) == *old(state),
        r is Ok ==> table_entries(*final(target)) == merged_target(table_entries(*old(target)), table_entries(theme_doc)),
        r is Ok ==> table_entries(*final(state)) == recorded_state(table_entries(*old(state)), theme_name@, table_entries(theme_doc)),
        r is Ok ==> str_entry(table_entries(*final(state)), "theme"@) == Some(theme_name@),
        r is Ok ==> str_entry(table_entries(*final(state)), "author"@) == Some(author_of(table_entries(theme_doc))),
{
    let mut theme_doc = theme_doc;
    let ghost theme = table_entries(theme_doc);
    let author = match get_str(&theme_doc, "author") {
        Some(a) => a,
        None => String::from_str("unknown"),
    };
    let colors = match remove_entry(&mut theme_doc, "colors") {
        Some(c) => c,
        None => {
            return Err(ApplyError::MissingColors);
        },
    };
    insert_entry(target, "colors", colors);
    let name_value = string_value(theme_name);
    let author_value = string_value(author.as_str());
    insert_entry(state, "theme", name_value);
    insert_entry(state, "author", author_value);
    proof {
        reveal_strlit("theme");
        reveal_strlit("author");
        let m = table_entries(*state);
        assert("theme"@ != "author"@) by {
            assert("theme"@.len() != "author"@.len());
        }
        assert(m["theme"@] == str_value(theme_name@));
        assert(m["author"@] == str_value(author_of(theme)));
    }
    Ok(())
}

/// The active theme that a state document records, or `"default"`.
pub fn current_theme_name(state: &Table) -> (r: String)
    ensures
        r@ == match str_entry(table_entries(*state), "theme"@) {
            Some(n) => n,
            None => "default"@,
        },
{
    match get_str(state, "theme") {
        Some(n) => n,
        None => String::from_str("default"),
    }
}

/// Applying a theme leaves every entry of the target document but `colors`
/// as it was, present or absent.
pub proof fn lemma_apply_keeps_other_keys(
    target: Map<Seq<char>, Value>,
    theme: Map<Seq<char>, Value>,
    k: Seq<char>,
)
    requires
        k != "colors"@,
    ensures
        merged_target(target, theme).contains_key(k) == target.contains_key(k),
        target.contains_key(k) ==> merged_target(target, theme)[k] == target[k],
{
}

/// Applying a theme leaves every entry of the state document but `theme` and
/// `author` as it was.
pub proof fn lemma_apply_keeps_other_state(
    state: Map<Seq<char>, Value>,
    name: Seq<char>,
    theme: Map<Seq<char>, Value>,
    k: Seq<char>,
)
    requires
        k != "theme"@,
        k != "author"@,
    ensures
        recorded_state(state, name, theme).contains_key(k) == state.contains_key(k),
        state.contains_key(k) ==> recorded_state(state, name, theme)[k] == state[k],
{
}

} // verus!
