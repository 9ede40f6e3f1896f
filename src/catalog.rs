//! The theme catalog: one entry per theme file, sorted by name without regard to case.
use toml::Table;
use toml::Value;
use vstd::multiset::Multiset;
use vstd::prelude::*;
use vstd::seq_lib::{to_multiset_insert, to_multiset_remove};
use crate::document::{get_str, parse_table, parsed_entries, str_entry, table_entries};
use crate::text::{
    char_vec, find_last_dot, find_last_sep, last_dot, last_sep, lemma_last_dot_bounds,
    lemma_last_sep_bounds, lower_of, lowercase_chars, string_of_range,
};

verus! {

/// A theme: its display name and the file that defines it.
pub struct Theme {
    pub name: String,
    pub path: String,
}

/// The last component of a path.
pub open spec fn file_name_of(path: Seq<char>) -> Seq<char> {
    path.subrange(last_sep(path) + 1, path.len() as int)
}

/// A file name without its final extension.
pub open spec fn stem_of(file: Seq<char>) -> Seq<char> {
    if last_dot(file) < 0 {
        file
    } else {
        file.subrange(0, last_dot(file))
    }
}

/// The name a theme takes from its file.
pub open spec fn name_from_path(path: Seq<char>) -> Seq<char> {
    stem_of(file_name_of(path))
}

/// A theme's name: the document's non-empty `name` string, else the file's name.
pub open spec fn display_name(doc: Map<Seq<char>, Value>, path: Seq<char>) -> Seq<char> {
    match str_entry(doc, "name"@) {
        Some(n) => if n.len() > 0 {
            n
        } else {
            name_from_path(path)
        },
        None => name_from_path(path),
    }
}

/// `a` comes no later than `b` in character order.
pub open spec fn lex_le(a: Seq<char>, b: Seq<char>) -> bool
    decreases a.len(),
{
    if a.len() == 0 {
        true
    } else if b.len() == 0 {
        false
    } else if a[0] != b[0] {
        a[0] < b[0]
    } else {
        lex_le(a.drop_first(), b.drop_first())
    }
}

/// The key by which themes are sorted.
pub open spec fn sort_key(t: Theme) -> Seq<char> {
    lower_of(t.name@)
}

/// Each theme's key is no greater than the next one's.
pub open spec fn sorted_by_name(s: Seq<Theme>) -> bool {
    forall|i: int| 0 <= i < s.len() - 1 ==> lex_le(sort_key(#[trigger] s[i]), sort_key(s[i + 1]))
}

pub proof fn lemma_lex_total(a: Seq<char>, b: Seq<char>)
    ensures
        lex_le(a, b) || lex_le(b, a),
    decreases a.len(),
{
    if a.len() > 0 && b.len() > 0 && a[0] == b[0] {
        lemma_lex_total(a.drop_first(), b.drop_first());
    }
}

/// Whether `a` comes no later than `b` in character order.
pub fn chars_le(a: &Vec<char>, b: &Vec<char>) -> (r: bool)
    ensures
        r == lex_le(a@, b@),
{
    let mut i: usize = 0;
    assert(a@.subrange(0, a@.len() as int) =~= a@);
    assert(b@.subrange(0, b@.len() as int) =~= b@);
    while i < a.len() && i < b.len() && a[i] == b[i]
        invariant
            i <= a.len(),
            i <= b.len(),
            a@.subrange(0, i as int) == b@.subrange(0, i as int),
            lex_le(a@, b@) == lex_le(a@.subrange(i as int, a@.len() as int), b@.subrange(i as int, b@.len() as int)),
        decreases a.len() - i,
    {
        let ghost sa = a@.subrange(i as int, a@.len() as int);
        let ghost sb = b@.subrange(i as int, b@.len() as int);
        assert(sa.drop_first() =~= a@.subrange(i + 1, a@.len() as int));
        assert(sb.drop_first() =~= b@.subrange(i + 1, b@.len() as int));
        assert(a@.subrange(0, i + 1) =~= a@.subrange(0, i as int).push(a@[i as int]));
        assert(b@.subrange(0, i + 1) =~= b@.subrange(0, i as int).push(b@[i as int]));
        i = i + 1;
    }
    let ghost sa = a@.subrange(i as int, a@.len() as int);
    let ghost sb = b@.subrange(i as int, b@.len() as int);
    if i == a.len() {
        true
    } else if i == b.len() {
        false
    } else {
        assert(sa[0] == a@[i as int] && sb[0] == b@[i as int]);
        a[i] < b[i]
    }
}

/// The theme name that a file path gives: the last path component, with
/// either separator, without its final extension.
pub fn get_name_from_path(path: &str) -> (r: String)
    ensures
        r@ == name_from_path(path@),
{
    let cs = char_vec(path);
    let k = find_last_sep(&cs);
    proof {
        lemma_last_sep_bounds(cs@);
    }
    let start: usize = if k == cs.len() {
        0
    } else {
        k + 1
    };
    let d = find_last_dot(&cs, start);
    let ghost file = cs@.subrange(start as int, cs@.len() as int);
    proof {
        lemma_last_dot_bounds(file);
        assert(file == file_name_of(path@));
    }
    let end: usize = start + d;
    let r = string_of_range(&cs, start, end);
    proof {
        if last_dot(file) >= 0 {
            assert(file.subrange(0, last_dot(file)) =~= cs@.subrange(start as int, end as int));
        } else {
            assert(file =~= cs@.subrange(start as int, end as int));
        }
    }
    r
}

/// The catalog entry of a theme file, from its path and its parsed document.
pub fn theme_from_document(path: String, doc: &Table) -> (r: Theme)
    ensures
        r.path@ == path@,
        r.name@ == display_name(table_entries(*doc), path@),
{
    let name = match get_str(doc, "name") {
        Some(n) => if !n.as_str().is_empty() {
            n
        } else {
            get_name_from_path(path.as_str())
        },
        None => get_name_from_path(path.as_str()),
    };
    Theme { name, path }
}

/// The catalog entry that a theme file gives, by its path and its parsed entries.
pub open spec fn entry_of(t: Theme, path: Seq<char>, doc: Map<Seq<char>, Value>) -> bool {
    t.path@ == path && t.name@ == display_name(doc, path)
}

/// `themes` sorted by name without regard to case: the same entries, each
/// key no greater than the next.
pub fn sort_themes(themes: Vec<Theme>) -> (r: Vec<Theme>)
    ensures
        r@.len() == themes@.len(),
        r@.to_multiset() == themes@.to_multiset(),
        sorted_by_name(r@),
{
    broadcast use vstd::multiset::group_multiset_axioms, vstd::seq_lib::group_to_multiset_ensures;

    let ghost orig = themes@;
    let mut rest = themes;
    let mut out: Vec<Theme> = Vec::new();
    let mut keys: Vec<Vec<char>> = Vec::new();
    assert(out@.to_multiset() =~= Multiset::empty());
    assert(out@.to_multiset().add(rest@.to_multiset()) =~= orig.to_multiset());
    while rest.len() > 0
        invariant
            keys@.len() == out@.len(),
            forall|j: int| 0 <= j < out@.len() ==> (#[trigger] keys@[j])@ == sort_key(out@[j]),
            sorted_by_name(out@),
            out@.to_multiset().add(rest@.to_multiset()) == orig.to_multiset(),
            out@.len() + rest@.len() == orig.len(),
        decreases rest.len(),
    {
        proof {
            to_multiset_remove(rest@, 0);
        }
        let ghost before = rest@;
        let t = rest.remove(0);
        assert(before.to_multiset().count(t) > 0) by {
            assert(before[0] == t);
            assert(before.contains(t));
            before.to_multiset_ensures();
        }
        let k = lowercase_chars(t.name.as_str());
        let mut pos: usize = 0;
        let mut done = false;
        while pos < out.len() && !done
            invariant
                pos <= out@.len(),
                keys@.len() == out@.len(),
                forall|j: int| 0 <= j < out@.len() ==> (#[trigger] keys@[j])@ == sort_key(out@[j]),
                forall|j: int| 0 <= j < pos ==> lex_le(sort_key(#[trigger] out@[j]), k@),
                done ==> pos < out@.len() && !lex_le(sort_key(out@[pos as int]), k@),
            decreases out@.len() - pos + (if done { 0int } else { 1int }),
        {
            if chars_le(&keys[pos], &k) {
                pos = pos + 1;
            } else {
                done = true;
            }
        }
        proof {
            if pos < out@.len() {
                lemma_lex_total(sort_key(out@[pos as int]), k@);
            }
            to_multiset_insert(out@, pos as int, t);
        }
        let ghost prev = out@;
        out.insert(pos, t);
        keys.insert(pos, k);
        proof {
            assert forall|i: int| 0 <= i < out@.len() - 1 implies lex_le(
                sort_key(#[trigger] out@[i]),
                sort_key(out@[i + 1]),
            ) by {
                if i + 1 < pos {
                    assert(out@[i] == prev[i] && out@[i + 1] == prev[i + 1]);
                } else if i + 1 == pos {
                    assert(out@[i] == prev[i]);
                } else if i == pos {
                    assert(out@[i + 1] == prev[i]);
                } else {
                    assert(out@[i] == prev[i - 1] && out@[i + 1] == prev[i]);
                    assert(lex_le(sort_key(prev[i - 1]), sort_key(prev[(i - 1) + 1])));
                }
            }
            assert(out@.to_multiset().add(rest@.to_multiset()) =~= orig.to_multiset());
        }
    }
    out
}

/// The catalog of theme files given as (path, text) pairs: `None` exactly
/// where some text is not a TOML document; else one entry per file, sorted by
/// name without regard to case.
pub fn build_catalog(files: &Vec<(String, String)>) -> (r: Option<Vec<Theme>>)
    ensures
        r is None <==> exists|i: int| 0 <= i < files@.len() && (#[trigger] parsed_entries(files@[i].1@)) is None,
        r matches Some(v) ==> v@.len() == files@.len() && sorted_by_name(v@) && exists|u: Seq<Theme>|
            u.len() == files@.len() && (#[trigger] u.to_multiset()) == v@.to_multiset() && forall|i: int|
                0 <= i < u.len() ==> entry_of(#[trigger] u[i], files@[i].0@, parsed_entries(files@[i].1@)->0),
{
    let mut unsorted: Vec<Theme> = Vec::new();
    let mut i: usize = 0;
    while i < files.len()
        invariant
            i <= files@.len(),
            unsorted@.len() == i,
            forall|j: int| 0 <= j < i ==> (#[trigger] parsed_entries(files@[j].1@)) is Some,
            forall|j: int| 0 <= j < i ==> entry_of(#[trigger] unsorted@[j], files@[j].0@, parsed_entries(files@[j].1@)->0),
        decreases files.len() - i,
    {
        let doc = match parse_table(files[i].1.as_str()) {
            Some(d) => d,
            None => {
                return None;
            },
        };
        let t = theme_from_document(files[i].0.clone(), &doc);
        unsorted.push(t);
        i = i + 1;
    }
    let ghost u = unsorted@;
    let v = sort_themes(unsorted);
    assert(u.len() == files@.len() && (#[trigger] u.to_multiset()) == v@.to_multiset() && forall|i: int|
        0 <= i < u.len() ==> entry_of(#[trigger] u[i], files@[i].0@, parsed_entries(files@[i].1@)->0));
    Some(v)
}

/// The names of `themes`, in order, each followed by a line break.
pub open spec fn names_text(themes: Seq<Theme>) -> Seq<char>
    decreases themes.len(),
{
    if themes.len() == 0 {
        Seq::empty()
    } else {
        names_text(themes.drop_last()) + themes.last().name@ + "\n"@
    }
}

/// The listing of a catalog: one name per line, in catalog order.
pub fn theme_list_text(themes: &Vec<Theme>) -> (r: String)
    ensures
        r@ == names_text(themes@),
{
    let mut out = String::new();
    let mut i: usize = 0;
    while i < themes.len()
        invariant
            i <= themes@.len(),
            out@ == names_text(themes@.subrange(0, i as int)),
        decreases themes.len() - i,
    {
        assert(themes@.subrange(0, i + 1).drop_last() =~= themes@.subrange(0, i as int));
        out.append(themes[i].name.as_str());
        out.append("\n");
        i = i + 1;
    }
    assert(themes@.subrange(0, themes@.len() as int) =~= themes@);
    out
}

/// The position of the first theme whose name is exactly `name`.
pub fn find_theme(themes: &Vec<Theme>, name: &str) -> (r: Option<usize>)
    ensures
        match r {
            Some(i) => i < themes@.len() && themes@[i as int].name@ == name@ && forall|j: int|
                0 <= j < i ==> (#[trigger] themes@[j]).name@ != name@,
            None => forall|j: int| 0 <= j < themes@.len() ==> (#[trigger] themes@[j]).name@ != name@,
        },
{
    let wanted = String::from_str(name);
    let mut i: usize = 0;
    while i < themes.len()
        invariant
            i <= themes@.len(),
            wanted@ == name@,
            forall|j: int| 0 <= j < i ==> (#[trigger] themes@[j]).name@ != name@,
        decreases themes.len() - i,
    {
        if themes[i].name == wanted {
            return Some(i);
        }
        i = i + 1;
    }
    None
}

} // verus!
