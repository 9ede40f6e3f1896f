use altp::cli::{select_mode, Mode};
use altp::store::{apply_theme, current_theme_name, load_document, render_document, ApplyError, LoadError};
use toml::{Table, Value};

fn parse(text: &str) -> Table {
    load_document(Some(text.to_string()), false).ok().unwrap()
}

#[test]
fn load_missing_without_create() {
    assert!(matches!(load_document(None, false), Err(LoadError::Missing)));
}

#[test]
fn load_missing_with_create_is_empty() {
    let doc = load_document(None, true).ok().unwrap();
    assert!(doc.is_empty());
}

#[test]
fn load_empty_text_is_empty_document() {
    let doc = load_document(Some(String::new()), false).ok().unwrap();
    assert!(doc.is_empty());
}

#[test]
fn load_malformed() {
    assert!(matches!(load_document(Some("[[[".to_string()), true), Err(LoadError::Malformed)));
}

#[test]
fn load_parses_entries() {
    let doc = parse("theme = \"Nord\"\n");
    assert_eq!(doc.get("theme").and_then(|v| v.as_str()), Some("Nord"));
}

#[test]
fn apply_replaces_only_colors() {
    let mut target = parse("[font]\nsize = 11\n[colors]\nfg = \"#111\"\n");
    let original = target.clone();
    let mut state = Table::new();
    let theme = parse("author = \"Jane\"\n[colors]\nfg = \"#222\"\n");
    let colors = theme.get("colors").unwrap().clone();
    assert!(apply_theme(&mut target, &mut state, theme, "X").is_ok());
    assert_eq!(target.get("colors"), Some(&colors));
    assert_eq!(target.get("font"), original.get("font"));
    assert_eq!(target.len(), original.len());
    let text = render_document(&target).unwrap();
    let reparsed = parse(&text);
    assert_eq!(reparsed.get("font"), original.get("font"));
}

#[test]
fn apply_inserts_colors_into_empty_target() {
    let mut target = Table::new();
    let mut state = Table::new();
    let theme = parse("[colors]\nbg = \"#000\"\n");
    assert!(apply_theme(&mut target, &mut state, theme, "Dark").is_ok());
    assert!(target.contains_key("colors"));
    assert_eq!(target.len(), 1);
}

#[test]
fn apply_records_name_and_author() {
    let mut target = Table::new();
    let mut state = parse("theme = \"old\"\nextra = 1\n");
    let theme = parse("author = \"Jane\"\n[colors]\nfg = \"#222\"\n");
    apply_theme(&mut target, &mut state, theme, "X").ok().unwrap();
    assert_eq!(state.get("theme"), Some(&Value::String("X".to_string())));
    assert_eq!(state.get("author"), Some(&Value::String("Jane".to_string())));
    assert_eq!(state.get("extra"), Some(&Value::Integer(1)));
}

#[test]
fn apply_without_author_records_unknown() {
    let mut target = Table::new();
    let mut state = Table::new();
    let theme = parse("[colors]\nfg = \"#222\"\n");
    apply_theme(&mut target, &mut state, theme, "Plain").ok().unwrap();
    assert_eq!(state.get("author"), Some(&Value::String("unknown".to_string())));
}

#[test]
fn apply_without_colors_changes_nothing() {
    let mut target = parse("a = 1\n");
    let mut state = parse("theme = \"old\"\n");
    let theme = parse("name = \"Broken\"\n");
    let r = apply_theme(&mut target, &mut state, theme, "Broken");
    assert!(matches!(r, Err(ApplyError::MissingColors)));
    assert_eq!(target, parse("a = 1\n"));
    assert_eq!(state, parse("theme = \"old\"\n"));
}

#[test]
fn current_after_apply_is_applied_name() {
    let mut target = Table::new();
    let mut state = load_document(None, true).ok().unwrap();
    assert_eq!(current_theme_name(&state), "default");
    let theme = parse("[colors]\nfg = \"#222\"\n");
    apply_theme(&mut target, &mut state, theme, "Nord").ok().unwrap();
    let reloaded = parse(&render_document(&state).unwrap());
    assert_eq!(current_theme_name(&reloaded), "Nord");
}

#[test]
fn current_defaults_when_theme_is_not_a_string() {
    assert_eq!(current_theme_name(&parse("theme = 3\n")), "default");
}

#[test]
fn render_of_empty_document() {
    assert_eq!(render_document(&Table::new()).unwrap(), "");
}

#[test]
fn mode_priority() {
    assert!(matches!(select_mode(true, true, Some("x".to_string())), Mode::List));
    assert!(matches!(select_mode(false, true, Some("x".to_string())), Mode::Current));
    assert!(matches!(select_mode(false, false, Some("x".to_string())), Mode::Apply(Some(t)) if t == "x"));
    assert!(matches!(select_mode(false, false, None), Mode::Apply(None)));
}
