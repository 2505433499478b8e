use trust::reader::LineReader;
use trust::text::{lower, parse_usize, str_contains, str_eq, str_lex_le, starts_with, trim};
use trust::theme::{detect_lang_from_path, digits_for, theme_from_name, Theme};

#[test]
fn trim_removes_ascii_whitespace_at_both_ends() {
    assert_eq!(trim("  hello \t"), "hello");
    assert_eq!(trim("\r\n"), "");
    assert_eq!(trim("inner  space"), "inner  space");
    assert_eq!(trim(""), "");
}

#[test]
fn lower_folds_ascii_letters_only() {
    assert_eq!(lower("MiXeD 42!"), "mixed 42!");
}

#[test]
fn parse_usize_accepts_digits_only() {
    assert_eq!(parse_usize("0"), Some(0));
    assert_eq!(parse_usize("907"), Some(907));
    assert_eq!(parse_usize(""), None);
    assert_eq!(parse_usize("-3"), None);
    assert_eq!(parse_usize("12a"), None);
    assert_eq!(parse_usize("99999999999999999999999"), None);
}

#[test]
fn string_helpers_behave_like_std() {
    assert!(str_eq("abc", "abc"));
    assert!(!str_eq("abc", "abd"));
    assert!(starts_with("foobar", "foo"));
    assert!(!starts_with("fo", "foo"));
    assert!(str_contains("the needle here", "needle"));
    assert!(!str_contains("haystack", "needle"));
    assert!(str_contains("anything", ""));
    assert!(str_lex_le("abc", "abd"));
    assert!(str_lex_le("ab", "abc"));
    assert!(!str_lex_le("b", "a"));
}

#[test]
fn split_words_breaks_on_any_whitespace_run() {
    let w = LineReader::split_words("  open   a.txt\tb ");
    assert_eq!(w, vec!["open".to_string(), "a.txt".to_string(), "b".to_string()]);
    assert!(LineReader::split_words("   ").is_empty());
}

#[test]
fn expand_home_substitutes_the_home_prefix() {
    assert_eq!(LineReader::expand_home("~", "/home/u"), "/home/u");
    assert_eq!(LineReader::expand_home("~/x/y", "/home/u"), "/home/u/x/y");
    assert_eq!(LineReader::expand_home("plain", "/home/u"), "plain");
    assert_eq!(LineReader::expand_home("~other", "/home/u"), "~other");
}

#[test]
fn digits_for_counts_decimal_width() {
    assert_eq!(digits_for(0), 1);
    assert_eq!(digits_for(9), 1);
    assert_eq!(digits_for(10), 2);
    assert_eq!(digits_for(99), 2);
    assert_eq!(digits_for(100), 3);
    assert_eq!(digits_for(12345), 5);
}

#[test]
fn language_is_detected_from_the_extension() {
    let p = |s: &str| Some(s.to_string());
    assert_eq!(detect_lang_from_path(p("main.rs").as_ref()), "rust");
    assert_eq!(detect_lang_from_path(p("dir/main.RS").as_ref()), "rust");
    assert_eq!(detect_lang_from_path(p("x.cpp").as_ref()), "cpp");
    assert_eq!(detect_lang_from_path(p("x.py").as_ref()), "python");
    assert_eq!(detect_lang_from_path(p("x.zsh").as_ref()), "shell");
    assert_eq!(detect_lang_from_path(p("x.ts").as_ref()), "js");
    assert_eq!(detect_lang_from_path(p("x.htm").as_ref()), "html");
    assert_eq!(detect_lang_from_path(p("x.json").as_ref()), "json");
    assert_eq!(detect_lang_from_path(p("x.weird").as_ref()), "plain");
    assert_eq!(detect_lang_from_path(p("noext").as_ref()), "plain");
    assert_eq!(detect_lang_from_path(p(".rs").as_ref()), "plain");
    assert_eq!(detect_lang_from_path(None), "plain");
}

#[test]
fn theme_names_are_case_insensitive_with_a_default() {
    assert!(matches!(theme_from_name("DARK"), Theme::Dark));
    assert!(matches!(theme_from_name("neon"), Theme::Neon));
    assert!(matches!(theme_from_name("Matrix"), Theme::Matrix));
    assert!(matches!(theme_from_name("paper"), Theme::Paper));
    assert!(matches!(theme_from_name("unknown"), Theme::Default));
}

#[test]
fn terminal_width_defaults_to_80_when_unknown() {
    assert_eq!(trust::term::width_or_default(None), 80);
    assert_eq!(trust::term::width_or_default(Some((120, 40))), 120);
}

#[test]
fn editor_expand_path_matches_expand_home() {
    let ed = trust::editor::Editor::new();
    assert_eq!(ed.expand_path("~/notes", "/home/u"), "/home/u/notes");
    assert_eq!(ed.expand_path("rel/p", "/home/u"), "rel/p");
}
