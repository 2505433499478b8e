use trust::editor::Editor;
use trust::theme::{palette_for_mode, Theme};

fn strs(v: &[&str]) -> Vec<String> {
    v.iter().map(|s| s.to_string()).collect()
}

#[test]
fn a_fresh_editor_is_empty_and_clean() {
    let ed = Editor::new();
    assert!(ed.buf.path.is_none());
    assert!(ed.buf.lines.is_empty());
    assert!(!ed.buf.dirty);
    assert_eq!(ed.buf.name(), "(unnamed)");
    assert_eq!(ed.autosave_sec, 120);
    assert!(ed.lr.commands.iter().any(|c| c == "rustfmt"));
}

#[test]
fn delete_range_removes_inclusive_lines() {
    let mut ed = Editor::new();
    ed.append_lines(strs(&["1", "2", "3", "4", "5"]));
    ed.delete_range(2, 4);
    assert_eq!(ed.buf.lines, strs(&["1", "5"]));
    assert!(ed.undo());
    assert_eq!(ed.buf.lines, strs(&["1", "2", "3", "4", "5"]));
}

#[test]
fn insert_lines_inserts_before_the_given_line() {
    let mut ed = Editor::new();
    ed.append_lines(strs(&["a", "d"]));
    ed.insert_lines(2, strs(&["b", "c"]));
    assert_eq!(ed.buf.lines, strs(&["a", "b", "c", "d"]));
    // past the end: clamped to an append
    ed.insert_lines(99, strs(&["e"]));
    assert_eq!(ed.buf.lines, strs(&["a", "b", "c", "d", "e"]));
}

#[test]
fn replace_range_splices_new_content() {
    let mut ed = Editor::new();
    ed.append_lines(strs(&["keep", "old1", "old2", "tail"]));
    ed.replace_range(2, 3, strs(&["new"]));
    assert_eq!(ed.buf.lines, strs(&["keep", "new", "tail"]));
    assert!(ed.undo());
    assert_eq!(ed.buf.lines, strs(&["keep", "old1", "old2", "tail"]));
}

#[test]
fn search_reports_one_based_matching_lines() {
    let mut ed = Editor::new();
    ed.append_lines(strs(&["alpha", "Beta", "gamma beta", "delta"]));
    assert_eq!(ed.search_matches("beta", false), vec![3]);
    assert_eq!(ed.search_matches("beta", true), vec![2, 3]);
    assert!(ed.search_matches("nope", false).is_empty());
}

#[test]
fn buffer_rotation_cycles_through_side_buffers() {
    let mut ed = Editor::new();
    ed.append_lines(strs(&["one"]));
    ed.new_buffer();
    ed.append_lines(strs(&["two"]));
    assert_eq!(ed.others.len(), 1);
    assert!(ed.bnext());
    assert_eq!(ed.buf.lines, strs(&["one"]));
    assert!(ed.bnext());
    assert_eq!(ed.buf.lines, strs(&["two"]));
    assert!(ed.bprev());
    assert_eq!(ed.buf.lines, strs(&["one"]));
    // with no side buffers, rotation reports false
    let mut lone = Editor::new();
    assert!(!lone.bnext());
    assert!(!lone.bprev());
}

#[test]
fn load_and_save_bookkeeping() {
    let mut ed = Editor::new();
    ed.load_into("f.txt".to_string(), strs(&["x"]));
    assert_eq!(ed.buf.name(), "f.txt");
    assert!(!ed.buf.dirty);
    ed.append_lines(strs(&["y"]));
    assert!(ed.buf.dirty);
    ed.mark_saved("g.txt".to_string());
    assert_eq!(ed.buf.name(), "g.txt");
    assert!(!ed.buf.dirty);
    ed.load_fresh("missing.txt".to_string());
    assert_eq!(ed.buf.name(), "missing.txt");
    assert!(ed.buf.lines.is_empty());
}

#[test]
fn char_count_counts_terminators() {
    let mut ed = Editor::new();
    ed.append_lines(strs(&["ab", "c"]));
    assert_eq!(ed.buf.char_count(), 5);
    assert_eq!(Editor::new().buf.char_count(), 0);
}

#[test]
fn aliases_resolve_case_insensitively_and_shadow() {
    let mut ed = Editor::new();
    assert!(ed.alias_lookup("pl").is_none());
    ed.add_alias("PL", "print 1-5");
    assert_eq!(ed.alias_lookup("pl").as_deref(), Some("print 1-5"));
    assert_eq!(ed.alias_lookup("PL").as_deref(), Some("print 1-5"));
    ed.add_alias("pl", "print");
    assert_eq!(ed.alias_lookup("pl").as_deref(), Some("print"));
}

#[test]
fn set_theme_updates_theme_and_input_color() {
    let mut ed = Editor::new();
    ed.set_theme("matrix");
    assert!(matches!(ed.theme, Theme::Matrix));
    assert_eq!(ed.lr.input_color, ed.pal.input);
}

#[test]
fn palettes_are_empty_without_color() {
    let p = palette_for_mode(Theme::Neon, false);
    assert_eq!(p.accent, "");
    assert_eq!(p.input, "");
    let c = palette_for_mode(Theme::Neon, true);
    assert_eq!(c.input, "\x1b[96m");
    assert_eq!(c.title, "\x1b[1;95m");
    let d = palette_for_mode(Theme::Default, true);
    assert_eq!(d.input, "\x1b[97m");
}

#[test]
fn autosave_gate_follows_the_editor_state() {
    let mut ed = Editor::new();
    assert!(!ed.autosave_needed(1000));
    ed.append_lines(strs(&["x"]));
    assert!(ed.autosave_needed(120));
    assert!(!ed.autosave_needed(1));
    ed.autosave_sec = 0;
    assert!(!ed.autosave_needed(100000));
}
