use trust::buffer::Buffer;
use trust::editor::Editor;
use trust::undo::Stack;

fn lines_of(ed: &Editor) -> Vec<String> {
    ed.buf.lines.clone()
}

fn strs(v: &[&str]) -> Vec<String> {
    v.iter().map(|s| s.to_string()).collect()
}

#[test]
fn undo_then_redo_restores_the_pre_undo_lines() {
    let mut ed = Editor::new();
    ed.append_lines(strs(&["one"]));
    ed.append_lines(strs(&["two"]));
    ed.append_lines(strs(&["three"]));
    let before = lines_of(&ed);
    assert!(ed.undo());
    assert!(ed.undo());
    assert!(ed.redo());
    assert!(ed.redo());
    assert_eq!(lines_of(&ed), before);
}

#[test]
fn excess_undos_and_redos_are_noops_and_still_restore() {
    let mut ed = Editor::new();
    ed.append_lines(strs(&["a"]));
    ed.append_lines(strs(&["b"]));
    let before = lines_of(&ed);
    // five undos but only two snapshots: the last three report nothing to undo
    assert!(ed.undo());
    assert!(ed.undo());
    assert!(!ed.undo());
    assert!(!ed.undo());
    assert!(!ed.undo());
    assert!(ed.redo());
    assert!(ed.redo());
    assert!(!ed.redo());
    assert!(!ed.redo());
    assert!(!ed.redo());
    assert_eq!(lines_of(&ed), before);
}

#[test]
fn undo_restores_previous_content() {
    let mut ed = Editor::new();
    ed.append_lines(strs(&["first"]));
    ed.apply_edit(strs(&["replaced"]));
    assert_eq!(lines_of(&ed), strs(&["replaced"]));
    assert!(ed.undo());
    assert_eq!(lines_of(&ed), strs(&["first"]));
    assert!(ed.redo());
    assert_eq!(lines_of(&ed), strs(&["replaced"]));
}

#[test]
fn mutation_clears_redo() {
    let mut ed = Editor::new();
    ed.append_lines(strs(&["x"]));
    ed.append_lines(strs(&["y"]));
    assert!(ed.undo());
    // a fresh mutation forgets the redoable step
    ed.append_lines(strs(&["z"]));
    assert!(!ed.redo());
}

#[test]
fn nothing_to_undo_reports_false_and_changes_nothing() {
    let mut ed = Editor::new();
    assert!(!ed.undo());
    assert!(!ed.redo());
    assert!(lines_of(&ed).is_empty());
}

#[test]
fn stack_keeps_exactly_the_200_most_recent() {
    let mut st = Stack::new();
    for i in 0..205 {
        let mut b = Buffer::new();
        b.lines = strs(&[&format!("snap {}", i)]);
        st.push(&b);
    }
    assert_eq!(st.depth(), 200);
    // the five oldest snapshots were evicted, bottom-first
    assert_eq!(st.st[0].lines, strs(&["snap 5"]));
    assert_eq!(st.st[199].lines, strs(&["snap 204"]));
    let top = st.pop().unwrap();
    assert_eq!(top.lines, strs(&["snap 204"]));
    assert_eq!(st.depth(), 199);
    st.clear();
    assert_eq!(st.depth(), 0);
    assert!(st.pop().is_none());
}

#[test]
fn editor_undo_depth_is_bounded_at_200() {
    let mut ed = Editor::new();
    for i in 0..230 {
        ed.apply_edit(strs(&[&format!("v{}", i)]));
    }
    assert_eq!(ed.undo.depth(), 200);
    // undoing all the way lands on the oldest retained snapshot
    let mut undone = 0;
    while ed.undo() {
        undone += 1;
    }
    assert_eq!(undone, 200);
    assert_eq!(lines_of(&ed), strs(&["v29"]));
}

#[test]
fn dirty_is_set_by_mutations_and_undo() {
    let mut ed = Editor::new();
    assert!(!ed.buf.dirty);
    ed.append_lines(strs(&["a"]));
    assert!(ed.buf.dirty);
    ed.mark_saved("f.txt".to_string());
    assert!(!ed.buf.dirty);
    assert!(ed.undo());
    assert!(ed.buf.dirty);
}
