use trust::reader::LineReader;

#[test]
fn consecutive_duplicates_are_skipped() {
    let mut lr = LineReader::new();
    lr.remember("open a.txt");
    lr.remember("open a.txt");
    assert_eq!(lr.history.len(), 1);
    assert_eq!(lr.history[0], "open a.txt");
}

#[test]
fn repeated_value_separated_by_another_is_kept() {
    let mut lr = LineReader::new();
    lr.remember("print");
    lr.remember("delete 2");
    lr.remember("print");
    assert_eq!(lr.history.len(), 3);
    assert_eq!(lr.history[0], "print");
    assert_eq!(lr.history[1], "delete 2");
    assert_eq!(lr.history[2], "print");
}

#[test]
fn empty_lines_are_not_recorded() {
    let mut lr = LineReader::new();
    lr.remember("");
    assert_eq!(lr.history.len(), 0);
}

#[test]
fn capacity_800_evicts_oldest() {
    let mut lr = LineReader::new();
    for i in 0..801 {
        lr.remember(&format!("cmd {}", i));
    }
    assert_eq!(lr.history.len(), 800);
    assert_eq!(lr.history[0], "cmd 1");
    assert_eq!(lr.history[799], "cmd 800");
}

#[test]
fn set_commands_replaces_the_registry() {
    let mut lr = LineReader::new();
    lr.set_commands(vec!["open".to_string(), "quit".to_string()]);
    assert_eq!(lr.commands.len(), 2);
    assert_eq!(lr.commands[0], "open");
}
