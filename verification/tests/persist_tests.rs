use trust::hash::hash64;
use trust::persist::{autosave_due, backup_path_for, dec_string, hex16, recovery_file_name,
    render_file, tmp_file_name};

fn strs(v: &[&str]) -> Vec<String> {
    v.iter().map(|s| s.to_string()).collect()
}

#[test]
fn render_writes_each_line_with_exactly_one_newline() {
    assert_eq!(render_file(&strs(&["alpha", "beta"])), "alpha\nbeta\n");
}

#[test]
fn render_of_empty_buffer_is_empty() {
    assert_eq!(render_file(&strs(&[])), "");
}

#[test]
fn render_keeps_empty_lines() {
    assert_eq!(render_file(&strs(&["", "x", ""])), "\nx\n\n");
}

#[test]
fn fnv1a_of_empty_input_is_the_offset_basis() {
    assert_eq!(hash64(b""), 0xcbf29ce484222325);
}

#[test]
fn fnv1a_known_values() {
    assert_eq!(hash64(b"a"), 0xaf63dc4c8601ec8c);
    assert_eq!(hash64(b"hello"), 0xa430d84680aabd0b);
}

#[test]
fn recovery_name_is_prefix_plus_16_hex_digits_of_the_path_hash() {
    assert_eq!(
        recovery_file_name("/tmp/file.txt"),
        ".trust-recover-5310789be22b712c"
    );
}

#[test]
fn hex16_is_zero_padded() {
    assert_eq!(hex16(0), "0000000000000000");
    assert_eq!(hex16(0x1a2b), "0000000000001a2b");
    assert_eq!(hex16(u64::MAX), "ffffffffffffffff");
}

#[test]
fn backup_path_replaces_the_extension_with_a_tilde() {
    assert_eq!(backup_path_for("foo.txt"), "foo.~");
    assert_eq!(backup_path_for("dir/foo.txt"), "dir/foo.~");
    assert_eq!(backup_path_for("a/b.c.d"), "a/b.c.~");
}

#[test]
fn backup_path_without_extension_appends_one() {
    assert_eq!(backup_path_for("noext"), "noext.~");
    assert_eq!(backup_path_for(".bashrc"), ".bashrc.~");
    assert_eq!(backup_path_for("dir.d/noext"), "dir.d/noext.~");
}

#[test]
fn tmp_name_carries_the_process_id() {
    assert_eq!(tmp_file_name(42), ".trust.tmp.42");
    assert_eq!(dec_string(0), "0");
    assert_eq!(dec_string(90210), "90210");
}

#[test]
fn autosave_fires_only_when_configured_dirty_and_due() {
    assert!(autosave_due(120, true, 120));
    assert!(autosave_due(120, true, 500));
    assert!(!autosave_due(120, true, 119));
    assert!(!autosave_due(120, false, 500));
    assert!(!autosave_due(0, true, 500));
}
