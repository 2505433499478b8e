use trust::complete::{complete_entries, sort_candidates};
use trust::reader::{Completion, LineReader};

fn reader_with(cmds: &[&str]) -> LineReader {
    let mut lr = LineReader::new();
    lr.set_commands(cmds.iter().map(|s| s.to_string()).collect());
    lr
}

fn entries(list: &[(&str, bool)]) -> Vec<(String, bool)> {
    list.iter().map(|(n, d)| (n.to_string(), *d)).collect()
}

#[test]
fn empty_line_offers_every_command() {
    let lr = reader_with(&["open", "write", "quit"]);
    match lr.complete("") {
        Completion::Candidates(cs) => {
            assert_eq!(cs, vec!["open".to_string(), "write".to_string(), "quit".to_string()]);
        }
        _ => panic!("expected command candidates"),
    }
}

#[test]
fn single_token_filters_commands_by_prefix() {
    let lr = reader_with(&["open", "write", "quit"]);
    match lr.complete("o") {
        Completion::Candidates(cs) => {
            assert_eq!(cs, vec!["open".to_string()]);
        }
        _ => panic!("expected command candidates"),
    }
}

#[test]
fn unmatched_prefix_yields_no_candidates() {
    let lr = reader_with(&["open", "write", "quit"]);
    match lr.complete("x") {
        Completion::Candidates(cs) => assert!(cs.is_empty()),
        _ => panic!("expected command candidates"),
    }
}

#[test]
fn second_token_goes_to_the_filesystem() {
    let lr = reader_with(&["open", "write", "quit", "cd"]);
    match lr.complete("open fo") {
        Completion::Fs { token, dirs_only } => {
            assert_eq!(token, "fo");
            assert!(!dirs_only);
        }
        _ => panic!("expected a filesystem request"),
    }
}

#[test]
fn cd_requests_directories_only() {
    let lr = reader_with(&["open", "cd"]);
    match lr.complete("cd fo") {
        Completion::Fs { token, dirs_only } => {
            assert_eq!(token, "fo");
            assert!(dirs_only);
        }
        _ => panic!("expected a filesystem request"),
    }
}

#[test]
fn trailing_whitespace_completes_a_fresh_token() {
    let lr = reader_with(&["open"]);
    match lr.complete("open ") {
        Completion::Fs { token, dirs_only } => {
            assert_eq!(token, "");
            assert!(!dirs_only);
        }
        _ => panic!("expected a filesystem request"),
    }
}

#[test]
fn fs_candidates_filter_by_prefix() {
    let es = entries(&[("foo.txt", false), ("foobar", true), ("bar.txt", false)]);
    let got = complete_entries(".", "fo", &es, false);
    assert_eq!(got, vec!["foo.txt".to_string(), "foobar/".to_string()]);
}

#[test]
fn dirs_only_filter_drops_files() {
    let es = entries(&[("foo.txt", false), ("foobar", true), ("bar.txt", false)]);
    let got = complete_entries(".", "fo", &es, true);
    assert_eq!(got, vec!["foobar/".to_string()]);
}

#[test]
fn candidates_in_a_subdirectory_carry_the_directory() {
    let es = entries(&[("lib.rs", false), ("main.rs", false)]);
    let got = complete_entries("src", "m", &es, false);
    assert_eq!(got, vec!["src/main.rs".to_string()]);
}

#[test]
fn candidates_come_out_sorted() {
    let es = entries(&[("zeta", false), ("alpha", false), ("mid", true)]);
    let got = complete_entries(".", "", &es, false);
    assert_eq!(got, vec!["alpha".to_string(), "mid/".to_string(), "zeta".to_string()]);
}

#[test]
fn sort_keeps_duplicates() {
    let v = vec!["b".to_string(), "a".to_string(), "b".to_string()];
    let got = sort_candidates(v);
    assert_eq!(got, vec!["a".to_string(), "b".to_string(), "b".to_string()]);
}

#[test]
fn grid_lays_six_candidates_per_row() {
    let opts: Vec<String> = (1..=7).map(|i| format!("c{}", i)).collect();
    let got = trust::complete::render_grid(&opts);
    assert_eq!(got, "c1  c2  c3  c4  c5  c6  \nc7  \n");
    let six: Vec<String> = (1..=6).map(|i| format!("c{}", i)).collect();
    assert_eq!(trust::complete::render_grid(&six), "c1  c2  c3  c4  c5  c6  \n");
    assert_eq!(trust::complete::render_grid(&vec![]), "");
}
