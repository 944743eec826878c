use maach_et::chat::git::{choice_for_lowered, preflight_choice, uncommitted_files, PreflightChoice};

#[test]
fn porcelain_lines_give_paths() {
    let out = " M src/lib.rs\n?? notes.txt\nA  new file.rs\n";
    assert_eq!(
        uncommitted_files(out),
        vec!["src/lib.rs".to_string(), "notes.txt".to_string(), "new file.rs".to_string()]
    );
}

#[test]
fn clean_tree_has_no_paths() {
    assert!(uncommitted_files("").is_empty());
}

#[test]
fn last_line_without_break_and_crlf() {
    assert_eq!(
        uncommitted_files(" D gone.rs\r\n M kept.rs"),
        vec!["gone.rs".to_string(), "kept.rs".to_string()]
    );
}

#[test]
fn answers_map_to_choices() {
    assert_eq!(preflight_choice("y\n"), PreflightChoice::Commit);
    assert_eq!(preflight_choice("  N "), PreflightChoice::Proceed);
    assert_eq!(preflight_choice("X"), PreflightChoice::Exit);
    assert_eq!(preflight_choice("yes"), PreflightChoice::Invalid);
    assert_eq!(preflight_choice(""), PreflightChoice::Invalid);
}

#[test]
fn lowered_answers_are_taken_as_given() {
    assert_eq!(choice_for_lowered("n"), PreflightChoice::Proceed);
    assert_eq!(choice_for_lowered("Y"), PreflightChoice::Invalid);
}

#[test]
fn unterminated_last_line_keeps_its_carriage_return() {
    assert_eq!(uncommitted_files("?? baz\r"), vec!["baz\r".to_string()]);
}
