use entry::errors::EditorError;
use entry::numbers::{parse_decimal, to_decimal};
use entry::utils::{get_directory, get_editor, has_text, join_directory, WhichOutput};

#[test]
fn get_directory_appends_entry_name_to_directory() {
    let directory = get_directory("/a/directory", "note");
    assert_eq!(directory, "/a/directory/note");
}

#[test]
fn get_directory_puts_the_home_directory_for_a_tilde() {
    let directory = get_directory("~/notes", "note");
    assert_eq!(directory, format!("{}/note", shellexpand::tilde("~/notes")));
    assert!(directory.ends_with("/notes/note"));
}

#[test]
fn get_directory_leaves_the_tilde_of_another_user() {
    assert_eq!(get_directory("~other/notes", "note"), "~other/notes/note");
    assert_eq!(get_directory("a/~/b", "n"), "a/~/b/n");
}

#[test]
fn join_directory_puts_a_slash_between() {
    assert_eq!(join_directory("/a/directory", "note"), "/a/directory/note");
    assert_eq!(join_directory("", ""), "/");
    assert_eq!(join_directory("~", "x"), "~/x");
}

#[test]
fn the_editor_of_the_environment_is_taken_first() {
    let found = WhichOutput { success: true, stdout: "/usr/bin/vim\n".to_string() };
    assert_eq!(
        get_editor(Some("nano".to_string()), Some(found)),
        Ok("nano".to_string())
    );
    assert_eq!(get_editor(Some("emacs -nw".to_string()), None), Ok("emacs -nw".to_string()));
}

#[test]
fn vim_is_taken_where_the_environment_names_no_editor() {
    let found = WhichOutput { success: true, stdout: "  /usr/bin/vim\n".to_string() };
    assert_eq!(get_editor(None, Some(found)), Ok("/usr/bin/vim".to_string()));
}

#[test]
fn no_editor_is_determined_without_either() {
    let failed = WhichOutput { success: false, stdout: "/usr/bin/vim\n".to_string() };
    let error = get_editor(None, Some(failed)).unwrap_err();
    assert_eq!(error, EditorError::Undetermined);
    assert_eq!(error.message(), "failed to determine editor");
    assert_eq!(get_editor(None, None), Err(EditorError::Undetermined));
}

#[test]
fn a_text_is_found_in_one_of_the_lines() {
    let lines = vec![
        "first line".to_string(),
        "".to_string(),
        "the needle is here".to_string(),
    ];
    assert!(has_text("needle", &lines));
    assert!(has_text("first", &lines));
    assert!(has_text("", &lines));
    assert!(!has_text("Needle", &lines));
    assert!(!has_text("line first", &lines));
    assert!(!has_text("needle", &vec![]));
    assert!(!has_text("", &vec![]));
}

#[test]
fn numbers_are_written_and_read_in_base_ten() {
    assert_eq!(to_decimal(0), "0");
    assert_eq!(to_decimal(7), "7");
    assert_eq!(to_decimal(15), "15");
    assert_eq!(to_decimal(60), "60");
    assert_eq!(to_decimal(1000), "1000");
    assert_eq!(to_decimal(u32::MAX), "4294967295");
    for n in [0u32, 1, 9, 10, 59, 60, 99, 100, 12345, u32::MAX] {
        assert_eq!(to_decimal(n), n.to_string());
        assert_eq!(parse_decimal(&to_decimal(n)), Some(n));
    }
}

#[test]
fn only_digits_are_read_as_a_number() {
    assert_eq!(parse_decimal("15"), Some(15));
    assert_eq!(parse_decimal("007"), Some(7));
    assert_eq!(parse_decimal(""), None);
    assert_eq!(parse_decimal("+15"), None);
    assert_eq!(parse_decimal("-1"), None);
    assert_eq!(parse_decimal("15 "), None);
    assert_eq!(parse_decimal("1.5"), None);
    assert_eq!(parse_decimal("4294967296"), Some(u32::MAX));
}
