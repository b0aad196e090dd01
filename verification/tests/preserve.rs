use rvi::editor::files::preserve_path;
use rvi::editor::preserve::{
    is_preserve_file_for, newest, newest_first, preserve_file_basename, preserve_listing_line,
    preserve_not_found,
};
use rvi::error::{Error, FileError};

#[test]
fn test_preserve_path_named_file() {
    assert_eq!(preserve_path("/tmp", Some("foo.txt"), 12345), "/tmp/rvi.foo.txt.12345");
}

#[test]
fn test_preserve_path_strips_directory() {
    assert_eq!(
        preserve_path("/tmp", Some("/home/user/projects/bar.rs"), 99),
        "/tmp/rvi.bar.rs.99"
    );
}

#[test]
fn test_preserve_path_unnamed() {
    assert_eq!(preserve_path("/tmp", None, 1), "/tmp/rvi.unnamed.1");
}

#[test]
fn test_preserve_path_empty_string() {
    assert_eq!(preserve_path("/tmp", Some(""), 5), "/tmp/rvi.unnamed.5");
}

#[test]
fn test_preserve_path_custom_directory() {
    assert_eq!(preserve_path("/var/tmp", Some("foo.txt"), 42), "/var/tmp/rvi.foo.txt.42");
}

#[test]
fn preserve_file_matches_only_digit_suffix() {
    assert!(is_preserve_file_for("rvi.foo.txt.123", "foo.txt"));
    assert!(!is_preserve_file_for("rvi.foo.txt.", "foo.txt"));
    assert!(!is_preserve_file_for("rvi.foo.txt.12a", "foo.txt"));
    assert!(!is_preserve_file_for("rvi.foo.txt", "foo.txt"));
    assert!(!is_preserve_file_for("rvi.bar.txt.1", "foo.txt"));
    assert!(!is_preserve_file_for("xvi.foo.txt.1", "foo.txt"));
}

#[test]
fn preserve_file_basename_takes_text_before_last_dot() {
    assert_eq!(preserve_file_basename("rvi.foo.txt.123"), Some("foo.txt".to_string()));
    assert_eq!(preserve_file_basename("rvi.unnamed.7"), Some("unnamed".to_string()));
    assert_eq!(preserve_file_basename("rvi..7"), Some("".to_string()));
    assert_eq!(preserve_file_basename("rvi.foo.txt"), None);
    assert_eq!(preserve_file_basename("rvi.foo."), None);
    assert_eq!(preserve_file_basename("rvi.7"), None);
    assert_eq!(preserve_file_basename("other.foo.1"), None);
}

#[test]
fn preserve_path_names_a_file_it_finds_again() {
    let p = preserve_path("/tmp", Some("/a/b/notes.md"), 31);
    let name = p.strip_prefix("/tmp/").unwrap();
    assert!(is_preserve_file_for(name, "notes.md"));
    assert_eq!(preserve_file_basename(name), Some("notes.md".to_string()));
}

#[test]
fn preserve_listing_line_format() {
    assert_eq!(
        preserve_listing_line("/tmp/rvi.a.1", "a"),
        "  /tmp/rvi.a.1   (original file: a)"
    );
}

#[test]
fn preserve_not_found_message() {
    match preserve_not_found("foo", "/tmp") {
        Error::File(FileError::NotFound(m)) => {
            assert_eq!(m, "No preserve file found for \"foo\" in /tmp")
        }
        _ => panic!("wrong error"),
    }
}

#[test]
fn newest_picks_latest_time_last_among_equals() {
    assert_eq!(newest(&vec![]), None);
    assert_eq!(newest(&vec![5]), Some(0));
    assert_eq!(newest(&vec![3, 9, 4]), Some(1));
    assert_eq!(newest(&vec![9, 2, 9]), Some(2));
}

#[test]
fn newest_first_orders_by_time_stably() {
    assert_eq!(newest_first(&vec![]), Vec::<usize>::new());
    assert_eq!(newest_first(&vec![1, 3, 2]), vec![1, 2, 0]);
    assert_eq!(newest_first(&vec![4, 4, 7, 4]), vec![2, 0, 1, 3]);
}
