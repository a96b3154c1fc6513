use tailr::TakeValue::{PlusZero, TakeNum};
use tailr::{get_args, UsageError};

fn names(list: &[&str]) -> Vec<String> {
    list.iter().map(|name| name.to_string()).collect()
}

#[test]
fn default_is_the_last_ten_lines() {
    let args = get_args(names(&["a.txt"]), None, None, false).unwrap();
    assert_eq!(args.files, names(&["a.txt"]));
    assert_eq!(args.lines, TakeNum(-10));
    assert_eq!(args.bytes, None);
    assert!(!args.quiet);
}

#[test]
fn line_count_is_read() {
    let args = get_args(names(&["a.txt", "b.txt"]), Some("+3"), None, true).unwrap();
    assert_eq!(args.files, names(&["a.txt", "b.txt"]));
    assert_eq!(args.lines, TakeNum(3));
    assert_eq!(args.bytes, None);
    assert!(args.quiet);

    let args = get_args(names(&["a.txt"]), Some("4"), None, false).unwrap();
    assert_eq!(args.lines, TakeNum(-4));

    let args = get_args(names(&["a.txt"]), Some("+0"), None, false).unwrap();
    assert_eq!(args.lines, PlusZero);
}

#[test]
fn byte_count_is_read() {
    let args = get_args(names(&["a.txt"]), None, Some("-7"), false).unwrap();
    assert_eq!(args.lines, TakeNum(-10));
    assert_eq!(args.bytes, Some(TakeNum(-7)));

    let args = get_args(names(&["a.txt"]), None, Some("+0"), false).unwrap();
    assert_eq!(args.bytes, Some(PlusZero));
}

#[test]
fn bad_line_count_is_refused() {
    let res = get_args(names(&["a.txt"]), Some("x1"), None, false);
    assert_eq!(res.unwrap_err(), UsageError::InvalidLines);
    let res = get_args(names(&["a.txt"]), Some(""), None, false);
    assert_eq!(res.unwrap_err(), UsageError::InvalidLines);
}

#[test]
fn bad_byte_count_is_refused() {
    let res = get_args(names(&["a.txt"]), None, Some("3.14"), false);
    assert_eq!(res.unwrap_err(), UsageError::InvalidBytes);
}

#[test]
fn lines_with_bytes_are_refused() {
    let res = get_args(names(&["a.txt"]), Some("1"), Some("2"), false);
    assert_eq!(res.unwrap_err(), UsageError::LinesWithBytes);
}

#[test]
fn no_files_are_refused() {
    let res = get_args(Vec::new(), None, None, false);
    assert_eq!(res.unwrap_err(), UsageError::NoFiles);
    let res = get_args(Vec::new(), Some("3"), None, true);
    assert_eq!(res.unwrap_err(), UsageError::NoFiles);
}

#[test]
fn first_fault_is_reported() {
    let res = get_args(Vec::new(), Some("x"), Some("y"), false);
    assert_eq!(res.unwrap_err(), UsageError::InvalidLines);
    let res = get_args(Vec::new(), Some("1"), Some("y"), false);
    assert_eq!(res.unwrap_err(), UsageError::InvalidBytes);
    let res = get_args(Vec::new(), Some("1"), Some("2"), false);
    assert_eq!(res.unwrap_err(), UsageError::LinesWithBytes);
}
