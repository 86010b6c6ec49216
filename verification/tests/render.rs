use grep::flags::Flags;
use grep::format_result;
use grep::render::append_decimal;

fn decimal(n: usize) -> String {
    let mut out = String::new();
    append_decimal(&mut out, n);
    out
}

#[test]
fn decimal_of_single_digits() {
    let expected = ["0", "1", "2", "3", "4", "5", "6", "7", "8", "9"];
    for (n, text) in expected.iter().enumerate() {
        assert_eq!(decimal(n), *text);
    }
}

#[test]
fn decimal_of_longer_numbers() {
    assert_eq!(decimal(10), "10");
    assert_eq!(decimal(99), "99");
    assert_eq!(decimal(100), "100");
    assert_eq!(decimal(101), "101");
    assert_eq!(decimal(1234567890), "1234567890");
    assert_eq!(decimal(usize::MAX), usize::MAX.to_string());
}

#[test]
fn decimal_is_appended_behind_what_is_there() {
    let mut out = String::from("line ");
    append_decimal(&mut out, 42);
    assert_eq!(out, "line 42");
}

#[test]
fn one_file_plain_is_the_line_itself() {
    assert_eq!(format_result("a.txt", 1, "cats", &Flags::new(&[]), 1), "cats");
}

#[test]
fn two_files_with_line_numbers() {
    assert_eq!(format_result("a.txt", 3, "cats", &Flags::new(&["-n"]), 2), "a.txt:3:cats");
}

#[test]
fn two_files_plain() {
    assert_eq!(format_result("b.txt", 7, "cats", &Flags::new(&[]), 2), "b.txt:cats");
}

#[test]
fn one_file_with_line_numbers() {
    assert_eq!(format_result("a.txt", 12, "cats", &Flags::new(&["-n"]), 1), "12:cats");
}

#[test]
fn names_only_comes_before_every_other_rule() {
    assert_eq!(format_result("a.txt", 3, "cats", &Flags::new(&["-l"]), 1), "a.txt");
    assert_eq!(format_result("a.txt", 3, "cats", &Flags::new(&["-l"]), 2), "a.txt");
    assert_eq!(format_result("a.txt", 3, "cats", &Flags::new(&["-l", "-n"]), 2), "a.txt");
}

#[test]
fn no_file_counts_as_one_file() {
    assert_eq!(format_result("a.txt", 3, "cats", &Flags::new(&[]), 0), "cats");
    assert_eq!(format_result("a.txt", 3, "cats", &Flags::new(&["-n"]), 0), "3:cats");
}

#[test]
fn match_flags_do_not_change_the_format() {
    let flags = Flags::new(&["-i", "-v", "-x"]);
    assert_eq!(format_result("a.txt", 3, "Dogs", &flags, 1), "Dogs");
    assert_eq!(format_result("a.txt", 3, "Dogs", &flags, 3), "a.txt:Dogs");
}

#[test]
fn empty_parts_and_colons_are_kept() {
    assert_eq!(format_result("", 5, "", &Flags::new(&["-n"]), 2), ":5:");
    assert_eq!(format_result("a:b", 5, "c:d", &Flags::new(&["-n"]), 2), "a:b:5:c:d");
    assert_eq!(format_result("ü.txt", 1000, "grüße", &Flags::new(&["-n"]), 2), "ü.txt:1000:grüße");
}
