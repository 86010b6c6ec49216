use grep::Flags;

fn none() -> Flags {
    Flags {
        line_numbers: false,
        print_file_names: false,
        case_insensitive: false,
        invert_match: false,
        match_entire_line: false,
    }
}

#[test]
fn no_tokens_switch_nothing_on() {
    assert_eq!(Flags::new(&[]), none());
}

#[test]
fn each_switch_sets_its_own_field() {
    assert_eq!(Flags::new(&["-n"]), Flags { line_numbers: true, ..none() });
    assert_eq!(Flags::new(&["-l"]), Flags { print_file_names: true, ..none() });
    assert_eq!(Flags::new(&["-i"]), Flags { case_insensitive: true, ..none() });
    assert_eq!(Flags::new(&["-v"]), Flags { invert_match: true, ..none() });
    assert_eq!(Flags::new(&["-x"]), Flags { match_entire_line: true, ..none() });
}

#[test]
fn all_switches_in_any_order() {
    let all = Flags {
        line_numbers: true,
        print_file_names: true,
        case_insensitive: true,
        invert_match: true,
        match_entire_line: true,
    };
    assert_eq!(Flags::new(&["-n", "-l", "-i", "-v", "-x"]), all);
    assert_eq!(Flags::new(&["-x", "-v", "-i", "-l", "-n"]), all);
}

#[test]
fn a_repeated_switch_counts_once() {
    assert_eq!(Flags::new(&["-v", "-v", "-v"]), Flags { invert_match: true, ..none() });
}

#[test]
fn unknown_tokens_are_passed_over() {
    assert_eq!(Flags::new(&["-z", "--n", "n", "-", "", "-nx", "-N", " -n", "-é"]), none());
    assert_eq!(
        Flags::new(&["file.txt", "-i", "-q", "-x"]),
        Flags { case_insensitive: true, match_entire_line: true, ..none() }
    );
}

#[test]
fn flags_can_be_copied_and_shown() {
    let made = Flags::new(&["-n"]);
    let copy = made;
    assert_eq!(made, copy);
    assert!(format!("{:?}", copy).contains("line_numbers: true"));
}
