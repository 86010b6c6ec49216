//! The result formatter: how one matched line is written out.

use vstd::prelude::*;
use vstd::string::StringExecFns;
use crate::flags::Flags;

verus! {

/// The character for a decimal digit.
pub open spec fn digit(d: nat) -> char {
    if d == 0 {
        '0'
    } else if d == 1 {
        '1'
    } else if d == 2 {
        '2'
    } else if d == 3 {
        '3'
    } else if d == 4 {
        '4'
    } else if d == 5 {
        '5'
    } else if d == 6 {
        '6'
    } else if d == 7 {
        '7'
    } else if d == 8 {
        '8'
    } else {
        '9'
    }
}

/// A number in decimal notation: its digits from the most significant down,
/// with no leading zero and no sign; zero is the single digit `0`.
pub open spec fn decimal(n: nat) -> Seq<char>
    decreases n,
{
    if n < 10 {
        seq![digit(n)]
    } else {
        decimal(n / 10).push(digit(n % 10))
    }
}

/// The report for a matched line, by the first rule that applies:
/// with `-l`, the file's name alone; with `-n`, the line behind its number,
/// and behind the file's name too where more than one file is searched;
/// otherwise the line, behind the file's name where more than one file is
/// searched. The parts are joined by a colon.
pub open spec fn formatted(
    file_name: Seq<char>,
    line_number: nat,
    line: Seq<char>,
    flags: Flags,
    total_files: nat,
) -> Seq<char> {
    if flags.print_file_names {
        file_name
    } else if flags.line_numbers {
        if total_files > 1 {
            file_name + seq![':'] + decimal(line_number) + seq![':'] + line
        } else {
            decimal(line_number) + seq![':'] + line
        }
    } else {
        if total_files > 1 {
            file_name + seq![':'] + line
        } else {
            line
        }
    }
}

/// The one-character text of a decimal digit.
fn digit_text(d: usize) -> (text: &'static str)
    requires
        d < 10,
    ensures
        text@ == seq![digit(d as nat)],
{
    proof {
        reveal_strlit("0");
        reveal_strlit("1");
        reveal_strlit("2");
        reveal_strlit("3");
        reveal_strlit("4");
        reveal_strlit("5");
        reveal_strlit("6");
        reveal_strlit("7");
        reveal_strlit("8");
        reveal_strlit("9");
    }
    let text = if d == 0 {
        "0"
    } else if d == 1 {
        "1"
    } else if d == 2 {
        "2"
    } else if d == 3 {
        "3"
    } else if d == 4 {
        "4"
    } else if d == 5 {
        "5"
    } else if d == 6 {
        "6"
    } else if d == 7 {
        "7"
    } else if d == 8 {
        "8"
    } else {
        "9"
    };
    assert(text@ =~= seq![digit(d as nat)]);
    text
}

/// Appends a colon to `out`.
fn append_colon(out: &mut String)
    ensures
        final(out)@ == old(out)@ + seq![':'],
{
    proof {
        reveal_strlit(":");
    }
    out.append(":");
    assert(out@ =~= old(out)@ + seq![':']);
}

/// Appends `n` in decimal notation to `out`.
pub fn append_decimal(out: &mut String, n: usize)
    ensures
        final(out)@ == old(out)@ + decimal(n as nat),
    decreases n,
{
    if n >= 10 {
        append_decimal(out, n / 10);
    }
    out.append(digit_text(n % 10));
    assert(out@ =~= old(out)@ + decimal(n as nat));
}

/// Writes out the report for a matched line: `line`, which is line number
/// `line_number` of the file `file_name`, in a search over `total_files` files.
pub fn format_result(
    file_name: &str,
    line_number: usize,
    line: &str,
    flags: &Flags,
    total_files: usize,
) -> (text: String)
    ensures
        text@ == formatted(file_name@, line_number as nat, line@, *flags, total_files as nat),
{
    if flags.print_file_names {
        return String::from_str(file_name);
    }
    let mut text = String::new();
    assert(text@ =~= Seq::<char>::empty());
    if total_files > 1 {
        text.append(file_name);
        append_colon(&mut text);
    }
    if flags.line_numbers {
        append_decimal(&mut text, line_number);
        append_colon(&mut text);
    }
    text.append(line);
    assert(text@ =~= formatted(
        file_name@,
        line_number as nat,
        line@,
        *flags,
        total_files as nat,
    ));
    text
}

} // verus!
