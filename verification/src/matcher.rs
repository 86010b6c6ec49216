//! The line matcher: whether one line satisfies the pattern under the flags.

use vstd::prelude::*;
use vstd::string::StringExecFns;
use crate::flags::Flags;
use crate::text::{contains, is_substring, lemma_empty_is_substring, lowercase, to_lowercase};

verus! {

/// The text that is compared in place of `s`: its lower-case form when case is
/// disregarded, `s` itself otherwise.
pub open spec fn folded(s: Seq<char>, flags: Flags) -> Seq<char> {
    if flags.case_insensitive {
        lowercase(s)
    } else {
        s
    }
}

/// Whether `line` matches `pattern` once both stand in the form in which they are
/// compared: equality of the whole line with `-x`, containment otherwise, and
/// the opposite of either with `-v`. The pattern is literal text.
pub open spec fn literal_match(line: Seq<char>, pattern: Seq<char>, flags: Flags) -> bool {
    let base = if flags.match_entire_line {
        line == pattern
    } else {
        is_substring(line, pattern)
    };
    base != flags.invert_match
}

/// Whether `line` is a match for `pattern` under `flags`.
pub open spec fn is_match(line: Seq<char>, pattern: Seq<char>, flags: Flags) -> bool {
    literal_match(folded(line, flags), folded(pattern, flags), flags)
}

/// Judges a line and a pattern that already stand in the form in which they are
/// compared; `flags.case_insensitive` plays no part here.
pub fn match_folded(line: &str, pattern: &str, flags: &Flags) -> (hit: bool)
    ensures
        hit == literal_match(line@, pattern@, *flags),
{
    let base = if flags.match_entire_line {
        let whole_line = String::from_str(line);
        let whole_pattern = String::from_str(pattern);
        whole_line == whole_pattern
    } else {
        contains(line, pattern)
    };
    if flags.invert_match {
        !base
    } else {
        base
    }
}

/// Decides whether `line` is a match for `pattern` under `flags`.
///
/// Without `-x` and `-v` the line matches exactly when it contains the pattern;
/// with `-x` and without `-v`, exactly when it equals the pattern. With `-i`
/// both are brought to lower case before they are compared.
pub fn line_matches(line: &str, pattern: &str, flags: &Flags) -> (hit: bool)
    ensures
        hit == is_match(line@, pattern@, *flags),
        !flags.match_entire_line && !flags.invert_match ==> hit == is_substring(
            folded(line@, *flags),
            folded(pattern@, *flags),
        ),
        flags.match_entire_line && !flags.invert_match ==> hit == (folded(line@, *flags)
            == folded(pattern@, *flags)),
{
    if flags.case_insensitive {
        let lower_line = to_lowercase(line);
        let lower_pattern = to_lowercase(pattern);
        match_folded(lower_line.as_str(), lower_pattern.as_str(), flags)
    } else {
        match_folded(line, pattern, flags)
    }
}

/// Inverting: with every other flag held fixed, a line matches under `-v`
/// exactly when it does not match without it.
pub proof fn lemma_invert_negates(line: Seq<char>, pattern: Seq<char>, flags: Flags)
    ensures
        is_match(line, pattern, Flags { invert_match: true, ..flags }) == !is_match(
            line,
            pattern,
            Flags { invert_match: false, ..flags },
        ),
{
}

/// The empty pattern: where the pattern, in the form in which it is compared, is
/// empty and `-v` is off, every line matches in containment mode, and with `-x`
/// exactly the lines that are empty in that form.
pub proof fn lemma_empty_pattern(line: Seq<char>, pattern: Seq<char>, flags: Flags)
    requires
        !flags.invert_match,
        folded(pattern, flags).len() == 0,
    ensures
        !flags.match_entire_line ==> is_match(line, pattern, flags),
        flags.match_entire_line ==> is_match(line, pattern, flags) == (folded(line, flags).len()
            == 0),
{
    assert(folded(pattern, flags) =~= Seq::<char>::empty());
    lemma_empty_is_substring(folded(line, flags));
    if folded(line, flags).len() == 0 {
        assert(folded(line, flags) =~= folded(pattern, flags));
    }
}

} // verus!
