//! The switches that configure a search.

use vstd::prelude::*;
use crate::text::to_chars;

verus! {

/// The configuration of a search. It is built once from the tokens given on
/// a command line and only read afterwards.
#[derive(Debug, Clone, Copy, PartialEq, Eq, Structural)]
pub struct Flags {
    /// `-n`: prefix each reported line with its number in its file.
    pub line_numbers: bool,
    /// `-l`: report only the names of the files that hold a matching line.
    pub print_file_names: bool,
    /// `-i`: compare without regard to case.
    pub case_insensitive: bool,
    /// `-v`: report the lines that do not match.
    pub invert_match: bool,
    /// `-x`: a line matches only if the whole line equals the pattern.
    pub match_entire_line: bool,
}

/// The text of the switch with the given letter: a hyphen, then the letter.
pub open spec fn switch(letter: char) -> Seq<char> {
    seq!['-', letter]
}

/// Some token among `tokens` is the switch with the given letter.
pub open spec fn has_switch(tokens: Seq<&str>, letter: char) -> bool {
    exists|i: int| 0 <= i < tokens.len() && (#[trigger] tokens[i])@ == switch(letter)
}

/// The flags that a sequence of tokens stands for. Tokens that are no known
/// switch have no effect.
pub open spec fn flags_of(tokens: Seq<&str>) -> Flags {
    Flags {
        line_numbers: has_switch(tokens, 'n'),
        print_file_names: has_switch(tokens, 'l'),
        case_insensitive: has_switch(tokens, 'i'),
        invert_match: has_switch(tokens, 'v'),
        match_entire_line: has_switch(tokens, 'x'),
    }
}

/// Taking one more token into account adds exactly the switch that this token is.
proof fn lemma_has_switch_step(tokens: Seq<&str>, n: int, letter: char)
    requires
        0 <= n < tokens.len(),
    ensures
        has_switch(tokens.take(n + 1), letter) == (has_switch(tokens.take(n), letter)
            || tokens[n]@ == switch(letter)),
{
    let shorter = tokens.take(n);
    let longer = tokens.take(n + 1);
    if has_switch(longer, letter) {
        let i = choose|i: int| 0 <= i < longer.len() && (#[trigger] longer[i])@ == switch(letter);
        if i < n {
            assert(shorter[i]@ == switch(letter));
        }
    }
    if has_switch(shorter, letter) {
        let i = choose|i: int|
            0 <= i < shorter.len() && (#[trigger] shorter[i])@ == switch(letter);
        assert(longer[i]@ == switch(letter));
    }
    if tokens[n]@ == switch(letter) {
        assert(longer[n]@ == switch(letter));
    }
}

impl Flags {
    /// Reads the flags off a list of tokens: each of `-n`, `-l`, `-i`, `-v`, `-x`
    /// switches its field on wherever it stands in the list, and any other token
    /// is passed over.
    pub fn new(flags: &[&str]) -> (made: Flags)
        ensures
            made == flags_of(flags@),
    {
        let mut made = Flags {
            line_numbers: false,
            print_file_names: false,
            case_insensitive: false,
            invert_match: false,
            match_entire_line: false,
        };
        let count: usize = flags.len();
        let mut n: usize = 0;
        while n < count
            invariant
                n <= count == flags@.len(),
                made == flags_of(flags@.take(n as int)),
            decreases count - n,
        {
            proof {
                lemma_has_switch_step(flags@, n as int, 'n');
                lemma_has_switch_step(flags@, n as int, 'l');
                lemma_has_switch_step(flags@, n as int, 'i');
                lemma_has_switch_step(flags@, n as int, 'v');
                lemma_has_switch_step(flags@, n as int, 'x');
            }
            let token = to_chars(flags[n]);
            if token.len() == 2 && token[0] == '-' {
                let letter = token[1];
                assert(token@ =~= switch(letter));
                if letter == 'n' {
                    made.line_numbers = true;
                } else if letter == 'l' {
                    made.print_file_names = true;
                } else if letter == 'i' {
                    made.case_insensitive = true;
                } else if letter == 'v' {
                    made.invert_match = true;
                } else if letter == 'x' {
                    made.match_entire_line = true;
                }
            }
            n += 1;
        }
        assert(flags@.take(count as int) =~= flags@);
        made
    }
}

} // verus!
