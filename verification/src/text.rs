//! Character-level text operations: literal substring search and case folding.

use vstd::prelude::*;

verus! {

/// `needle` lies in `hay` as a contiguous run of characters that starts at index `at`.
pub open spec fn occurs_at(hay: Seq<char>, needle: Seq<char>, at: int) -> bool {
    &&& 0 <= at
    &&& at + needle.len() <= hay.len()
    &&& hay.subrange(at, at + needle.len()) == needle
}

/// `needle` lies somewhere in `hay` as a contiguous run of characters.
pub open spec fn is_substring(hay: Seq<char>, needle: Seq<char>) -> bool {
    exists|at: int| occurs_at(hay, needle, at)
}

/// The lower-case form of a text, as `str::to_lowercase` of the standard library
/// computes it. The mapping follows the Unicode tables and is not spelled out here;
/// contracts only rely on its being a function of the text.
pub uninterp spec fn lowercase(s: Seq<char>) -> Seq<char>;

/// Calls `str::to_lowercase`. The contract gives the result its name, `lowercase`
/// of the argument, and claims nothing else about it.
#[verifier::external_body]
pub(crate) fn to_lowercase(s: &str) -> (folded: String)
    ensures
        folded@ == lowercase(s@),
{
    s.to_lowercase()
}

/// The characters of `s`, in order.
pub fn to_chars(s: &str) -> (chars: Vec<char>)
    ensures
        chars@ == s@,
{
    let mut chars: Vec<char> = Vec::new();
    for c in it: s.chars()
        invariant
            it.seq() == s@,
            chars@ == it.seq().take(it.index()),
    {
        chars.push(c);
    }
    chars
}

/// Compares `needle` with the run of `hay` that starts at `at`.
fn occurs_here(hay: &[char], needle: &[char], at: usize) -> (found: bool)
    requires
        at + needle@.len() <= hay@.len(),
    ensures
        found == occurs_at(hay@, needle@, at as int),
{
    let ghost run = hay@.subrange(at as int, at + needle@.len());
    let hay_len: usize = hay.len();
    let needle_len: usize = needle.len();
    let mut k: usize = 0;
    while k < needle_len
        invariant
            k <= needle_len == needle@.len(),
            at + needle_len <= hay_len == hay@.len(),
            run == hay@.subrange(at as int, at + needle_len),
            forall|j: int| 0 <= j < k ==> run[j] == needle@[j],
        decreases needle_len - k,
    {
        if hay[at + k] != needle[k] {
            assert(run[k as int] != needle@[k as int]);
            return false;
        }
        k += 1;
    }
    assert(run =~= needle@);
    true
}

/// Literal substring search on characters: whether `needle` lies somewhere in `hay`.
/// The empty `needle` lies in every `hay`.
pub fn contains_chars(hay: &[char], needle: &[char]) -> (found: bool)
    ensures
        found == is_substring(hay@, needle@),
{
    let hay_len: usize = hay.len();
    if needle.len() > hay_len {
        return false;
    }
    let last: usize = hay_len - needle.len();
    let mut at: usize = 0;
    while at <= last
        invariant
            hay_len == hay@.len(),
            last == hay_len - needle@.len(),
            at <= last + 1,
            forall|j: int| 0 <= j < at ==> !occurs_at(hay@, needle@, j),
        decreases last + 1 - at,
    {
        if occurs_here(hay, needle, at) {
            return true;
        }
        assert(needle@.len() > 0) by {
            if needle@.len() == 0 {
                assert(hay@.subrange(at as int, at as int) =~= needle@);
            }
        }
        at += 1;
    }
    false
}

/// Literal substring search on texts: whether `needle` lies somewhere in `hay`.
pub fn contains(hay: &str, needle: &str) -> (found: bool)
    ensures
        found == is_substring(hay@, needle@),
{
    let hay_chars = to_chars(hay);
    let needle_chars = to_chars(needle);
    contains_chars(hay_chars.as_slice(), needle_chars.as_slice())
}

/// Every text contains the empty text.
pub proof fn lemma_empty_is_substring(hay: Seq<char>)
    ensures
        is_substring(hay, Seq::<char>::empty()),
{
    assert(hay.subrange(0, 0) =~= Seq::<char>::empty());
    assert(occurs_at(hay, Seq::<char>::empty(), 0));
}

} // verus!
