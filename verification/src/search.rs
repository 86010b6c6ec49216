//! The search driver: which reports a search over a list of files yields, in
//! which order, and when the search fails as a whole.
//!
//! Reading files is left to the caller. It can drive a search line by line
//! with [`scan_line`], or hand over what it has read as [`FileText`] values.

use vstd::prelude::*;
use crate::flags::Flags;
use crate::matcher::{is_match, line_matches};
use crate::render::{format_result, formatted};

verus! {

/// A file as its reader delivered it.
#[derive(Debug)]
pub struct FileText {
    /// The name under which the file is reported.
    pub name: String,
    /// The lines that were read, in the order of the file.
    pub lines: Vec<String>,
    /// Whether reading failed: after `lines`, the next read gave an error in
    /// place of a line or of the end of the file. A file that could not be
    /// opened has failed before its first line.
    pub failed: bool,
}

/// What a [`FileText`] stands for.
pub struct FileModel {
    pub name: Seq<char>,
    pub lines: Seq<Seq<char>>,
    pub failed: bool,
}

impl DeepView for FileText {
    type V = FileModel;

    open spec fn deep_view(&self) -> FileModel {
        FileModel { name: self.name@, lines: self.lines.deep_view(), failed: self.failed }
    }
}

/// The failure of a search: the first file at which reading failed.
#[derive(Debug, PartialEq, Eq)]
pub struct ReadFailure {
    /// The position of the file in the list that was searched.
    pub file_index: usize,
    /// The name of the file.
    pub file_name: String,
}

/// What a [`ReadFailure`] stands for.
pub struct FailureModel {
    pub file_index: int,
    pub file_name: Seq<char>,
}

impl DeepView for ReadFailure {
    type V = FailureModel;

    open spec fn deep_view(&self) -> FailureModel {
        FailureModel { file_index: self.file_index as int, file_name: self.file_name@ }
    }
}

/// What to do after one line has been judged.
#[derive(Debug, PartialEq, Eq)]
pub enum Step {
    /// The line is no match: nothing is reported, the scan goes on.
    Skip,
    /// The line is a match: report the entry and go on with the next line.
    Emit(String),
    /// The line is a match and the file needs no further reading: report the
    /// entry and leave the file.
    EmitAndLeave(String),
}

/// Some line among `lines` is a match.
pub open spec fn any_match(lines: Seq<Seq<char>>, pattern: Seq<char>, flags: Flags) -> bool {
    exists|i: int| 0 <= i < lines.len() && is_match(#[trigger] lines[i], pattern, flags)
}

/// The reports for the matching lines among `lines`, one for each, in the order
/// of the lines; the first line has the number 1.
pub open spec fn line_entries(
    name: Seq<char>,
    lines: Seq<Seq<char>>,
    pattern: Seq<char>,
    flags: Flags,
    total_files: nat,
) -> Seq<Seq<char>>
    decreases lines.len(),
{
    if lines.len() == 0 {
        Seq::empty()
    } else {
        let before = line_entries(name, lines.drop_last(), pattern, flags, total_files);
        if is_match(lines.last(), pattern, flags) {
            before.push(formatted(name, lines.len(), lines.last(), flags, total_files))
        } else {
            before
        }
    }
}

/// What one file adds to the results: with `-l`, its name once if any of its
/// lines is a match and nothing if none is; otherwise the report of each
/// matching line.
pub open spec fn file_entries(
    file: FileModel,
    pattern: Seq<char>,
    flags: Flags,
    total_files: nat,
) -> Seq<Seq<char>> {
    if flags.print_file_names {
        if any_match(file.lines, pattern, flags) {
            seq![file.name]
        } else {
            Seq::empty()
        }
    } else {
        line_entries(file.name, file.lines, pattern, flags, total_files)
    }
}

/// Whether the scan of a file runs into its read failure. With `-l` a file is
/// left at its first matching line, so a failure behind that line is never met.
pub open spec fn file_fails(file: FileModel, pattern: Seq<char>, flags: Flags) -> bool {
    file.failed && !(flags.print_file_names && any_match(file.lines, pattern, flags))
}

/// The file at `index` fails and none before it does.
pub open spec fn is_first_failure(
    files: Seq<FileModel>,
    index: int,
    pattern: Seq<char>,
    flags: Flags,
) -> bool {
    &&& 0 <= index < files.len()
    &&& file_fails(files[index], pattern, flags)
    &&& forall|j: int| 0 <= j < index ==> !file_fails(#[trigger] files[j], pattern, flags)
}

/// The entries of the first `count` files, file after file in the order of the
/// list. The number of files that a report is formatted for is that of the
/// whole list.
pub open spec fn entries_of_first(
    files: Seq<FileModel>,
    count: nat,
    pattern: Seq<char>,
    flags: Flags,
) -> Seq<Seq<char>>
    decreases count,
{
    if count == 0 {
        Seq::empty()
    } else {
        entries_of_first(files, (count - 1) as nat, pattern, flags) + file_entries(
            files[count - 1],
            pattern,
            flags,
            files.len(),
        )
    }
}

/// Whether `outcome` is what the search for `pattern` in `files` comes to:
/// the entries of all files where no file fails, and otherwise the first file
/// that fails, with none of the entries.
pub open spec fn search_outcome(
    pattern: Seq<char>,
    flags: Flags,
    files: Seq<FileModel>,
    outcome: Result<Seq<Seq<char>>, FailureModel>,
) -> bool {
    match outcome {
        Ok(entries) => {
            &&& forall|i: int|
                0 <= i < files.len() ==> !file_fails(#[trigger] files[i], pattern, flags)
            &&& entries == entries_of_first(files, files.len(), pattern, flags)
        },
        Err(failure) => {
            &&& is_first_failure(files, failure.file_index, pattern, flags)
            &&& failure.file_name == files[failure.file_index].name
        },
    }
}

/// What the result of a search stands for.
pub open spec fn outcome_model(outcome: Result<Vec<String>, ReadFailure>) -> Result<
    Seq<Seq<char>>,
    FailureModel,
> {
    match outcome {
        Ok(entries) => Ok(entries.deep_view()),
        Err(failure) => Err(failure.deep_view()),
    }
}

/// Judges one line of a file and says what the scan of that file does next.
///
/// A line that is no match is skipped. A matching line is reported as
/// [`format_result`] writes it; with `-l` the report is the file's name and the
/// file is left, so that it is reported once.
pub fn scan_line(
    file_name: &str,
    line_number: usize,
    line: &str,
    pattern: &str,
    flags: &Flags,
    total_files: usize,
) -> (step: Step)
    ensures
        match step {
            Step::Skip => !is_match(line@, pattern@, *flags),
            Step::Emit(entry) => {
                &&& is_match(line@, pattern@, *flags)
                &&& !flags.print_file_names
                &&& entry@ == formatted(
                    file_name@,
                    line_number as nat,
                    line@,
                    *flags,
                    total_files as nat,
                )
            },
            Step::EmitAndLeave(entry) => {
                &&& is_match(line@, pattern@, *flags)
                &&& flags.print_file_names
                &&& entry@ == file_name@
            },
        },
{
    if !line_matches(line, pattern, flags) {
        return Step::Skip;
    }
    let entry = format_result(file_name, line_number, line, flags, total_files);
    if flags.print_file_names {
        Step::EmitAndLeave(entry)
    } else {
        Step::Emit(entry)
    }
}

/// Scans one file and appends its entries to `results`. Returns whether the
/// scan came through without meeting a read failure.
pub fn scan_file(
    file: &FileText,
    pattern: &str,
    flags: &Flags,
    total_files: usize,
    results: &mut Vec<String>,
) -> (intact: bool)
    ensures
        intact == !file_fails(file.deep_view(), pattern@, *flags),
        final(results).deep_view() == old(results).deep_view() + file_entries(
            file.deep_view(),
            pattern@,
            *flags,
            total_files as nat,
        ),
{
    let ghost model = file.deep_view();
    let ghost before = results.deep_view();
    let count: usize = file.lines.len();
    let mut n: usize = 0;
    while n < count
        invariant
            n <= count == file.lines@.len(),
            model == file.deep_view(),
            before == old(results).deep_view(),
            flags.print_file_names ==> results.deep_view() == before && !any_match(
                model.lines.take(n as int),
                pattern@,
                *flags,
            ),
            !flags.print_file_names ==> results.deep_view() == before + line_entries(
                model.name,
                model.lines.take(n as int),
                pattern@,
                *flags,
                total_files as nat,
            ),
        decreases count - n,
    {
        let ghost seen = model.lines.take(n as int);
        let ghost next = model.lines.take(n + 1);
        assert(next.drop_last() =~= seen);
        assert(next.last() == file.lines@[n as int]@);
        let ghost so_far = results.deep_view();
        match scan_line(file.name.as_str(), n + 1, file.lines[n].as_str(), pattern, flags, total_files) {
            Step::Skip => {
                proof {
                    if any_match(next, pattern@, *flags) {
                        let i = choose|i: int|
                            0 <= i < next.len() && is_match(#[trigger] next[i], pattern@, *flags);
                        assert(seen[i] == next[i]);
                    }
                }
            },
            Step::Emit(entry) => {
                results.push(entry);
                assert(results.deep_view() =~= so_far.push(entry@));
            },
            Step::EmitAndLeave(entry) => {
                results.push(entry);
                assert(results.deep_view() =~= so_far.push(entry@));
                assert(so_far.push(entry@) =~= before + seq![model.name]);
                assert(is_match(model.lines[n as int], pattern@, *flags));
                assert(any_match(model.lines, pattern@, *flags));
                return true;
            },
        }
        n += 1;
    }
    assert(model.lines.take(count as int) =~= model.lines);
    assert(before + Seq::<Seq<char>>::empty() =~= before);
    !file.failed
}

/// Searches `files` for the lines that match `pattern` under `flags`.
///
/// The files are scanned in the order given, each from its first line on, and
/// the entries come in that order. The search fails as a whole at the first
/// file whose scan meets a read failure: the entries gathered until then are
/// dropped and no later file is looked at.
pub fn grep(pattern: &str, flags: &Flags, files: &[FileText]) -> (outcome: Result<
    Vec<String>,
    ReadFailure,
>)
    ensures
        search_outcome(pattern@, *flags, files.deep_view(), outcome_model(outcome)),
        outcome is Err <==> exists|i: int|
            0 <= i < files@.len() && file_fails(
                #[trigger] files.deep_view()[i],
                pattern@,
                *flags,
            ),
{
    let ghost models = files.deep_view();
    let total: usize = files.len();
    let mut results: Vec<String> = Vec::new();
    assert(results.deep_view() =~= Seq::<Seq<char>>::empty());
    let mut n: usize = 0;
    while n < total
        invariant
            n <= total == files@.len(),
            models == files.deep_view(),
            forall|j: int| 0 <= j < n ==> !file_fails(#[trigger] models[j], pattern@, *flags),
            results.deep_view() == entries_of_first(models, n as nat, pattern@, *flags),
        decreases total - n,
    {
        assert(models[n as int] == files@[n as int].deep_view());
        let intact = scan_file(&files[n], pattern, flags, total, &mut results);
        if !intact {
            return Err(ReadFailure { file_index: n, file_name: files[n].name.clone() });
        }
        n += 1;
    }
    Ok(results)
}

/// Repeating a search: a search has one outcome. Two searches for the same
/// pattern, under the same flags and over the same files as they were read,
/// give the same entries in the same order, or fail at the same file.
pub proof fn lemma_search_outcome_unique(
    pattern: Seq<char>,
    flags: Flags,
    files: Seq<FileModel>,
    first: Result<Seq<Seq<char>>, FailureModel>,
    second: Result<Seq<Seq<char>>, FailureModel>,
)
    requires
        search_outcome(pattern, flags, files, first),
        search_outcome(pattern, flags, files, second),
    ensures
        first == second,
{
}

/// With `-l`, a file that holds at least one matching line adds exactly one
/// entry, its name, however many of its lines match; a file that holds none
/// adds nothing.
pub proof fn lemma_names_only_one_entry(
    file: FileModel,
    pattern: Seq<char>,
    flags: Flags,
    total_files: nat,
)
    requires
        flags.print_file_names,
    ensures
        any_match(file.lines, pattern, flags) ==> file_entries(file, pattern, flags, total_files)
            == seq![file.name],
        !any_match(file.lines, pattern, flags) ==> file_entries(
            file,
            pattern,
            flags,
            total_files,
        ).len() == 0,
{
}

/// Failing fast: where the scan of some file meets a read failure, the search
/// fails as a whole, at that file or at one before it, and yields no entries.
pub proof fn lemma_failing_file_fails_search(
    pattern: Seq<char>,
    flags: Flags,
    files: Seq<FileModel>,
    index: int,
    outcome: Result<Seq<Seq<char>>, FailureModel>,
)
    requires
        0 <= index < files.len(),
        file_fails(files[index], pattern, flags),
        search_outcome(pattern, flags, files, outcome),
    ensures
        outcome is Err,
        outcome->Err_0.file_index <= index,
{
}

/// A file that could not be opened fails under every pattern and all flags:
/// it has no line at which its scan could end early.
pub proof fn lemma_unopened_file_fails(file: FileModel, pattern: Seq<char>, flags: Flags)
    requires
        file.failed,
        file.lines.len() == 0,
    ensures
        file_fails(file, pattern, flags),
{
}

} // verus!
