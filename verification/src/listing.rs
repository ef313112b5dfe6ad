use crate::text::{chars_of, scan_spaces, scan_word, skip_spaces, skip_word, string_of};
use crate::types::{change_views, ChangeView, FileChange, FileStatus};
use vstd::prelude::*;

verus! {

/// The place of the first line feed at or after `i`, or the end.
pub open spec fn line_end(text: Seq<char>, i: int) -> int
    decreases text.len() - i,
{
    if 0 <= i < text.len() && text[i] != '\n' {
        line_end(text, i + 1)
    } else {
        i
    }
}

/// A line ends at or behind its start and within the text.
pub proof fn lemma_line_end_bounds(text: Seq<char>, i: int)
    requires
        0 <= i <= text.len(),
    ensures
        i <= line_end(text, i) <= text.len(),
    decreases text.len() - i,
{
    if i < text.len() && text[i] != '\n' {
        lemma_line_end_bounds(text, i + 1);
    }
}

/// The status that a code stands for: `A` is an addition, `D` a deletion,
/// and every other code counts as a modification.
pub open spec fn status_of_code(code: Seq<char>) -> FileStatus {
    if code == seq!['A'] {
        FileStatus::Added
    } else if code == seq!['D'] {
        FileStatus::Deleted
    } else {
        FileStatus::Modified
    }
}

/// The change that one line records. Its fields are the runs of characters
/// between separators: the first is the code, the second the path. A line
/// with fewer than two fields records nothing.
pub open spec fn line_change(line: Seq<char>) -> Option<ChangeView> {
    let code_from = skip_spaces(line, 0);
    let code_to = skip_word(line, code_from);
    let path_from = skip_spaces(line, code_to);
    let path_to = skip_word(line, path_from);
    if path_from < path_to {
        Some(
            ChangeView {
                path: line.subrange(path_from, path_to),
                status: status_of_code(line.subrange(code_from, code_to)),
            },
        )
    } else {
        None
    }
}

/// The changes recorded by the lines that begin at or after `i`, in the
/// order of the lines. Lines end at a line feed or at the end of the text.
pub open spec fn listed_from(text: Seq<char>, i: int) -> Seq<ChangeView>
    decreases text.len() - i,
{
    if 0 <= i < text.len() {
        let end = line_end(text, i);
        proof {
            lemma_line_end_bounds(text, i);
        }
        let rest = if end < text.len() {
            listed_from(text, end + 1)
        } else {
            Seq::empty()
        };
        match line_change(text.subrange(i, end)) {
            Some(change) => seq![change] + rest,
            None => rest,
        }
    } else {
        Seq::empty()
    }
}

/// The changes that a name-and-status listing records, in the order of its
/// lines.
pub open spec fn listed_changes(text: Seq<char>) -> Seq<ChangeView> {
    listed_from(text, 0)
}

/// The status that a code stands for.
pub fn status_from_code(code: &Vec<char>) -> (status: FileStatus)
    ensures
        status == status_of_code(code@),
{
    if code.len() == 1 && code[0] == 'A' {
        assert(code@ =~= seq!['A']);
        FileStatus::Added
    } else if code.len() == 1 && code[0] == 'D' {
        assert(code@ =~= seq!['D']);
        FileStatus::Deleted
    } else {
        assert(code@ != seq!['A']) by {
            if code@ == seq!['A'] {
                assert(seq!['A'].len() == 1);
                assert(seq!['A'][0] == 'A');
            }
        }
        assert(code@ != seq!['D']) by {
            if code@ == seq!['D'] {
                assert(seq!['D'].len() == 1);
                assert(seq!['D'][0] == 'D');
            }
        }
        FileStatus::Modified
    }
}

/// The characters from `from` up to `to`.
fn copy_range(chars: &Vec<char>, from: usize, to: usize) -> (part: Vec<char>)
    requires
        from <= to <= chars@.len(),
    ensures
        part@ == chars@.subrange(from as int, to as int),
{
    let mut part: Vec<char> = Vec::new();
    let mut k: usize = from;
    while k < to
        invariant
            from <= k <= to <= chars@.len(),
            part@ == chars@.subrange(from as int, k as int),
        decreases to - k,
    {
        part.push(chars[k]);
        k += 1;
        assert(chars@.subrange(from as int, k as int) =~= chars@.subrange(
            from as int,
            k as int - 1,
        ).push(chars@[k as int - 1]));
    }
    assert(chars@.subrange(from as int, from as int) =~= Seq::<char>::empty());
    part
}

/// Reads one line of a listing.
pub fn parse_line(line: &Vec<char>) -> (change: Option<FileChange>)
    ensures
        match change {
            Some(c) => line_change(line@) == Some(c@),
            None => line_change(line@) is None,
        },
{
    let code_from = scan_spaces(line, 0);
    let code_to = scan_word(line, code_from);
    let path_from = scan_spaces(line, code_to);
    let path_to = scan_word(line, path_from);
    if path_from < path_to {
        let code = copy_range(line, code_from, code_to);
        let status = status_from_code(&code);
        let path = string_of(line, path_from, path_to);
        Some(FileChange { path, status })
    } else {
        None
    }
}

/// Reads a name-and-status listing: one change for each line that has at
/// least two fields, in the order of the lines.
pub fn parse_name_status(output: &str) -> (changes: Vec<FileChange>)
    ensures
        change_views(changes@) == listed_changes(output@),
{
    let text = chars_of(output);
    let mut changes: Vec<FileChange> = Vec::new();
    let mut at: usize = 0;
    while at < text.len()
        invariant
            at <= text@.len(),
            listed_changes(text@) == change_views(changes@) + listed_from(text@, at as int),
        decreases text@.len() - at,
    {
        let mut end: usize = at;
        while end < text.len() && text[end] != '\n'
            invariant
                at <= end <= text@.len(),
                line_end(text@, at as int) == line_end(text@, end as int),
            decreases text@.len() - end,
        {
            end += 1;
        }
        let line = copy_range(&text, at, end);
        let ghost before = change_views(changes@);
        let ghost rest = if end < text@.len() {
            listed_from(text@, end as int + 1)
        } else {
            Seq::empty()
        };
        match parse_line(&line) {
            Some(change) => {
                changes.push(change);
                assert(change_views(changes@) =~= before.push(change@));
                assert(before + (seq![change@] + rest) =~= before.push(change@) + rest);
            },
            None => {},
        }
        if end < text.len() {
            at = end + 1;
        } else {
            at = end;
        }
    }
    assert(change_views(changes@) + Seq::<ChangeView>::empty() =~= change_views(changes@));
    changes
}

} // verus!
