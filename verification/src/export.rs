use crate::command::{
    diff_args, diff_command, diff_path, diff_path_text, output_path, output_path_text, show_args,
    show_command,
};
use crate::git::{string_texts, GitCall};
use crate::types::{change_views, ChangeView, FileChange, FileStatus};
use vstd::prelude::*;

verus! {

/// One request that writes a file into an output tree.
#[derive(Debug)]
pub struct ExportStep {
    /// The operation whose output is written.
    pub args: Vec<String>,
    /// The file that receives it.
    pub dest: String,
}

impl View for ExportStep {
    type V = GitCall;

    open spec fn view(&self) -> GitCall {
        GitCall::QueryToFile { args: string_texts(self.args@), dest: self.dest@ }
    }
}

/// The requests that a sequence of steps stands for, in the same order.
pub open spec fn step_calls(steps: Seq<ExportStep>) -> Seq<GitCall> {
    Seq::new(steps.len(), |i: int| steps[i]@)
}

/// The request that writes the content of a path at `rev` into the output
/// tree.
pub open spec fn content_call(path: Seq<char>, rev: Seq<char>, output_dir: Seq<char>) -> GitCall {
    GitCall::QueryToFile { args: show_command(rev, path), dest: output_path(output_dir, path) }
}

/// The request that writes the diff of a path over `range` beside its
/// content.
pub open spec fn diff_call(path: Seq<char>, range: Seq<char>, output_dir: Seq<char>) -> GitCall {
    GitCall::QueryToFile { args: diff_command(range, path), dest: diff_path(output_dir, path) }
}

/// What exporting one change asks for: the content of an added path; the
/// content and then the diff of a modified path; nothing for a deleted one.
pub open spec fn change_export(
    change: ChangeView,
    rev: Seq<char>,
    range: Seq<char>,
    output_dir: Seq<char>,
) -> Seq<GitCall> {
    match change.status {
        FileStatus::Added => seq![content_call(change.path, rev, output_dir)],
        FileStatus::Modified => seq![
            content_call(change.path, rev, output_dir),
            diff_call(change.path, range, output_dir),
        ],
        FileStatus::Deleted => Seq::empty(),
    }
}

/// What exporting a sequence of changes asks for: the requests of each
/// change, in the order of the changes.
pub open spec fn export_calls(
    changes: Seq<ChangeView>,
    rev: Seq<char>,
    range: Seq<char>,
    output_dir: Seq<char>,
) -> Seq<GitCall>
    decreases changes.len(),
{
    if changes.len() == 0 {
        Seq::empty()
    } else {
        export_calls(changes.drop_last(), rev, range, output_dir) + change_export(
            changes.last(),
            rev,
            range,
            output_dir,
        )
    }
}

/// The steps that export a sequence of changes read at `rev`, the diffs
/// taken over `range`, into the tree under `output_dir`.
pub fn export_steps(changes: &Vec<FileChange>, rev: &str, range: &str, output_dir: &str) -> (steps:
    Vec<ExportStep>)
    ensures
        step_calls(steps@) == export_calls(change_views(changes@), rev@, range@, output_dir@),
{
    let mut steps: Vec<ExportStep> = Vec::new();
    let mut k: usize = 0;
    assert(step_calls(steps@) =~= Seq::<GitCall>::empty());
    assert(change_views(changes@).take(0) =~= Seq::<ChangeView>::empty());
    while k < changes.len()
        invariant
            k <= changes@.len(),
            step_calls(steps@) == export_calls(
                change_views(changes@).take(k as int),
                rev@,
                range@,
                output_dir@,
            ),
        decreases changes@.len() - k,
    {
        let change = &changes[k];
        let ghost before = step_calls(steps@);
        let ghost views = change_views(changes@);
        assert(views.take(k as int + 1).drop_last() =~= views.take(k as int));
        assert(views.take(k as int + 1).last() == change@);
        match change.status {
            FileStatus::Added => {
                steps.push(
                    ExportStep {
                        args: show_args(rev, change.path.as_str()),
                        dest: output_path_text(output_dir, change.path.as_str()),
                    },
                );
                assert(step_calls(steps@) =~= before + change_export(
                    change@,
                    rev@,
                    range@,
                    output_dir@,
                ));
            },
            FileStatus::Modified => {
                steps.push(
                    ExportStep {
                        args: show_args(rev, change.path.as_str()),
                        dest: output_path_text(output_dir, change.path.as_str()),
                    },
                );
                steps.push(
                    ExportStep {
                        args: diff_args(range, change.path.as_str()),
                        dest: diff_path_text(output_dir, change.path.as_str()),
                    },
                );
                assert(step_calls(steps@) =~= before + change_export(
                    change@,
                    rev@,
                    range@,
                    output_dir@,
                ));
            },
            FileStatus::Deleted => {
                assert(step_calls(steps@) =~= before + change_export(
                    change@,
                    rev@,
                    range@,
                    output_dir@,
                ));
            },
        }
        k += 1;
    }
    assert(change_views(changes@).take(changes@.len() as int) =~= change_views(changes@));
    steps
}

} // verus!
