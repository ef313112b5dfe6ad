use crate::git::string_texts;
use vstd::prelude::*;
use vstd::string::*;

verus! {

/// The comparison of a branch with a target relative to their common
/// ancestor.
pub open spec fn branch_range(target: Seq<char>, branch: Seq<char>) -> Seq<char> {
    target + "..."@ + branch
}

/// The first parent of a commit.
pub open spec fn commit_parent(commit: Seq<char>) -> Seq<char> {
    commit + "^"@
}

/// The comparison of a commit with its first parent.
pub open spec fn commit_range(commit: Seq<char>) -> Seq<char> {
    commit + "^.."@ + commit
}

/// The request for the names and statuses of what a branch changed against a
/// target, without rename detection.
pub open spec fn branch_listing_command(target: Seq<char>, branch: Seq<char>) -> Seq<Seq<char>> {
    seq!["diff"@, "--name-status"@, "--no-renames"@, branch_range(target, branch)]
}

/// The request for the names and statuses of what a commit changed against
/// its first parent, without rename detection.
pub open spec fn commit_listing_command(commit: Seq<char>) -> Seq<Seq<char>> {
    seq!["diff"@, "--name-status"@, "--no-renames"@, commit_parent(commit), commit]
}

/// The request for the content of a path at a ref.
pub open spec fn show_command(rev: Seq<char>, path: Seq<char>) -> Seq<Seq<char>> {
    seq!["show"@, rev + ":"@ + path]
}

/// The request for the unified diff of one path over a comparison.
pub open spec fn diff_command(range: Seq<char>, path: Seq<char>) -> Seq<Seq<char>> {
    seq!["diff"@, range, "--"@, path]
}

/// The request that succeeds where a commit is known locally.
pub open spec fn exists_command(commit: Seq<char>) -> Seq<Seq<char>> {
    seq!["cat-file"@, "-e"@, commit]
}

/// The request that fetches a commit by name from the default remote.
pub open spec fn fetch_command(commit: Seq<char>) -> Seq<Seq<char>> {
    seq!["fetch"@, "origin"@, commit]
}

/// The request that switches the working tree to a branch.
pub open spec fn checkout_command(branch: Seq<char>) -> Seq<Seq<char>> {
    seq!["checkout"@, branch]
}

/// The request that clones a source into a directory.
pub open spec fn clone_command(url: Seq<char>, directory: Seq<char>) -> Seq<Seq<char>> {
    seq!["clone"@, url, directory]
}

/// The request for the short name of the remote's symbolic HEAD.
pub open spec fn default_branch_command() -> Seq<Seq<char>> {
    seq!["symbolic-ref"@, "refs/remotes/origin/HEAD"@, "--short"@]
}

/// Where the content of a path goes in an output tree.
pub open spec fn output_path(output_dir: Seq<char>, path: Seq<char>) -> Seq<char> {
    output_dir + "/"@ + path
}

/// Where the diff of a path goes in an output tree.
pub open spec fn diff_path(output_dir: Seq<char>, path: Seq<char>) -> Seq<char> {
    output_dir + "/"@ + path + ".diff"@
}

/// Three texts in a row.
fn join3(a: &str, b: &str, c: &str) -> (joined: String)
    ensures
        joined@ == a@ + b@ + c@,
{
    let mut joined = String::from_str(a);
    joined.append(b);
    joined.append(c);
    joined
}

/// Two arguments in a row.
fn args2(a: String, b: String) -> (args: Vec<String>)
    ensures
        string_texts(args@) == seq![a@, b@],
{
    let mut args: Vec<String> = Vec::new();
    args.push(a);
    args.push(b);
    assert(string_texts(args@) =~= seq![a@, b@]);
    args
}

/// Three arguments in a row.
fn args3(a: String, b: String, c: String) -> (args: Vec<String>)
    ensures
        string_texts(args@) == seq![a@, b@, c@],
{
    let mut args: Vec<String> = Vec::new();
    args.push(a);
    args.push(b);
    args.push(c);
    assert(string_texts(args@) =~= seq![a@, b@, c@]);
    args
}

/// Four arguments in a row.
fn args4(a: String, b: String, c: String, d: String) -> (args: Vec<String>)
    ensures
        string_texts(args@) == seq![a@, b@, c@, d@],
{
    let mut args: Vec<String> = Vec::new();
    args.push(a);
    args.push(b);
    args.push(c);
    args.push(d);
    assert(string_texts(args@) =~= seq![a@, b@, c@, d@]);
    args
}

/// The comparison of a branch with a target relative to their common
/// ancestor.
pub fn branch_range_text(target: &str, branch: &str) -> (range: String)
    ensures
        range@ == branch_range(target@, branch@),
{
    join3(target, "...", branch)
}

/// The comparison of a commit with its first parent.
pub fn commit_range_text(commit: &str) -> (range: String)
    ensures
        range@ == commit_range(commit@),
{
    join3(commit, "^..", commit)
}

/// The request for the names and statuses of what a branch changed against
/// a target.
pub fn branch_listing_args(target: &str, branch: &str) -> (args: Vec<String>)
    ensures
        string_texts(args@) == branch_listing_command(target@, branch@),
{
    args4(
        String::from_str("diff"),
        String::from_str("--name-status"),
        String::from_str("--no-renames"),
        branch_range_text(target, branch),
    )
}

/// The request for the names and statuses of what a commit changed against
/// its first parent.
pub fn commit_listing_args(commit: &str) -> (args: Vec<String>)
    ensures
        string_texts(args@) == commit_listing_command(commit@),
{
    let mut parent = String::from_str(commit);
    parent.append("^");
    let mut args = args4(
        String::from_str("diff"),
        String::from_str("--name-status"),
        String::from_str("--no-renames"),
        parent,
    );
    let ghost before = string_texts(args@);
    args.push(String::from_str(commit));
    assert(string_texts(args@) =~= before.push(commit@));
    assert(string_texts(args@) =~= commit_listing_command(commit@));
    args
}

/// The request for the content of a path at a ref.
pub fn show_args(rev: &str, path: &str) -> (args: Vec<String>)
    ensures
        string_texts(args@) == show_command(rev@, path@),
{
    args2(String::from_str("show"), join3(rev, ":", path))
}

/// The request for the unified diff of one path over a comparison.
pub fn diff_args(range: &str, path: &str) -> (args: Vec<String>)
    ensures
        string_texts(args@) == diff_command(range@, path@),
{
    args4(
        String::from_str("diff"),
        String::from_str(range),
        String::from_str("--"),
        String::from_str(path),
    )
}

/// The request that succeeds where a commit is known locally.
pub fn exists_args(commit: &str) -> (args: Vec<String>)
    ensures
        string_texts(args@) == exists_command(commit@),
{
    args3(String::from_str("cat-file"), String::from_str("-e"), String::from_str(commit))
}

/// The request that fetches a commit by name from the default remote.
pub fn fetch_args(commit: &str) -> (args: Vec<String>)
    ensures
        string_texts(args@) == fetch_command(commit@),
{
    args3(String::from_str("fetch"), String::from_str("origin"), String::from_str(commit))
}

/// The request that switches the working tree to a branch.
pub fn checkout_args(branch: &str) -> (args: Vec<String>)
    ensures
        string_texts(args@) == checkout_command(branch@),
{
    args2(String::from_str("checkout"), String::from_str(branch))
}

/// The request that clones a source into a directory.
pub fn clone_args(url: &str, directory: &str) -> (args: Vec<String>)
    ensures
        string_texts(args@) == clone_command(url@, directory@),
{
    args3(String::from_str("clone"), String::from_str(url), String::from_str(directory))
}

/// The request for the short name of the remote's symbolic HEAD.
pub fn default_branch_args() -> (args: Vec<String>)
    ensures
        string_texts(args@) == default_branch_command(),
{
    args3(
        String::from_str("symbolic-ref"),
        String::from_str("refs/remotes/origin/HEAD"),
        String::from_str("--short"),
    )
}

/// Where the content of a path goes in an output tree.
pub fn output_path_text(output_dir: &str, path: &str) -> (dest: String)
    ensures
        dest@ == output_path(output_dir@, path@),
{
    join3(output_dir, "/", path)
}

/// Where the diff of a path goes in an output tree.
pub fn diff_path_text(output_dir: &str, path: &str) -> (dest: String)
    ensures
        dest@ == diff_path(output_dir@, path@),
{
    let mut dest = join3(output_dir, "/", path);
    dest.append(".diff");
    dest
}

} // verus!
