use git_changes::{AnalysisTarget, ChangeSet, Error, FileStatus, Git, GitChangesProcessor};
use git_changes::processor::base_from;
use git_changes::session::Session;
use std::cell::RefCell;

/// A repository capability that answers from a table and keeps what it was
/// asked and what it wrote.
struct FakeGit {
    answers: Vec<(Vec<String>, Result<String, String>)>,
    default_branch: Result<String, String>,
    missing_branches: Vec<String>,
    clone_fails: bool,
    write_fails_io: bool,
    calls: RefCell<Vec<String>>,
    files: RefCell<Vec<(String, String)>>,
}

impl FakeGit {
    fn new() -> Self {
        FakeGit {
            answers: Vec::new(),
            default_branch: Ok("origin/develop".to_string()),
            missing_branches: Vec::new(),
            clone_fails: false,
            write_fails_io: false,
            calls: RefCell::new(Vec::new()),
            files: RefCell::new(Vec::new()),
        }
    }

    fn answer(mut self, args: &[&str], text: &str) -> Self {
        let key: Vec<String> = args.iter().map(|a| a.to_string()).collect();
        self.answers.push((key, Ok(text.to_string())));
        self
    }

    fn refuse(mut self, args: &[&str], reason: &str) -> Self {
        let key: Vec<String> = args.iter().map(|a| a.to_string()).collect();
        self.answers.push((key, Err(reason.to_string())));
        self
    }

    fn look_up(&self, args: &[&str]) -> Result<String, Error> {
        for (key, answer) in &self.answers {
            if key.len() == args.len() && key.iter().zip(args.iter()).all(|(k, a)| k == a) {
                return match answer {
                    Ok(text) => Ok(text.clone()),
                    Err(reason) => Err(Error::GitCommandError(reason.clone())),
                };
            }
        }
        Err(Error::GitCommandError(format!("unknown request: {}", args.join(" "))))
    }

    fn file(&self, dest: &str) -> Option<String> {
        self.files.borrow().iter().rev().find(|(d, _)| d == dest).map(|(_, c)| c.clone())
    }

    fn calls(&self) -> Vec<String> {
        self.calls.borrow().clone()
    }
}

impl Git for FakeGit {
    fn clone_repo(&self, url: &str) -> Result<(), Error> {
        self.calls.borrow_mut().push(format!("clone {}", url));
        if self.clone_fails {
            Err(Error::GitCommandError("clone refused".to_string()))
        } else {
            Ok(())
        }
    }

    fn get_file_content(&self, ref_name: &str, path: &str) -> Result<Option<String>, Error> {
        self.calls.borrow_mut().push(format!("content {}:{}", ref_name, path));
        let spec = format!("{}:{}", ref_name, path);
        match self.look_up(&["show", spec.as_str()]) {
            Ok(text) => Ok(Some(text)),
            Err(_) => Ok(None),
        }
    }

    fn run_git_command(&self, args: &[&str]) -> Result<String, Error> {
        self.calls.borrow_mut().push(format!("query {}", args.join(" ")));
        self.look_up(args).map(|text| text.trim().to_string())
    }

    fn run_git_command_to_file(&self, args: &[&str], output_file_path: &str) -> Result<(), Error> {
        self.calls.borrow_mut().push(format!("write {} > {}", args.join(" "), output_file_path));
        if self.write_fails_io {
            return Err(Error::IoError(std::io::Error::new(
                std::io::ErrorKind::PermissionDenied,
                "read-only output tree",
            )));
        }
        let text = self.look_up(args)?;
        self.files.borrow_mut().push((output_file_path.to_string(), text));
        Ok(())
    }

    fn checkout_branch(&self, branch: &str) -> Result<(), Error> {
        self.calls.borrow_mut().push(format!("checkout {}", branch));
        if self.missing_branches.iter().any(|b| b == branch) {
            Err(Error::GitCommandError(format!("no branch {}", branch)))
        } else {
            Ok(())
        }
    }

    fn discover_default_branch(&self) -> Result<String, Error> {
        self.calls.borrow_mut().push("default-branch".to_string());
        match &self.default_branch {
            Ok(name) => Ok(name.clone()),
            Err(reason) => Err(Error::GitCommandError(reason.clone())),
        }
    }
}

const LISTING: &str = "D\tdir1/file2.txt\nA\tdir2/file3.txt\nM\tfile1.txt";

const DIFF: &str = "diff --git a/file1.txt b/file1.txt\n--- a/file1.txt\n+++ b/file1.txt\n@@ -1 +1 @@\n-original content\n\\ No newline at end of file\n+modified content\n\\ No newline at end of file\n";

/// A repository in which, on `feature-branch`, `file1.txt` is
/// modified, `dir1/file2.txt` deleted and `dir2/file3.txt` added.
fn feature_repo() -> FakeGit {
    FakeGit::new()
        .answer(&["diff", "--name-status", "--no-renames", "main...feature-branch"], LISTING)
        .answer(&["show", "feature-branch:file1.txt"], "modified content")
        .answer(&["show", "feature-branch:dir2/file3.txt"], "new file content")
        .answer(&["diff", "main...feature-branch", "--", "file1.txt"], DIFF)
        .answer(&["cat-file", "-e", "abc123"], "")
        .answer(&["diff", "--name-status", "--no-renames", "abc123^", "abc123"], LISTING)
        .answer(&["show", "abc123:file1.txt"], "modified content")
        .answer(&["show", "abc123:dir2/file3.txt"], "new file content")
        .answer(&["diff", "abc123^..abc123", "--", "file1.txt"], DIFF)
}

fn status_of(changes: &ChangeSet, path: &str) -> Option<FileStatus> {
    changes.get(path).map(|c| c.status)
}

fn message(e: &Error) -> String {
    match e {
        Error::IoError(inner) => format!("io: {}", inner),
        Error::GitCommandError(text) => format!("git: {}", text),
        Error::TempDirError(text) => format!("temp: {}", text),
    }
}

#[test]
fn test_export_branch_changes() {
    let mut processor =
        git_changes::new("/work/repo", feature_repo()).expect("Failed to create processor");

    let changes = processor
        .export_branch_changes("feature-branch", "main", "/out")
        .expect("Failed to export branch changes");

    assert_eq!(changes.len(), 3, "Should have 3 changed files");

    let git = processor.git();
    assert!(git.file("/out/file1.txt").is_some(), "Modified file should exist");
    assert_eq!(git.file("/out/file1.txt").expect("Failed to read file1.txt"),
        "modified content");
    assert!(git.file("/out/dir2/file3.txt").is_some(), "New file should exist");
    assert_eq!(
        git.file("/out/dir2/file3.txt").expect("Failed to read file3.txt"),
        "new file content"
    );
    assert!(
        git.file("/out/dir1/file2.txt").is_none(),
        "Deleted file should not exist in output"
    );

    let diff_content = git
        .file("/out/file1.txt.diff")
        .expect("Diff file for file1.txt should exist");
    assert!(diff_content.contains("-original content"));
    assert!(diff_content.contains("+modified content"));

    assert!(git.file("/out/dir2/file3.txt.diff").is_none());
    assert!(git.file("/out/dir1/file2.txt.diff").is_none());

    let file1_change = changes.get("file1.txt").expect("file1.txt should be in changes");
    assert!(matches!(file1_change.status, FileStatus::Modified));
    let file2_change = changes
        .get("dir1/file2.txt")
        .expect("dir1/file2.txt should be in changes");
    assert!(matches!(file2_change.status, FileStatus::Deleted));
    let file3_change = changes
        .get("dir2/file3.txt")
        .expect("dir2/file3.txt should be in changes");
    assert!(matches!(file3_change.status, FileStatus::Added));

    assert_eq!(
        git.calls(),
        vec![
            "checkout feature-branch".to_string(),
            "query diff --name-status --no-renames main...feature-branch".to_string(),
            "write show feature-branch:dir2/file3.txt > /out/dir2/file3.txt".to_string(),
            "write show feature-branch:file1.txt > /out/file1.txt".to_string(),
            "write diff main...feature-branch -- file1.txt > /out/file1.txt.diff".to_string(),
        ]
    );
}

#[test]
fn test_list_only_mode_branch() {
    let mut processor =
        git_changes::new("/work/repo", feature_repo()).expect("Failed to create processor");

    let changes = processor
        .list_branch_changes("feature-branch", "main")
        .expect("Failed to list branch changes");

    assert_eq!(changes.len(), 3, "Should have 3 changed files");
    let git = processor.git();
    assert!(
        git.file("/work/repo/file1.txt.diff").is_none(),
        "Diff file should not be created in list_only mode"
    );
    assert!(git.file("/out/file1.txt").is_none());
    assert!(git.file("/out/dir2/file3.txt").is_none());
    assert!(git.files.borrow().is_empty());

    let file1_change = changes.get("file1.txt").expect("file1.txt should be in changes");
    assert!(matches!(file1_change.status, FileStatus::Modified));
    let file2_change = changes
        .get("dir1/file2.txt")
        .expect("dir1/file2.txt should be in changes");
    assert!(matches!(file2_change.status, FileStatus::Deleted));
    let file3_change = changes
        .get("dir2/file3.txt")
        .expect("dir2/file3.txt should be in changes");
    assert!(matches!(file3_change.status, FileStatus::Added));
}

#[test]
fn test_export_commit_changes() {
    let commit_hash_str = "abc123".to_string();
    let mut processor =
        git_changes::new("/work/repo", feature_repo()).expect("Failed to create processor");

    let changes = processor
        .export_commit_changes(&commit_hash_str, "/out")
        .expect("Failed to export commit changes");

    let git = processor.git();
    assert!(git.file("/out/file1.txt").is_some());
    assert_eq!(git.file("/out/file1.txt").expect("Failed to read file1.txt"),
        "modified content");
    assert!(git.file("/out/dir2/file3.txt").is_some());
    assert_eq!(
        git.file("/out/dir2/file3.txt").expect("Failed to read file3.txt"),
        "new file content"
    );
    assert!(git.file("/out/dir1/file2.txt").is_none());

    let diff_content = git
        .file("/out/file1.txt.diff")
        .expect("Diff file for file1.txt should exist for commit changes");
    assert!(diff_content.contains("-original content"));
    assert!(diff_content.contains("+modified content"));

    assert!(git.file("/out/dir2/file3.txt.diff").is_none());
    assert!(git.file("/out/dir1/file2.txt.diff").is_none());

    let file1_change = changes.get("file1.txt").expect("file1.txt should be in changes");
    assert!(matches!(file1_change.status, FileStatus::Modified));
    let file2_change = changes
        .get("dir1/file2.txt")
        .expect("dir1/file2.txt should be in changes");
    assert!(matches!(file2_change.status, FileStatus::Deleted));
    let file3_change = changes
        .get("dir2/file3.txt")
        .expect("dir2/file3.txt should be in changes");
    assert!(matches!(file3_change.status, FileStatus::Added));

    assert_eq!(
        git.calls(),
        vec![
            "query cat-file -e abc123".to_string(),
            "query diff --name-status --no-renames abc123^ abc123".to_string(),
            "write show abc123:dir2/file3.txt > /out/dir2/file3.txt".to_string(),
            "write show abc123:file1.txt > /out/file1.txt".to_string(),
            "write diff abc123^..abc123 -- file1.txt > /out/file1.txt.diff".to_string(),
        ]
    );
}

#[test]
fn local_source_is_not_cloned() {
    for repo in ["/work/repo", ".", "http://example.com/r.git", "ssh://git@host/r", "", "git", "https:/x"] {
        let processor = git_changes::new(repo, FakeGit::new()).expect("local source");
        assert!(processor.git().calls().is_empty(), "{} should not be cloned", repo);
    }
}

#[test]
fn remote_source_is_cloned_once() {
    for repo in ["https://example.com/r.git", "git@example.com:r.git", "https://", "git@"] {
        let processor = git_changes::new(repo, FakeGit::new()).expect("remote source");
        assert_eq!(processor.git().calls(), vec![format!("clone {}", repo)]);
    }
}

#[test]
fn failed_clone_is_the_error() {
    let mut git = FakeGit::new();
    git.clone_fails = true;
    match git_changes::new("https://example.com/r.git", git) {
        Err(e) => assert_eq!(message(&e), "git: clone refused"),
        Ok(_) => panic!("a failed clone must fail"),
    }
    let mut git = FakeGit::new();
    git.clone_fails = true;
    assert!(GitChangesProcessor::new("/local", git).is_ok());
    assert!(GitChangesProcessor::new_from_local(FakeGit::new()).is_ok());
}

#[test]
fn is_remote_by_prefix() {
    assert!(git_changes::processor::is_remote("https://github.com/a/b"));
    assert!(git_changes::processor::is_remote("git@github.com:a/b.git"));
    assert!(!git_changes::processor::is_remote("http://github.com/a/b"));
    assert!(!git_changes::processor::is_remote("/https://"));
    assert!(!git_changes::processor::is_remote("git"));
    assert!(!git_changes::processor::is_remote(""));
    assert!(!git_changes::processor::is_remote("HTTPS://x"));
}

#[test]
fn failed_checkout_ends_the_call() {
    let mut git = feature_repo();
    git.missing_branches.push("feature-branch".to_string());
    let mut processor = git_changes::new("/work/repo", git).expect("processor");
    let e = processor
        .export_branch_changes("feature-branch", "main", "/out")
        .expect_err("checkout fails");
    assert_eq!(message(&e), "git: no branch feature-branch");
    assert_eq!(processor.git().calls(), vec!["checkout feature-branch".to_string()]);
}

#[test]
fn failed_listing_ends_the_call() {
    let git = FakeGit::new().refuse(
        &["diff", "--name-status", "--no-renames", "main...topic"],
        "bad revision",
    );
    let mut processor = git_changes::new("/work/repo", git).expect("processor");
    let e = processor.list_branch_changes("topic", "main").expect_err("listing fails");
    assert_eq!(message(&e), "git: bad revision");
    assert_eq!(processor.git().calls().len(), 2);
}

#[test]
fn discovered_default_branch_is_the_base() {
    let git = FakeGit::new().answer(
        &["diff", "--name-status", "--no-renames", "origin/develop...topic"],
        "A\tnew.txt\n",
    );
    let mut processor = git_changes::new("/work/repo", git).expect("processor");
    let changes = processor.list_changes_from_default_branch("topic").expect("listing");
    assert_eq!(changes.len(), 1);
    assert_eq!(status_of(&changes, "new.txt"), Some(FileStatus::Added));
    assert_eq!(
        processor.git().calls(),
        vec![
            "checkout topic".to_string(),
            "default-branch".to_string(),
            "query diff --name-status --no-renames origin/develop...topic".to_string(),
        ]
    );
}

#[test]
fn undiscovered_default_branch_falls_back_to_origin_main() {
    let mut git = FakeGit::new()
        .answer(&["diff", "--name-status", "--no-renames", "origin/main...topic"], "M\ta.txt")
        .answer(&["show", "topic:a.txt"], "a")
        .answer(&["diff", "origin/main...topic", "--", "a.txt"], "-b\n+a\n");
    git.default_branch = Err("no remote HEAD".to_string());
    let mut processor = git_changes::new("/work/repo", git).expect("processor");

    let listed = processor.list_changes_from_default_branch("topic").expect("listing");
    assert_eq!(status_of(&listed, "a.txt"), Some(FileStatus::Modified));
    assert_eq!(
        processor.git().calls(),
        vec![
            "checkout topic".to_string(),
            "default-branch".to_string(),
            "query diff --name-status --no-renames origin/main...topic".to_string(),
        ]
    );

    let exported = processor
        .export_changes_from_default_branch("topic", "out")
        .expect("export");
    assert_eq!(exported.len(), 1);
    assert_eq!(processor.git().file("out/a.txt"), Some("a".to_string()));
    assert_eq!(processor.git().file("out/a.txt.diff"), Some("-b\n+a\n".to_string()));
    assert_eq!(
        processor.git().calls()[3..].to_vec(),
        vec![
            "checkout topic".to_string(),
            "default-branch".to_string(),
            "query diff --name-status --no-renames origin/main...topic".to_string(),
            "write show topic:a.txt > out/a.txt".to_string(),
            "write diff origin/main...topic -- a.txt > out/a.txt.diff".to_string(),
        ]
    );
}

#[test]
fn first_failed_write_ends_the_export() {
    let git = FakeGit::new()
        .answer(
            &["diff", "--name-status", "--no-renames", "main...topic"],
            "A\tone.txt\nM\ttwo.txt\nA\tthree.txt",
        )
        .answer(&["show", "topic:one.txt"], "1")
        .answer(&["show", "topic:two.txt"], "2")
        .refuse(&["diff", "main...topic", "--", "two.txt"], "diff broke");
    let mut processor = git_changes::new("/work/repo", git).expect("processor");
    let e = processor
        .export_branch_changes("topic", "main", "out")
        .expect_err("the diff fails");
    assert_eq!(message(&e), "git: diff broke");
    let git = processor.git();
    assert_eq!(git.file("out/one.txt"), Some("1".to_string()));
    assert_eq!(git.file("out/two.txt"), Some("2".to_string()));
    assert_eq!(git.file("out/two.txt.diff"), None);
    assert_eq!(git.file("out/three.txt"), None);
    assert_eq!(git.calls().len(), 5);
}

#[test]
fn io_error_of_a_write_is_returned() {
    let mut git = feature_repo();
    git.write_fails_io = true;
    let mut processor = git_changes::new("/work/repo", git).expect("processor");
    let e = processor
        .export_commit_changes("abc123", "/out")
        .expect_err("the write fails");
    assert!(matches!(e, Error::IoError(_)));
    assert_eq!(processor.git().calls().len(), 3);
}

#[test]
fn temp_dir_error_of_a_capability_is_returned() {
    struct NoWorkspace;
    impl Git for NoWorkspace {
        fn clone_repo(&self, _url: &str) -> Result<(), Error> {
            Err(Error::TempDirError("no space left".to_string()))
        }
        fn get_file_content(&self, _r: &str, _p: &str) -> Result<Option<String>, Error> {
            Ok(None)
        }
        fn run_git_command(&self, _args: &[&str]) -> Result<String, Error> {
            Ok(String::new())
        }
        fn run_git_command_to_file(&self, _args: &[&str], _dest: &str) -> Result<(), Error> {
            Ok(())
        }
        fn checkout_branch(&self, _branch: &str) -> Result<(), Error> {
            Ok(())
        }
        fn discover_default_branch(&self) -> Result<String, Error> {
            Ok(String::new())
        }
    }
    match git_changes::new("git@host:r.git", NoWorkspace) {
        Err(Error::TempDirError(text)) => assert_eq!(text, "no space left"),
        _ => panic!("the error of the clone must be returned"),
    }
}

#[test]
fn missing_commit_is_fetched() {
    let git = FakeGit::new()
        .refuse(&["cat-file", "-e", "c0ffee"], "not a valid object")
        .answer(&["fetch", "origin", "c0ffee"], "")
        .answer(&["diff", "--name-status", "--no-renames", "c0ffee^", "c0ffee"], "D\tgone.txt");
    let mut processor = git_changes::new("/work/repo", git).expect("processor");
    let changes = processor.list_commit_changes("c0ffee").expect("listing");
    assert_eq!(status_of(&changes, "gone.txt"), Some(FileStatus::Deleted));
    assert_eq!(
        processor.git().calls(),
        vec![
            "query cat-file -e c0ffee".to_string(),
            "query fetch origin c0ffee".to_string(),
            "query diff --name-status --no-renames c0ffee^ c0ffee".to_string(),
        ]
    );
}

#[test]
fn failed_fetch_is_the_error() {
    let git = FakeGit::new()
        .refuse(&["cat-file", "-e", "c0ffee"], "not a valid object")
        .refuse(&["fetch", "origin", "c0ffee"], "no such remote ref");
    let mut processor = git_changes::new("/work/repo", git).expect("processor");
    let e = processor.list_commit_changes("c0ffee").expect_err("fetch fails");
    assert_eq!(message(&e), "git: no such remote ref");
    assert_eq!(processor.git().calls().len(), 2);
}

fn two_commits() -> FakeGit {
    FakeGit::new()
        .answer(&["cat-file", "-e", "c1"], "")
        .answer(&["cat-file", "-e", "c2"], "")
        .answer(&["diff", "--name-status", "--no-renames", "c1^", "c1"], "A\tp.txt\nA\tkept.txt")
        .answer(&["diff", "--name-status", "--no-renames", "c2^", "c2"], "D\tp.txt\nM\tother.txt")
        .answer(&["show", "c1:p.txt"], "p")
        .answer(&["show", "c1:kept.txt"], "kept")
        .answer(&["show", "c2:other.txt"], "other")
        .answer(&["diff", "c2^..c2", "--", "other.txt"], "-x\n+other\n")
}

#[test]
fn later_commit_decides_the_status() {
    let mut processor = git_changes::new("/work/repo", two_commits()).expect("processor");
    let target = GitChangesProcessor::<FakeGit>::resolve_commits(vec![
        "c1".to_string(),
        "c2".to_string(),
    ]);
    let changes = processor.list_changes(&target, None).expect("listing");
    assert_eq!(changes.len(), 3);
    assert_eq!(status_of(&changes, "p.txt"), Some(FileStatus::Deleted));
    assert_eq!(status_of(&changes, "kept.txt"), Some(FileStatus::Added));
    assert_eq!(status_of(&changes, "other.txt"), Some(FileStatus::Modified));
    assert_eq!(
        processor.git().calls(),
        vec![
            "query cat-file -e c1".to_string(),
            "query diff --name-status --no-renames c1^ c1".to_string(),
            "query cat-file -e c2".to_string(),
            "query diff --name-status --no-renames c2^ c2".to_string(),
        ]
    );

    let reversed = GitChangesProcessor::<FakeGit>::resolve_commits(vec![
        "c2".to_string(),
        "c1".to_string(),
    ]);
    let changes = processor.list_changes(&reversed, None).expect("listing");
    assert_eq!(status_of(&changes, "p.txt"), Some(FileStatus::Added));
}

#[test]
fn commits_are_exported_one_after_the_other() {
    let mut processor = git_changes::new("/work/repo", two_commits()).expect("processor");
    let target = AnalysisTarget::Commits(vec!["c1".to_string(), "c2".to_string()]);
    let changes = processor.export_changes(&target, None, "out").expect("export");
    assert_eq!(changes.len(), 3);
    assert_eq!(
        processor.git().calls(),
        vec![
            "query cat-file -e c1".to_string(),
            "query diff --name-status --no-renames c1^ c1".to_string(),
            "write show c1:p.txt > out/p.txt".to_string(),
            "write show c1:kept.txt > out/kept.txt".to_string(),
            "query cat-file -e c2".to_string(),
            "query diff --name-status --no-renames c2^ c2".to_string(),
            "write show c2:other.txt > out/other.txt".to_string(),
            "write diff c2^..c2 -- other.txt > out/other.txt.diff".to_string(),
        ]
    );
}

#[test]
fn no_commits_give_the_empty_mapping() {
    let mut processor = git_changes::new("/work/repo", FakeGit::new()).expect("processor");
    let target = AnalysisTarget::Commits(Vec::new());
    let changes = processor.list_changes(&target, None).expect("listing");
    assert_eq!(changes.len(), 0);
    assert!(changes.is_empty());
    assert!(processor.git().calls().is_empty());
}

#[test]
fn failing_commit_ends_the_run() {
    let git = two_commits().refuse(&["cat-file", "-e", "bad"], "missing").refuse(
        &["fetch", "origin", "bad"],
        "cannot fetch",
    );
    let mut processor = git_changes::new("/work/repo", git).expect("processor");
    let target = AnalysisTarget::Commits(vec![
        "c1".to_string(),
        "bad".to_string(),
        "c2".to_string(),
    ]);
    let e = processor.list_changes(&target, None).expect_err("the second commit fails");
    assert_eq!(message(&e), "git: cannot fetch");
    assert_eq!(processor.git().calls().len(), 4);
}

#[test]
fn resolved_branch_is_checked_out_once() {
    let mut processor = git_changes::new("/work/repo", feature_repo()).expect("processor");
    let target = processor.resolve_branch("feature-branch").expect("checkout");
    match &target {
        AnalysisTarget::Branch(name) => assert_eq!(name, "feature-branch"),
        AnalysisTarget::Commits(_) => panic!("a branch was resolved"),
    }
    let changes = processor.list_changes(&target, Some("main")).expect("listing");
    assert_eq!(changes.len(), 3);
    assert_eq!(
        processor.git().calls(),
        vec![
            "checkout feature-branch".to_string(),
            "query diff --name-status --no-renames main...feature-branch".to_string(),
        ]
    );

    let mut git = FakeGit::new();
    git.missing_branches.push("nope".to_string());
    let mut processor = git_changes::new("/work/repo", git).expect("processor");
    assert!(processor.resolve_branch("nope").is_err());
}

#[test]
fn listing_twice_gives_the_same_mapping() {
    let mut processor = git_changes::new("/work/repo", feature_repo()).expect("processor");
    let first = processor.list_branch_changes("feature-branch", "main").expect("first");
    let second = processor.list_branch_changes("feature-branch", "main").expect("second");
    assert_eq!(first.len(), second.len());
    for change in first.changes() {
        assert_eq!(status_of(&second, &change.path), Some(change.status));
    }
    let calls = processor.git().calls();
    assert_eq!(calls[..2], calls[2..]);
}

#[test]
fn session_asks_for_file_content() {
    let mut session = Session::new(feature_repo());
    let content = session.get_file_content("feature-branch", "file1.txt").expect("content");
    assert_eq!(content, Some("modified content".to_string()));
    let content = session.get_file_content("feature-branch", "dir1/file2.txt").expect("content");
    assert_eq!(content, None);
    assert_eq!(
        session.git().calls(),
        vec![
            "content feature-branch:file1.txt".to_string(),
            "content feature-branch:dir1/file2.txt".to_string(),
        ]
    );
}

#[test]
fn base_is_the_discovered_branch_or_origin_main() {
    assert_eq!(base_from(Ok("origin/master".to_string())), "origin/master");
    assert_eq!(base_from(Err(Error::GitCommandError("no HEAD".to_string()))), "origin/main");
    assert_eq!(base_from(Err(Error::TempDirError(String::new()))), "origin/main");
}

#[test]
fn construction_follows_the_clone() {
    let made = GitChangesProcessor::after_clone(Session::new(FakeGit::new()), Ok(()));
    assert!(made.is_ok());
    let failed = GitChangesProcessor::after_clone(
        Session::new(FakeGit::new()),
        Err(Error::GitCommandError("repository not found".to_string())),
    );
    match failed {
        Err(e) => assert_eq!(message(&e), "git: repository not found"),
        Ok(_) => panic!("the error of the clone must be returned"),
    }
}

#[test]
fn path_listed_as_added_then_deleted_is_not_written() {
    let git = FakeGit::new()
        .answer(&["diff", "--name-status", "--no-renames", "main...topic"], "A\tk\nD\tk")
        .answer(&["show", "topic:k"], "k");
    let mut processor = git_changes::new("/work/repo", git).expect("processor");
    let changes = processor.export_branch_changes("topic", "main", "out").expect("export");
    assert_eq!(changes.len(), 1);
    assert_eq!(status_of(&changes, "k"), Some(FileStatus::Deleted));
    assert!(processor.git().files.borrow().is_empty());
    assert_eq!(
        processor.git().calls(),
        vec![
            "checkout topic".to_string(),
            "query diff --name-status --no-renames main...topic".to_string(),
        ]
    );
}

#[test]
fn path_listed_twice_is_written_once() {
    let git = FakeGit::new()
        .answer(&["diff", "--name-status", "--no-renames", "main...topic"], "A\tk\nA\tk")
        .answer(&["show", "topic:k"], "k");
    let mut processor = git_changes::new("/work/repo", git).expect("processor");
    let changes = processor.export_branch_changes("topic", "main", "out").expect("export");
    assert_eq!(changes.len(), 1);
    assert_eq!(status_of(&changes, "k"), Some(FileStatus::Added));
    assert_eq!(
        processor.git().calls()[2..].to_vec(),
        vec!["write show topic:k > out/k".to_string()]
    );

    let git = FakeGit::new()
        .answer(&["cat-file", "-e", "c9"], "")
        .answer(&["diff", "--name-status", "--no-renames", "c9^", "c9"], "M\tk\nM\tk")
        .answer(&["show", "c9:k"], "k")
        .answer(&["diff", "c9^..c9", "--", "k"], "-j\n+k\n");
    let mut processor = git_changes::new("/work/repo", git).expect("processor");
    let changes = processor.export_commit_changes("c9", "out").expect("export");
    assert_eq!(changes.len(), 1);
    assert_eq!(status_of(&changes, "k"), Some(FileStatus::Modified));
    assert_eq!(
        processor.git().calls()[2..].to_vec(),
        vec![
            "write show c9:k > out/k".to_string(),
            "write diff c9^..c9 -- k > out/k.diff".to_string(),
        ]
    );
}

#[test]
fn export_goes_by_the_last_status_in_the_order_of_first_naming() {
    let git = FakeGit::new()
        .answer(
            &["diff", "--name-status", "--no-renames", "main...topic"],
            "A\ta\nD\tgone\nM\tb\nD\ta\nA\tc\nM\ta\nA\tgone\nD\tc",
        )
        .answer(&["show", "topic:a"], "a")
        .answer(&["show", "topic:b"], "b")
        .answer(&["show", "topic:gone"], "back")
        .answer(&["diff", "main...topic", "--", "a"], "da")
        .answer(&["diff", "main...topic", "--", "b"], "db");
    let mut processor = git_changes::new("/work/repo", git).expect("processor");
    let changes = processor.export_branch_changes("topic", "main", "out").expect("export");
    assert_eq!(changes.len(), 4);
    assert_eq!(status_of(&changes, "a"), Some(FileStatus::Modified));
    assert_eq!(status_of(&changes, "gone"), Some(FileStatus::Added));
    assert_eq!(status_of(&changes, "b"), Some(FileStatus::Modified));
    assert_eq!(status_of(&changes, "c"), Some(FileStatus::Deleted));
    assert_eq!(
        processor.git().calls()[2..].to_vec(),
        vec![
            "write show topic:a > out/a".to_string(),
            "write diff main...topic -- a > out/a.diff".to_string(),
            "write show topic:gone > out/gone".to_string(),
            "write show topic:b > out/b".to_string(),
            "write diff main...topic -- b > out/b.diff".to_string(),
        ]
    );
    assert_eq!(processor.git().file("out/c"), None);
    assert_eq!(processor.git().files.borrow().len(), 5);
}
