use vstd::prelude::*;

verus! {

/// How a path differs between the two sides of a comparison.
#[derive(Debug, Clone, Copy, PartialEq, Eq, Structural)]
pub enum FileStatus {
    Added,
    Modified,
    Deleted,
}

/// One changed path together with its status.
#[derive(Debug)]
pub struct FileChange {
    pub path: String,
    pub status: FileStatus,
}

/// What is to be analysed: one branch, compared against a base, or commits,
/// each compared against its first parent.
#[derive(Debug)]
pub enum AnalysisTarget {
    Branch(String),
    Commits(Vec<String>),
}

/// The mathematical value of a [`FileChange`].
pub struct ChangeView {
    pub path: Seq<char>,
    pub status: FileStatus,
}

impl View for FileChange {
    type V = ChangeView;

    open spec fn view(&self) -> ChangeView {
        ChangeView { path: self.path@, status: self.status }
    }
}

/// The values of a sequence of changes, in the same order.
pub open spec fn change_views(changes: Seq<FileChange>) -> Seq<ChangeView> {
    Seq::new(changes.len(), |i: int| changes[i]@)
}

/// The mapping that a sequence of changes amounts to when they are recorded
/// one after the other: for a path that occurs more than once, the last
/// occurrence decides.
pub open spec fn changes_map(changes: Seq<ChangeView>) -> Map<Seq<char>, FileStatus>
    decreases changes.len(),
{
    if changes.len() == 0 {
        Map::empty()
    } else {
        changes_map(changes.drop_last()).insert(changes.last().path, changes.last().status)
    }
}

/// The paths that a sequence of changes names.
pub open spec fn named_paths(changes: Seq<ChangeView>) -> Set<Seq<char>> {
    Set::new(|p: Seq<char>| exists|i: int| 0 <= i < changes.len() && #[trigger] changes[i].path == p)
}

/// No path occurs twice.
pub open spec fn distinct_paths(changes: Seq<ChangeView>) -> bool {
    forall|i: int, j: int|
        0 <= i < j < changes.len() ==> (#[trigger] changes[i]).path != (#[trigger] changes[j]).path
}

/// The keys of the mapping are exactly the paths named, and there are
/// finitely many.
pub proof fn lemma_changes_map_keys(changes: Seq<ChangeView>)
    ensures
        changes_map(changes).dom() =~= named_paths(changes),
        changes_map(changes).dom().finite(),
        changes_map(changes).dom().len() <= changes.len(),
    decreases changes.len(),
{
    if changes.len() > 0 {
        let front = changes.drop_last();
        lemma_changes_map_keys(front);
        assert forall|p: Seq<char>| named_paths(changes).contains(p) implies changes_map(
            changes,
        ).dom().contains(p) by {
            let i = choose|i: int| 0 <= i < changes.len() && #[trigger] changes[i].path == p;
            if i < changes.len() - 1 {
                assert(front[i].path == p);
            }
        }
        assert forall|p: Seq<char>| changes_map(changes).dom().contains(p) implies named_paths(
            changes,
        ).contains(p) by {
            if p == changes.last().path {
                assert(changes[changes.len() - 1].path == p);
            } else {
                let i = choose|i: int| 0 <= i < front.len() && #[trigger] front[i].path == p;
                assert(changes[i].path == p);
            }
        }
    }
}

/// The last occurrence of a path decides its status.
pub proof fn lemma_changes_map_last(changes: Seq<ChangeView>, i: int)
    requires
        0 <= i < changes.len(),
        forall|j: int| i < j < changes.len() ==> (#[trigger] changes[j]).path != changes[i].path,
    ensures
        changes_map(changes).contains_key(changes[i].path),
        changes_map(changes)[changes[i].path] == changes[i].status,
    decreases changes.len(),
{
    if i < changes.len() - 1 {
        let front = changes.drop_last();
        assert(changes[changes.len() - 1].path != changes[i].path);
        assert forall|j: int| i < j < front.len() implies (#[trigger] front[j]).path
            != front[i].path by {
            assert(changes[j].path != changes[i].path);
        }
        lemma_changes_map_last(front, i);
    }
}

/// Recording one sequence of changes after another: where both name a path,
/// the later sequence decides.
pub proof fn lemma_changes_map_concat(first: Seq<ChangeView>, second: Seq<ChangeView>)
    ensures
        changes_map(first + second) =~= changes_map(first).union_prefer_right(
            changes_map(second),
        ),
    decreases second.len(),
{
    if second.len() == 0 {
        assert(first + second =~= first);
    } else {
        lemma_changes_map_concat(first, second.drop_last());
        assert((first + second).drop_last() =~= first + second.drop_last());
        assert((first + second).last() == second.last());
    }
}

/// Where no path occurs twice, the mapping holds a path with a status
/// exactly where some change says so.
pub proof fn lemma_pairs_of_distinct(changes: Seq<ChangeView>)
    requires
        distinct_paths(changes),
    ensures
        forall|i: int|
            0 <= i < changes.len() ==> changes_map(changes).contains_pair(
                (#[trigger] changes[i]).path,
                changes[i].status,
            ),
        forall|path: Seq<char>, status: FileStatus| #[trigger]
            changes_map(changes).contains_pair(path, status) ==> exists|i: int|
                0 <= i < changes.len() && #[trigger] changes[i] == (ChangeView { path, status }),
{
    lemma_changes_map_keys(changes);
    assert forall|i: int| 0 <= i < changes.len() implies changes_map(changes).contains_pair(
        (#[trigger] changes[i]).path,
        changes[i].status,
    ) by {
        assert forall|j: int| i < j < changes.len() implies (#[trigger] changes[j]).path
            != changes[i].path by {
            assert(changes[i].path != changes[j].path);
        }
        lemma_changes_map_last(changes, i);
    }
    assert forall|path: Seq<char>, status: FileStatus| #[trigger]
        changes_map(changes).contains_pair(path, status) implies exists|i: int|
        0 <= i < changes.len() && #[trigger] changes[i] == (ChangeView { path, status }) by {
        assert(named_paths(changes).contains(path));
        let i = choose|i: int| 0 <= i < changes.len() && #[trigger] changes[i].path == path;
        assert(changes_map(changes).contains_pair(changes[i].path, changes[i].status));
        assert(changes[i] == ChangeView { path, status });
    }
}

/// Giving a path that is held once a new status changes the mapping at that
/// path and nowhere else.
pub proof fn lemma_replace_status(changes: Seq<ChangeView>, k: int, status: FileStatus)
    requires
        0 <= k < changes.len(),
        distinct_paths(changes),
    ensures
        changes_map(changes.update(k, ChangeView { path: changes[k].path, status }))
            =~= changes_map(changes).insert(changes[k].path, status),
    decreases changes.len(),
{
    let replaced = changes.update(k, ChangeView { path: changes[k].path, status });
    let front = changes.drop_last();
    if k == changes.len() - 1 {
        assert(replaced.drop_last() =~= front);
    } else {
        assert(replaced.drop_last() =~= front.update(
            k,
            ChangeView { path: front[k].path, status },
        ));
        assert(distinct_paths(front)) by {
            assert forall|i: int, j: int| 0 <= i < j < front.len() implies (#[trigger] front[i]).path
                != (#[trigger] front[j]).path by {
                assert(changes[i].path != changes[j].path);
            }
        }
        lemma_replace_status(front, k, status);
        assert(changes[k].path != changes[changes.len() - 1].path);
    }
}

/// Whether a sequence of changes names a path.
pub open spec fn names(held: Seq<ChangeView>, path: Seq<char>) -> bool {
    exists|i: int| 0 <= i < held.len() && #[trigger] held[i].path == path
}

/// A place at which a sequence of changes names a path.
pub open spec fn place_of(held: Seq<ChangeView>, path: Seq<char>) -> int {
    choose|i: int| 0 <= i < held.len() && #[trigger] held[i].path == path
}

/// Recording one change in a sequence that names no path twice: a path
/// that is named keeps its place and takes the new status; a new path goes
/// to the end.
pub open spec fn record_one(held: Seq<ChangeView>, change: ChangeView) -> Seq<ChangeView> {
    if names(held, change.path) {
        held.update(place_of(held, change.path), change)
    } else {
        held.push(change)
    }
}

/// Recording changes one after the other.
pub open spec fn record_all(held: Seq<ChangeView>, changes: Seq<ChangeView>) -> Seq<ChangeView>
    decreases changes.len(),
{
    if changes.len() == 0 {
        held
    } else {
        record_one(record_all(held, changes.drop_last()), changes.last())
    }
}

/// What a sequence of changes settles to: each path once, at the place
/// where the sequence first names it, with the status that the sequence
/// gives it last.
pub open spec fn settled(changes: Seq<ChangeView>) -> Seq<ChangeView> {
    record_all(Seq::empty(), changes)
}

/// Recording one change keeps every path named once and changes the
/// mapping at the path of the change and nowhere else.
pub proof fn lemma_record_one(held: Seq<ChangeView>, change: ChangeView)
    requires
        distinct_paths(held),
    ensures
        distinct_paths(record_one(held, change)),
        changes_map(record_one(held, change)) =~= changes_map(held).insert(
            change.path,
            change.status,
        ),
{
    let after = record_one(held, change);
    if names(held, change.path) {
        let k = place_of(held, change.path);
        assert(after =~= held.update(k, ChangeView { path: held[k].path, status: change.status }));
        lemma_replace_status(held, k, change.status);
        assert forall|i: int, j: int| 0 <= i < j < after.len() implies (#[trigger] after[i]).path
            != (#[trigger] after[j]).path by {
            assert(held[i].path != held[j].path);
        }
    } else {
        assert(after.drop_last() =~= held);
        assert forall|i: int, j: int| 0 <= i < j < after.len() implies (#[trigger] after[i]).path
            != (#[trigger] after[j]).path by {
            if j < held.len() {
                assert(held[i].path != held[j].path);
            } else {
                assert(held[i].path != change.path);
            }
        }
    }
}

/// What changes settle to names no path twice and amounts to the same
/// mapping as the changes themselves.
pub proof fn lemma_settled(changes: Seq<ChangeView>)
    ensures
        distinct_paths(settled(changes)),
        changes_map(settled(changes)) =~= changes_map(changes),
    decreases changes.len(),
{
    if changes.len() > 0 {
        lemma_settled(changes.drop_last());
        lemma_record_one(settled(changes.drop_last()), changes.last());
    }
}

} // verus!
