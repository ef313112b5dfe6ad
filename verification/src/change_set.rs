use crate::types::{
    change_views, changes_map, distinct_paths, lemma_changes_map_keys, lemma_changes_map_last,
    lemma_record_one, lemma_replace_status, named_paths, names, place_of, record_all,
    record_one, settled, ChangeView, FileChange, FileStatus,
};
use vstd::prelude::*;

verus! {

/// A mapping from path to status, kept in the order in which the paths were
/// first recorded. No path is held twice.
#[derive(Debug)]
pub struct ChangeSet {
    entries: Vec<FileChange>,
}

impl View for ChangeSet {
    type V = Map<Seq<char>, FileStatus>;

    open spec fn view(&self) -> Map<Seq<char>, FileStatus> {
        changes_map(self.held())
    }
}

/// Where no path occurs twice, the mapping has as many keys as there are
/// changes.
proof fn lemma_distinct_len(changes: Seq<ChangeView>)
    requires
        distinct_paths(changes),
    ensures
        changes_map(changes).dom().finite(),
        changes_map(changes).dom().len() == changes.len(),
    decreases changes.len(),
{
    lemma_changes_map_keys(changes);
    if changes.len() > 0 {
        let front = changes.drop_last();
        assert(distinct_paths(front)) by {
            assert forall|i: int, j: int| 0 <= i < j < front.len() implies (#[trigger] front[i]).path
                != (#[trigger] front[j]).path by {
                assert(changes[i].path != changes[j].path);
            }
        }
        lemma_distinct_len(front);
        lemma_changes_map_keys(front);
        assert(!named_paths(front).contains(changes.last().path)) by {
            if named_paths(front).contains(changes.last().path) {
                let i = choose|i: int|
                    0 <= i < front.len() && #[trigger] front[i].path == changes.last().path;
                assert(changes[i].path != changes[changes.len() - 1].path);
            }
        }
    }
}

impl ChangeSet {
    /// The changes held, in the order in which their paths were first
    /// recorded.
    pub closed spec fn held(&self) -> Seq<ChangeView> {
        change_views(self.entries@)
    }

    /// No path is held twice. Every constructor establishes this and every
    /// method keeps it.
    pub open spec fn wf(&self) -> bool {
        distinct_paths(self.held())
    }

    /// The empty mapping.
    pub fn new() -> (set: Self)
        ensures
            set.wf(),
            set.held() == Seq::<ChangeView>::empty(),
            set@ == Map::<Seq<char>, FileStatus>::empty(),
    {
        let set = ChangeSet { entries: Vec::new() };
        assert(change_views(set.entries@) =~= Seq::<ChangeView>::empty());
        set
    }

    /// The number of paths held.
    pub fn len(&self) -> (n: usize)
        requires
            self.wf(),
        ensures
            self@.dom().finite(),
            n == self@.len(),
    {
        proof {
            lemma_distinct_len(change_views(self.entries@));
        }
        self.entries.len()
    }

    /// Whether no path is held.
    pub fn is_empty(&self) -> (empty: bool)
        requires
            self.wf(),
        ensures
            empty == (self@ == Map::<Seq<char>, FileStatus>::empty()),
    {
        proof {
            lemma_distinct_len(change_views(self.entries@));
            if self.entries@.len() == 0 {
                assert(self@.dom() =~= Set::<Seq<char>>::empty());
                assert(self@ =~= Map::<Seq<char>, FileStatus>::empty());
            }
        }
        self.entries.len() == 0
    }

    /// Where the path is held, its place among the entries.
    fn position(&self, path: &String) -> (at: Option<usize>)
        ensures
            match at {
                Some(k) => k < self.entries@.len() && self.entries@[k as int].path@ == path@,
                None => forall|i: int|
                    0 <= i < self.entries@.len() ==> (#[trigger] self.entries@[i]).path@ != path@,
            },
    {
        let mut k: usize = 0;
        while k < self.entries.len()
            invariant
                k <= self.entries@.len(),
                forall|i: int| 0 <= i < k ==> (#[trigger] self.entries@[i]).path@ != path@,
            decreases self.entries@.len() - k,
        {
            if self.entries[k].path == *path {
                return Some(k);
            }
            k += 1;
        }
        None
    }

    /// The change recorded for a path, if there is one.
    pub fn get(&self, path: &str) -> (found: Option<&FileChange>)
        requires
            self.wf(),
        ensures
            match found {
                Some(change) => self@.contains_key(path@) && change@ == (ChangeView {
                    path: path@,
                    status: self@[path@],
                }),
                None => !self@.contains_key(path@),
            },
    {
        let key = path.to_owned();
        let at = self.position(&key);
        proof {
            let views = change_views(self.entries@);
            lemma_changes_map_keys(views);
            match at {
                Some(k) => {
                    assert(views[k as int].path == path@);
                    assert forall|j: int| k < j < views.len() implies (#[trigger] views[j]).path
                        != views[k as int].path by {
                        assert(views[k as int].path != views[j].path);
                    }
                    lemma_changes_map_last(views, k as int);
                },
                None => {
                    if named_paths(views).contains(path@) {
                        let i = choose|i: int|
                            0 <= i < views.len() && #[trigger] views[i].path == path@;
                        assert(self.entries@[i].path@ != path@);
                    }
                },
            }
        }
        match at {
            Some(k) => Some(&self.entries[k]),
            None => None,
        }
    }

    /// Records a change. A status already held for its path is replaced.
    pub fn insert(&mut self, change: FileChange)
        requires
            old(self).wf(),
        ensures
            final(self).wf(),
            final(self).held() == record_one(old(self).held(), change@),
            final(self)@ == old(self)@.insert(change.path@, change.status),
    {
        proof {
            lemma_record_one(self.held(), change@);
        }
        let ghost before = change_views(self.entries@);
        let ghost added = change@;
        let at = self.position(&change.path);
        match at {
            Some(k) => {
                self.entries.set(k, change);
                proof {
                    assert(change_views(self.entries@) =~= before.update(
                        k as int,
                        ChangeView { path: before[k as int].path, status: added.status },
                    ));
                    lemma_replace_status(before, k as int, added.status);
                    assert(place_of(before, added.path) == k) by {
                        let at = place_of(before, added.path);
                        assert(before[k as int].path == added.path);
                        if at < k {
                            assert(before[at].path != before[k as int].path);
                        } else if k < at {
                            assert(before[k as int].path != before[at].path);
                        }
                    }
                    let after = change_views(self.entries@);
                    assert(after =~= record_one(before, added));
                    assert forall|i: int, j: int| 0 <= i < j < after.len() implies (
                    #[trigger] after[i]).path != (#[trigger] after[j]).path by {
                        assert(before[i].path != before[j].path);
                    }
                }
            },
            None => {
                self.entries.push(change);
                proof {
                    let after = change_views(self.entries@);
                    assert(after.drop_last() =~= before);
                    assert(after.last() == added);
                    assert(after =~= record_one(before, added)) by {
                        if names(before, added.path) {
                            let at = place_of(before, added.path);
                            assert(old(self).entries@[at].path@ != added.path);
                        }
                    }
                    assert forall|i: int, j: int| 0 <= i < j < after.len() implies (
                    #[trigger] after[i]).path != (#[trigger] after[j]).path by {
                        if j < before.len() {
                            assert(before[i].path != before[j].path);
                        } else {
                            assert(old(self).entries@[i].path@ != added.path);
                        }
                    }
                }
            },
        }
    }

    /// Records a sequence of changes one after the other: where a path is
    /// already held or occurs twice, the last status given decides.
    pub fn record(&mut self, changes: &Vec<FileChange>)
        requires
            old(self).wf(),
        ensures
            final(self).wf(),
            final(self).held() == record_all(old(self).held(), change_views(changes@)),
            final(self)@ == old(self)@.union_prefer_right(changes_map(change_views(changes@))),
    {
        let ghost views = change_views(changes@);
        let mut k: usize = 0;
        assert(views.take(0) =~= Seq::<ChangeView>::empty());
        assert(self@ =~= old(self)@.union_prefer_right(changes_map(views.take(0))));
        while k < changes.len()
            invariant
                k <= changes@.len(),
                views == change_views(changes@),
                self.wf(),
                self.held() == record_all(old(self).held(), views.take(k as int)),
                self@ == old(self)@.union_prefer_right(changes_map(views.take(k as int))),
            decreases changes@.len() - k,
        {
            let change = &changes[k];
            assert(views.take(k as int + 1).drop_last() =~= views.take(k as int));
            assert(views.take(k as int + 1).last() == change@);
            self.insert(FileChange { path: change.path.clone(), status: change.status });
            k += 1;
            assert(self@ =~= old(self)@.union_prefer_right(changes_map(views.take(k as int))));
        }
        assert(views.take(changes@.len() as int) =~= views);
    }

    /// The mapping that a sequence of changes amounts to. It holds each path
    /// once, at the place where the sequence first names it, with the status
    /// that the sequence gives it last.
    pub fn from_changes(changes: &Vec<FileChange>) -> (set: Self)
        ensures
            set.wf(),
            set.held() == settled(change_views(changes@)),
            set@ == changes_map(change_views(changes@)),
    {
        let mut set = ChangeSet::new();
        set.record(changes);
        assert(set@ =~= changes_map(change_views(changes@)));
        set
    }

    /// The changes held, each path once, in the order in which the paths were
    /// first recorded.
    pub fn changes(&self) -> (held: &Vec<FileChange>)
        requires
            self.wf(),
        ensures
            change_views(held@) == self.held(),
    {
        &self.entries
    }
}

} // verus!
