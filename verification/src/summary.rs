use crate::change_set::ChangeSet;
use crate::text::chars_of;
use crate::types::{
    change_views, distinct_paths, lemma_pairs_of_distinct, ChangeView, FileChange, FileStatus,
};
use vstd::prelude::*;

verus! {

/// The paths of a change set by status, each list in ascending order.
#[derive(Debug)]
pub struct ChangesSummary {
    pub added: Vec<String>,
    pub modified: Vec<String>,
    pub deleted: Vec<String>,
}

/// Whether `a` comes before `b` when both are read from place `i` on: at
/// the first place where they differ `a` holds the smaller character, or
/// `a` ends there and `b` goes on.
pub open spec fn less_from(a: Seq<char>, b: Seq<char>, i: int) -> bool
    decreases a.len() - i,
{
    if i < 0 || i >= b.len() {
        false
    } else if i >= a.len() {
        true
    } else if a[i] != b[i] {
        (a[i] as u32) < (b[i] as u32)
    } else {
        less_from(a, b, i + 1)
    }
}

/// The order of texts: character by character, a text before its
/// extensions. This is the order in which strings sort.
pub open spec fn text_less(a: Seq<char>, b: Seq<char>) -> bool {
    less_from(a, b, 0)
}

/// The texts of a list of strings.
pub open spec fn texts(list: Seq<String>) -> Seq<Seq<char>> {
    Seq::new(list.len(), |i: int| list[i]@)
}

/// Each text comes before the next.
pub open spec fn ascending(list: Seq<Seq<char>>) -> bool {
    forall|i: int, j: int| 0 <= i < j < list.len() ==> text_less(list[i], list[j])
}

/// The list holds, in ascending order, exactly the paths that the mapping
/// gives this status.
pub open spec fn lists_status(
    list: Seq<Seq<char>>,
    changes: Map<Seq<char>, FileStatus>,
    status: FileStatus,
) -> bool {
    &&& ascending(list)
    &&& forall|path: Seq<char>| list.contains(path) <==> changes.contains_pair(path, status)
}

/// The order of texts is transitive.
pub proof fn lemma_less_transitive(a: Seq<char>, b: Seq<char>, c: Seq<char>, i: int)
    requires
        0 <= i,
        less_from(a, b, i),
        less_from(b, c, i),
    ensures
        less_from(a, c, i),
    decreases a.len() - i,
{
    if i < a.len() && a[i] == b[i] && b[i] == c[i] {
        lemma_less_transitive(a, b, c, i + 1);
    }
}

/// Of two different texts one comes before the other.
pub proof fn lemma_less_total(a: Seq<char>, b: Seq<char>, i: int)
    requires
        0 <= i <= a.len(),
        i <= b.len(),
        a.subrange(0, i) == b.subrange(0, i),
        a != b,
    ensures
        less_from(a, b, i) || less_from(b, a, i),
    decreases a.len() - i,
{
    if i < a.len() && i < b.len() && a[i] == b[i] {
        assert(a.subrange(0, i + 1) =~= a.subrange(0, i).push(a[i]));
        assert(b.subrange(0, i + 1) =~= b.subrange(0, i).push(b[i]));
        lemma_less_total(a, b, i + 1);
    } else if i == a.len() && i == b.len() {
        assert(a =~= a.subrange(0, i));
        assert(b =~= b.subrange(0, i));
    } else if i < a.len() && i < b.len() {
        vstd::utf8::char_u32_cast(a[i], a[i] as u32);
        vstd::utf8::char_u32_cast(b[i], b[i] as u32);
    }
}

/// Whether `a` comes before `b` in the order of texts.
pub fn comes_before(a: &str, b: &str) -> (before: bool)
    ensures
        before == text_less(a@, b@),
{
    let xs = chars_of(a);
    let ys = chars_of(b);
    let mut i: usize = 0;
    while i < xs.len() && i < ys.len() && xs[i] == ys[i]
        invariant
            i <= xs@.len(),
            i <= ys@.len(),
            less_from(xs@, ys@, 0) == less_from(xs@, ys@, i as int),
        decreases xs@.len() - i,
    {
        i += 1;
    }
    if i >= ys.len() {
        false
    } else if i >= xs.len() {
        true
    } else {
        let x: u32 = xs[i] as u32;
        let y: u32 = ys[i] as u32;
        x < y
    }
}

/// Puts a path into an ascending list that does not hold it, at its place.
fn insert_ascending(list: &mut Vec<String>, path: String)
    requires
        ascending(texts(old(list)@)),
        !texts(old(list)@).contains(path@),
    ensures
        ascending(texts(final(list)@)),
        forall|p: Seq<char>|
            texts(final(list)@).contains(p) <==> (texts(old(list)@).contains(p) || p == path@),
{
    let ghost before = texts(list@);
    let mut at: usize = 0;
    while at < list.len() && !comes_before(path.as_str(), list[at].as_str())
        invariant
            at <= list@.len(),
            before == texts(list@),
            ascending(before),
            !before.contains(path@),
            forall|i: int| 0 <= i < at ==> text_less(#[trigger] before[i], path@),
        decreases list@.len() - at,
    {
        proof {
            assert(before.contains(before[at as int]));
            assert(before[at as int] != path@);
            assert(before[at as int].subrange(0, 0) =~= path@.subrange(0, 0));
            lemma_less_total(before[at as int], path@, 0);
        }
        at += 1;
    }
    assert(at < list@.len() ==> text_less(path@, before[at as int]));
    list.insert(at, path);
    proof {
        let after = texts(list@);
        assert(after =~= before.insert(at as int, path@));
        assert forall|i: int, j: int| 0 <= i < j < after.len() implies text_less(
            after[i],
            after[j],
        ) by {
            if j < at {
                assert(after[i] == before[i] && after[j] == before[j]);
            } else if j == at {
                assert(after[i] == before[i]);
            } else if i < at {
                assert(after[i] == before[i] && after[j] == before[j - 1]);
                lemma_less_transitive(before[i], path@, before[at as int], 0);
                if j - 1 > at {
                    assert(text_less(before[at as int], before[j - 1]));
                    lemma_less_transitive(before[i], before[at as int], before[j - 1], 0);
                }
            } else if i == at {
                assert(after[j] == before[j - 1]);
                if j - 1 > at {
                    assert(text_less(before[at as int], before[j - 1]));
                    lemma_less_transitive(path@, before[at as int], before[j - 1], 0);
                }
            } else {
                assert(after[i] == before[i - 1] && after[j] == before[j - 1]);
            }
        }
        assert forall|p: Seq<char>| after.contains(p) <==> (before.contains(p) || p == path@) by {
            if after.contains(p) {
                let k = choose|k: int| 0 <= k < after.len() && after[k] == p;
                if k < at {
                    assert(before[k] == p);
                } else if k > at {
                    assert(before[k - 1] == p);
                }
            }
            if before.contains(p) {
                let k = choose|k: int| 0 <= k < before.len() && before[k] == p;
                if k < at {
                    assert(after[k] == p);
                } else {
                    assert(after[k + 1] == p);
                }
            }
            if p == path@ {
                assert(after[at as int] == p);
            }
        }
    }
}

/// The paths that the changes give one status, in ascending order.
fn paths_with(held: &Vec<FileChange>, status: FileStatus) -> (list: Vec<String>)
    requires
        distinct_paths(change_views(held@)),
    ensures
        ascending(texts(list@)),
        forall|p: Seq<char>|
            texts(list@).contains(p) <==> exists|i: int|
                0 <= i < held@.len() && #[trigger] change_views(held@)[i] == (ChangeView {
                    path: p,
                    status,
                }),
{
    let ghost views = change_views(held@);
    let mut list: Vec<String> = Vec::new();
    let mut k: usize = 0;
    while k < held.len()
        invariant
            k <= held@.len(),
            views == change_views(held@),
            distinct_paths(views),
            ascending(texts(list@)),
            forall|p: Seq<char>|
                texts(list@).contains(p) <==> exists|i: int|
                    0 <= i < k && #[trigger] views[i] == (ChangeView { path: p, status }),
        decreases held@.len() - k,
    {
        let change = &held[k];
        if change.status == status {
            let ghost before = texts(list@);
            let ghost now = views[k as int];
            proof {
                assert forall|i: int| 0 <= i < k implies (#[trigger] views[i]).path
                    != now.path by {
                    assert(views[i].path != views[k as int].path);
                }
            }
            insert_ascending(&mut list, change.path.clone());
            proof {
                assert forall|p: Seq<char>|
                    texts(list@).contains(p) <==> exists|i: int|
                        0 <= i < k + 1 && #[trigger] views[i] == (ChangeView {
                            path: p,
                            status,
                        }) by {
                    if before.contains(p) {
                        let i = choose|i: int|
                            0 <= i < k && #[trigger] views[i] == (ChangeView { path: p, status });
                        assert(0 <= i < k + 1);
                    }
                    if p == now.path {
                        assert(views[k as int] == ChangeView { path: p, status });
                    }
                }
            }
        }
        k += 1;
    }
    list
}

/// The paths of a change set, grouped by status and put in order.
pub fn summarize(set: &ChangeSet) -> (summary: ChangesSummary)
    requires
        set.wf(),
    ensures
        lists_status(texts(summary.added@), set@, FileStatus::Added),
        lists_status(texts(summary.modified@), set@, FileStatus::Modified),
        lists_status(texts(summary.deleted@), set@, FileStatus::Deleted),
{
    let held = set.changes();
    proof {
        lemma_pairs_of_distinct(change_views(held@));
    }
    ChangesSummary {
        added: paths_with(held, FileStatus::Added),
        modified: paths_with(held, FileStatus::Modified),
        deleted: paths_with(held, FileStatus::Deleted),
    }
}

} // verus!
