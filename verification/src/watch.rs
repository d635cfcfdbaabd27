//! Watching the corpus: which filesystem notices matter, when the quiet
//! period after a burst ends, and what changed between two snapshots of
//! the manifest.

use vstd::prelude::*;
use crate::corpus::WorkbookDto;
use crate::events::WsEvent;
use crate::paths::{extension, path_extension};
use crate::text::str_equal;

verus! {

/// A graph file's modification time.
#[derive(Clone, Copy)]
pub struct Mtime {
    pub secs: u64,
    pub nanos: u32,
}

/// One workbook in a snapshot: its hash and its graph file's modification
/// time, where the filesystem gave one.
pub struct SnapshotEntry {
    pub hash: String,
    pub mtime: Option<Mtime>,
}

/// No hash occurs twice, as in a manifest.
pub open spec fn unique_hashes(s: Seq<SnapshotEntry>) -> bool {
    forall|i: int, j: int| 0 <= i < j < s.len() ==> (#[trigger] s[i]).hash@ != (#[trigger] s[j]).hash@
}

pub open spec fn has_hash(s: Seq<SnapshotEntry>, h: Seq<char>) -> bool {
    exists|i: int| 0 <= i < s.len() && (#[trigger] s[i]).hash@ == h
}

pub open spec fn hash_set(s: Seq<SnapshotEntry>) -> Set<Seq<char>> {
    Set::new(|h: Seq<char>| has_hash(s, h))
}

/// The hashes of `v`, as a set.
pub open spec fn names(v: Seq<String>) -> Set<Seq<char>> {
    Set::new(|h: Seq<char>| exists|k: int| 0 <= k < v.len() && (#[trigger] v[k])@ == h)
}

pub open spec fn distinct(v: Seq<String>) -> bool {
    forall|i: int, j: int| 0 <= i < j < v.len() ==> (#[trigger] v[i])@ != (#[trigger] v[j])@
}

/// Workbooks in the fresh snapshot only.
pub open spec fn added_hashes(current: Seq<SnapshotEntry>, fresh: Seq<SnapshotEntry>) -> Set<Seq<char>> {
    hash_set(fresh).difference(hash_set(current))
}

/// Workbooks in the old snapshot only.
pub open spec fn removed_hashes(current: Seq<SnapshotEntry>, fresh: Seq<SnapshotEntry>) -> Set<Seq<char>> {
    hash_set(current).difference(hash_set(fresh))
}

/// Workbooks in both, whose graph file's modification time differs.
pub open spec fn changed_hashes(current: Seq<SnapshotEntry>, fresh: Seq<SnapshotEntry>) -> Set<Seq<char>> {
    Set::new(
        |h: Seq<char>|
            exists|i: int, j: int|
                0 <= i < fresh.len() && 0 <= j < current.len() && (#[trigger] fresh[i]).hash@ == h
                    && (#[trigger] current[j]).hash@ == h && fresh[i].mtime != current[j].mtime,
    )
}

/// What changed between two snapshots.
pub struct CorpusChange {
    pub added: Vec<String>,
    pub removed: Vec<String>,
    /// Same hash, rewritten file: a workbook re-indexed.
    pub changed: Vec<String>,
}

impl CorpusChange {
    /// Whether nothing was added, removed or rewritten.
    pub fn is_empty(&self) -> (r: bool)
        ensures
            r == (self.added.len() == 0 && self.removed.len() == 0 && self.changed.len() == 0),
    {
        self.added.len() == 0 && self.removed.len() == 0 && self.changed.len() == 0
    }
}

fn same_mtime(a: &Option<Mtime>, b: &Option<Mtime>) -> (r: bool)
    ensures
        r == (*a == *b),
{
    match (a, b) {
        (Some(x), Some(y)) => x.secs == y.secs && x.nanos == y.nanos,
        (None, None) => true,
        _ => false,
    }
}

fn find_hash(s: &Vec<SnapshotEntry>, h: &String) -> (r: Option<usize>)
    ensures
        r matches Some(j) ==> j < s.len() && s@[j as int].hash@ == h@,
        r is None ==> !has_hash(s@, h@),
{
    let mut j: usize = 0;
    while j < s.len()
        invariant
            j <= s.len(),
            forall|k: int| 0 <= k < j ==> (#[trigger] s@[k]).hash@ != h@,
        decreases s.len() - j,
    {
        if str_equal(s[j].hash.as_str(), h.as_str()) {
            return Some(j);
        }
        j = j + 1;
    }
    None
}

/// The hashes of `a` that `b` lacks, each once.
fn only_in(a: &Vec<SnapshotEntry>, b: &Vec<SnapshotEntry>) -> (r: Vec<String>)
    requires
        unique_hashes(a@),
    ensures
        names(r@) == hash_set(a@).difference(hash_set(b@)),
        distinct(r@),
{
    let mut r: Vec<String> = Vec::new();
    let mut i: usize = 0;
    while i < a.len()
        invariant
            i <= a.len(),
            unique_hashes(a@),
            distinct(r@),
            forall|h: Seq<char>| #[trigger] names(r@).contains(h) <==> (exists|k: int|
                0 <= k < i && (#[trigger] a@[k]).hash@ == h) && !has_hash(b@, h),
            forall|k: int| 0 <= k < r.len() ==> exists|m: int| 0 <= m < i && (#[trigger] r@[k])@ == (#[trigger] a@[m]).hash@,
        decreases a.len() - i,
    {
        let ghost before = r@;
        if find_hash(b, &a[i].hash).is_none() {
            r.push(a[i].hash.clone());
            proof {
                assert forall|k: int| 0 <= k < before.len() implies (#[trigger] before[k])@ != a@[i as int].hash@ by {
                    let m = choose|m: int| 0 <= m < i && (#[trigger] before[k])@ == (#[trigger] a@[m]).hash@;
                    assert(a@[m].hash@ != a@[i as int].hash@);
                }
                assert forall|h: Seq<char>| #[trigger] names(r@).contains(h) <==> (exists|k: int|
                    0 <= k < i + 1 && (#[trigger] a@[k]).hash@ == h) && !has_hash(b@, h) by {
                    if names(r@).contains(h) {
                        let k = choose|k: int| 0 <= k < r@.len() && (#[trigger] r@[k])@ == h;
                        if k < before.len() {
                            assert(names(before).contains(h));
                        } else {
                            assert(a@[i as int].hash@ == h);
                        }
                    }
                    if (exists|k: int| 0 <= k < i + 1 && (#[trigger] a@[k]).hash@ == h) && !has_hash(b@, h) {
                        let k = choose|k: int| 0 <= k < i + 1 && (#[trigger] a@[k]).hash@ == h;
                        if k < i {
                            assert(names(before).contains(h));
                            let q = choose|q: int| 0 <= q < before.len() && (#[trigger] before[q])@ == h;
                            assert(r@[q]@ == h);
                        } else {
                            assert(r@[before.len() as int]@ == h);
                        }
                    }
                }
                assert forall|k: int| 0 <= k < r.len() implies exists|m: int| 0 <= m < i + 1 && (#[trigger] r@[k])@ == (#[trigger] a@[m]).hash@ by {
                    if k < before.len() {
                        let m = choose|m: int| 0 <= m < i && (#[trigger] before[k])@ == (#[trigger] a@[m]).hash@;
                        assert(r@[k] == before[k]);
                    } else {
                        assert(r@[k]@ == a@[i as int].hash@);
                    }
                }
            }
        } else {
            proof {
                assert forall|h: Seq<char>| #[trigger] names(r@).contains(h) <==> (exists|k: int|
                    0 <= k < i + 1 && (#[trigger] a@[k]).hash@ == h) && !has_hash(b@, h) by {
                    if (exists|k: int| 0 <= k < i + 1 && (#[trigger] a@[k]).hash@ == h) && !has_hash(b@, h) {
                        let k = choose|k: int| 0 <= k < i + 1 && (#[trigger] a@[k]).hash@ == h;
                        if k == i {
                            assert(has_hash(b@, a@[i as int].hash@));
                        }
                    }
                }
            }
        }
        i = i + 1;
    }
    proof {
        assert(names(r@) =~= hash_set(a@).difference(hash_set(b@)));
    }
    r
}

/// The hashes in both snapshots whose modification times differ, each once.
fn rewritten(current: &Vec<SnapshotEntry>, fresh: &Vec<SnapshotEntry>) -> (r: Vec<String>)
    requires
        unique_hashes(current@),
        unique_hashes(fresh@),
    ensures
        names(r@) == changed_hashes(current@, fresh@),
        distinct(r@),
{
    let mut r: Vec<String> = Vec::new();
    let mut i: usize = 0;
    while i < fresh.len()
        invariant
            i <= fresh.len(),
            unique_hashes(current@),
            unique_hashes(fresh@),
            distinct(r@),
            forall|h: Seq<char>| #[trigger] names(r@).contains(h) <==> exists|k: int, j: int|
                0 <= k < i && 0 <= j < current.len() && (#[trigger] fresh@[k]).hash@ == h
                    && (#[trigger] current@[j]).hash@ == h && fresh@[k].mtime != current@[j].mtime,
            forall|k: int| 0 <= k < r.len() ==> exists|m: int| 0 <= m < i && (#[trigger] r@[k])@ == (#[trigger] fresh@[m]).hash@,
        decreases fresh.len() - i,
    {
        let ghost before = r@;
        let h = &fresh[i].hash;
        let found = find_hash(current, h);
        let differs = match found {
            Some(j) => !same_mtime(&current[j].mtime, &fresh[i].mtime),
            None => false,
        };
        if differs {
            r.push(h.clone());
        }
        proof {
            let hi = fresh@[i as int].hash@;
            assert forall|k: int| 0 <= k < before.len() implies (#[trigger] before[k])@ != hi by {
                let m = choose|m: int| 0 <= m < i && (#[trigger] before[k])@ == (#[trigger] fresh@[m]).hash@;
                assert(fresh@[m].hash@ != hi);
            }
            assert forall|h2: Seq<char>| #[trigger] names(r@).contains(h2) <==> exists|k: int, j: int|
                0 <= k < i + 1 && 0 <= j < current.len() && (#[trigger] fresh@[k]).hash@ == h2
                    && (#[trigger] current@[j]).hash@ == h2 && fresh@[k].mtime != current@[j].mtime by {
                if names(r@).contains(h2) {
                    let k = choose|k: int| 0 <= k < r@.len() && (#[trigger] r@[k])@ == h2;
                    if k < before.len() {
                        assert(names(before).contains(h2));
                    } else {
                        assert(h2 == hi);
                        let j = found->0;
                        assert(fresh@[i as int].hash@ == h2 && current@[j as int].hash@ == h2);
                    }
                }
                if exists|k: int, j: int|
                    0 <= k < i + 1 && 0 <= j < current.len() && (#[trigger] fresh@[k]).hash@ == h2
                        && (#[trigger] current@[j]).hash@ == h2 && fresh@[k].mtime != current@[j].mtime {
                    let (k, j) = choose|k: int, j: int|
                        0 <= k < i + 1 && 0 <= j < current.len() && (#[trigger] fresh@[k]).hash@ == h2
                            && (#[trigger] current@[j]).hash@ == h2 && fresh@[k].mtime != current@[j].mtime;
                    if k < i {
                        assert(names(before).contains(h2));
                        let q = choose|q: int| 0 <= q < before.len() && (#[trigger] before[q])@ == h2;
                        assert(r@[q]@ == h2);
                    } else {
                        assert(has_hash(current@, hi));
                        let j2 = found->0 as int;
                        assert(current@[j2].hash@ == h2);
                        if j2 != j {
                            if j2 < j {
                                assert(current@[j2].hash@ != current@[j].hash@);
                            } else {
                                assert(current@[j].hash@ != current@[j2].hash@);
                            }
                        }
                        assert(r@[before.len() as int]@ == h2);
                    }
                }
            }
            assert forall|k: int| 0 <= k < r.len() implies exists|m: int| 0 <= m < i + 1 && (#[trigger] r@[k])@ == (#[trigger] fresh@[m]).hash@ by {
                if k < before.len() {
                    let m = choose|m: int| 0 <= m < i && (#[trigger] before[k])@ == (#[trigger] fresh@[m]).hash@;
                    assert(r@[k] == before[k]);
                } else {
                    assert(r@[k]@ == fresh@[i as int].hash@);
                }
            }
        }
        i = i + 1;
    }
    proof {
        assert(names(r@) =~= changed_hashes(current@, fresh@));
    }
    r
}

/// What changed from the `current` snapshot to the `fresh` one: each hash
/// once, in no promised order.
pub fn diff(current: &Vec<SnapshotEntry>, fresh: &Vec<SnapshotEntry>) -> (r: CorpusChange)
    requires
        unique_hashes(current@),
        unique_hashes(fresh@),
    ensures
        names(r.added@) == added_hashes(current@, fresh@),
        names(r.removed@) == removed_hashes(current@, fresh@),
        names(r.changed@) == changed_hashes(current@, fresh@),
        distinct(r.added@),
        distinct(r.removed@),
        distinct(r.changed@),
{
    CorpusChange {
        added: only_in(fresh, current),
        removed: only_in(current, fresh),
        changed: rewritten(current, fresh),
    }
}

/// A snapshot compared with itself changes nothing.
pub proof fn law_unchanged_snapshot_reports_nothing(s: Seq<SnapshotEntry>)
    requires
        unique_hashes(s),
    ensures
        added_hashes(s, s).is_empty(),
        removed_hashes(s, s).is_empty(),
        changed_hashes(s, s).is_empty(),
{
    assert(added_hashes(s, s) =~= Set::empty());
    assert(removed_hashes(s, s) =~= Set::empty());
    assert forall|h: Seq<char>| !changed_hashes(s, s).contains(h) by {
        if changed_hashes(s, s).contains(h) {
            let (i, j) = choose|i: int, j: int|
                0 <= i < s.len() && 0 <= j < s.len() && (#[trigger] s[i]).hash@ == h
                    && (#[trigger] s[j]).hash@ == h && s[i].mtime != s[j].mtime;
            if i < j {
                assert(s[i].hash@ != s[j].hash@);
            } else if j < i {
                assert(s[j].hash@ != s[i].hash@);
            }
        }
    }
    assert(changed_hashes(s, s) =~= Set::empty());
}

/// A workbook is reported as at most one of added, removed and changed.
pub proof fn law_changes_are_disjoint(current: Seq<SnapshotEntry>, fresh: Seq<SnapshotEntry>)
    ensures
        added_hashes(current, fresh).disjoint(removed_hashes(current, fresh)),
        added_hashes(current, fresh).disjoint(changed_hashes(current, fresh)),
        removed_hashes(current, fresh).disjoint(changed_hashes(current, fresh)),
{
    assert forall|h: Seq<char>| changed_hashes(current, fresh).contains(h) implies has_hash(current, h)
        && has_hash(fresh, h) by {
        let (i, j) = choose|i: int, j: int|
            0 <= i < fresh.len() && 0 <= j < current.len() && (#[trigger] fresh[i]).hash@ == h
                && (#[trigger] current[j]).hash@ == h && fresh[i].mtime != current[j].mtime;
        assert(fresh[i].hash@ == h);
        assert(current[j].hash@ == h);
    }
}

/// Whether a notice from the watcher concerns the corpus: a `.json` file
/// written, created or removed. Reads are noise, and so is every other
/// file (locks, the indexes' own files, temporaries renamed over).
pub fn relevant(is_access: bool, paths: &Vec<String>) -> (r: bool)
    ensures
        r == (!is_access && exists|k: int|
            0 <= k < paths.len() && path_extension((#[trigger] paths[k])@) == Some("json"@)),
{
    if is_access {
        return false;
    }
    let mut k: usize = 0;
    while k < paths.len()
        invariant
            !is_access,
            k <= paths.len(),
            forall|m: int| 0 <= m < k ==> path_extension((#[trigger] paths[m])@) != Some("json"@),
        decreases paths.len() - k,
    {
        match extension(paths[k].as_str()) {
            Some(ext) => {
                if str_equal(ext, "json") {
                    assert(path_extension(paths[k as int]@) == Some("json"@));
                    return true;
                }
            },
            None => {},
        }
        k = k + 1;
    }
    false
}

/// The watcher's quiet-period state: whether a relevant notice is waiting
/// for the corpus to go quiet.
pub struct Debounce {
    pub pending: bool,
}

impl Debounce {
    pub fn new() -> (r: Debounce)
        ensures
            !r.pending,
    {
        Debounce { pending: false }
    }

    /// A notice arrived. A relevant one marks a diff as pending and
    /// restarts the quiet period (the result says whether to); any other
    /// changes nothing.
    pub fn notice(&mut self, relevant: bool) -> (restart: bool)
        ensures
            restart == relevant,
            final(self).pending == (old(self).pending || relevant),
    {
        if relevant {
            self.pending = true;
        }
        relevant
    }

    /// Whether the quiet period's end should be waited for.
    pub fn armed(&self) -> (r: bool)
        ensures
            r == self.pending,
    {
        self.pending
    }

    /// The quiet period ended with a diff pending: the diff runs now.
    pub fn quiet(&mut self)
        requires
            old(self).pending,
        ensures
            !final(self).pending,
    {
        self.pending = false;
    }
}

/// The event a diff is announced with, if it found anything; the listing
/// is the corpus as it now stands.
pub fn corpus_event(change: CorpusChange, workbooks: Vec<WorkbookDto>) -> (r: Option<WsEvent>)
    ensures
        (change.added.len() == 0 && change.removed.len() == 0 && change.changed.len() == 0) <==> (r
            is None),
        r matches Some(e) ==> (e == (WsEvent::Corpus {
            added: change.added,
            removed: change.removed,
            changed: change.changed,
            workbooks,
        })),
{
    if change.added.len() == 0 && change.removed.len() == 0 && change.changed.len() == 0 {
        None
    } else {
        Some(
            WsEvent::Corpus {
                added: change.added,
                removed: change.removed,
                changed: change.changed,
                workbooks,
            },
        )
    }
}

} // verus!
