//! Counts per kind name: what the browser's filters start from.

use vstd::prelude::*;
use vstd::multiset::*;
use crate::text::str_equal;

verus! {

broadcast use group_multiset_axioms;

/// How many nodes (or edges) of one kind a graph has.
pub struct KindCount {
    pub kind: String,
    pub count: u64,
}

/// The sum of the counts.
pub open spec fn total(c: Seq<KindCount>) -> int
    decreases c.len(),
{
    if c.len() == 0 {
        0
    } else {
        total(c.drop_last()) + c.last().count
    }
}

/// `c` counts the kinds in `m`: one entry per kind that occurs, none
/// twice, each with its number of occurrences.
pub open spec fn tallies(c: Seq<KindCount>, m: Multiset<Seq<char>>) -> bool {
    &&& forall|i: int, j: int| 0 <= i < j < c.len() ==> (#[trigger] c[i]).kind@ != (#[trigger] c[j]).kind@
    &&& forall|i: int| 0 <= i < c.len() ==> (#[trigger] c[i]).count == m.count(c[i].kind@) && c[i].count > 0
    &&& forall|k: Seq<char>| m.count(k) > 0 ==> exists|i: int| 0 <= i < c.len() && (#[trigger] c[i]).kind@ == k
}

proof fn lemma_total_update(c: Seq<KindCount>, j: int, e: KindCount)
    requires
        0 <= j < c.len(),
    ensures
        total(c.update(j, e)) == total(c) - c[j].count + e.count,
    decreases c.len(),
{
    if j < c.len() - 1 {
        lemma_total_update(c.drop_last(), j, e);
        assert(c.update(j, e).drop_last() =~= c.drop_last().update(j, e));
    } else {
        assert(c.update(j, e).drop_last() =~= c.drop_last());
    }
}

proof fn lemma_total_nonnegative(c: Seq<KindCount>)
    ensures
        total(c) >= 0,
    decreases c.len(),
{
    if c.len() > 0 {
        lemma_total_nonnegative(c.drop_last());
    }
}

/// The counts are no less than any one of them.
proof fn lemma_total_bounds(c: Seq<KindCount>, j: int)
    requires
        0 <= j < c.len(),
    ensures
        c[j].count <= total(c),
    decreases c.len(),
{
    if j < c.len() - 1 {
        lemma_total_bounds(c.drop_last(), j);
        assert(c.drop_last()[j] == c[j]);
        lemma_total_nonnegative(c.drop_last());
    } else {
        lemma_total_nonnegative(c.drop_last());
    }
}

/// Counts one more occurrence of `kind`.
fn add_kind(c: &mut Vec<KindCount>, kind: &String, Ghost(m): Ghost<Multiset<Seq<char>>>)
    requires
        tallies(old(c)@, m),
        total(old(c)@) == m.len(),
        m.len() < u64::MAX,
    ensures
        tallies(final(c)@, m.insert(kind@)),
        total(final(c)@) == m.len() + 1,
{
    let mut j: usize = 0;
    while j < c.len()
        invariant
            j <= c.len(),
            c@ == old(c)@,
            tallies(c@, m),
            total(c@) == m.len(),
            m.len() < u64::MAX,
            forall|k: int| 0 <= k < j ==> (#[trigger] c@[k]).kind@ != kind@,
        decreases c.len() - j,
    {
        if str_equal(c[j].kind.as_str(), kind.as_str()) {
            proof {
                lemma_total_bounds(c@, j as int);
            }
            let n = c[j].count + 1;
            let k = c[j].kind.clone();
            let ghost before = c@;
            c.set(j, KindCount { kind: k, count: n });
            proof {
                lemma_total_update(before, j as int, KindCount { kind: k, count: n });
                let m2 = m.insert(kind@);
                assert forall|k2: Seq<char>| m2.count(k2) > 0 implies exists|i: int|
                    0 <= i < c@.len() && (#[trigger] c@[i]).kind@ == k2 by {
                    if k2 == kind@ {
                        assert(c@[j as int].kind@ == k2);
                    } else {
                        assert(m.count(k2) > 0);
                        let i = choose|i: int| 0 <= i < before.len() && (#[trigger] before[i]).kind@ == k2;
                        assert(c@[i].kind@ == k2);
                    }
                }
            }
            return;
        }
        j = j + 1;
    }
    let ghost before = c@;
    c.push(KindCount { kind: kind.clone(), count: 1 });
    proof {
        let m2 = m.insert(kind@);
        assert(m.count(kind@) == 0) by {
            if m.count(kind@) > 0 {
                let i = choose|i: int| 0 <= i < before.len() && (#[trigger] before[i]).kind@ == kind@;
                assert(before[i].kind@ != kind@);
            }
        }
        assert(c@.drop_last() =~= before);
        assert forall|k2: Seq<char>| m2.count(k2) > 0 implies exists|i: int|
            0 <= i < c@.len() && (#[trigger] c@[i]).kind@ == k2 by {
            if k2 == kind@ {
                assert(c@[before.len() as int].kind@ == k2);
            } else {
                assert(m.count(k2) > 0);
                let i = choose|i: int| 0 <= i < before.len() && (#[trigger] before[i]).kind@ == k2;
                assert(c@[i].kind@ == k2);
            }
        }
        assert forall|i: int| 0 <= i < c@.len() implies (#[trigger] c@[i]).count == m2.count(c@[i].kind@)
            && c@[i].count > 0 by {
            if i < before.len() {
                assert(c@[i] == before[i]);
            }
        }
    }
}

/// Counts the kinds in `kinds`.
pub fn tally(kinds: &Vec<String>) -> (r: Vec<KindCount>)
    ensures
        tallies(r@, kinds@.map_values(|k: String| k@).to_multiset()),
        total(r@) == kinds.len(),
{
    let mut r: Vec<KindCount> = Vec::new();
    let mut i: usize = 0;
    proof {
        let s0 = kinds@.subrange(0, 0).map_values(|k: String| k@);
        s0.to_multiset_ensures();
        assert forall|k: Seq<char>| s0.to_multiset().count(k) == 0 by {
            assert(s0.to_multiset().count(k) <= s0.to_multiset().len());
        }
    }
    while i < kinds.len()
        invariant
            i <= kinds.len(),
            tallies(r@, kinds@.subrange(0, i as int).map_values(|k: String| k@).to_multiset()),
            total(r@) == i,
        decreases kinds.len() - i,
    {
        let ghost m = kinds@.subrange(0, i as int).map_values(|k: String| k@).to_multiset();
        proof {
            kinds@.subrange(0, i as int).map_values(|k: String| k@).to_multiset_ensures();
        }
        add_kind(&mut r, &kinds[i], Ghost(m));
        proof {
            let s = kinds@.subrange(0, i as int).map_values(|k: String| k@);
            assert(kinds@.subrange(0, i + 1).map_values(|k: String| k@) =~= s.push(kinds@[i as int]@));
            s.to_multiset_ensures();
        }
        i = i + 1;
    }
    proof {
        assert(kinds@.subrange(0, kinds.len() as int) =~= kinds@);
    }
    r
}

} // verus!
