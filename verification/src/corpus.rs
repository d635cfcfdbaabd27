//! The corpus as the GUI sees it: one manifest entry per workbook, listed
//! for the browser, and the rule by which a request names one workbook.

use vstd::prelude::*;
use crate::paths::{file_name, path_file_name, quote_debug, debug_quoted};
use crate::text::{has_prefix, str_starts_with, str_equal, u64_to_decimal, decimal};

verus! {

/// One workbook in the corpus manifest: where it was read from and what
/// indexing it produced.
pub struct Entry {
    pub path: String,
    pub sheets: usize,
    pub cells: u64,
    pub nodes: u64,
    pub edges: u64,
    pub formula_group_nodes: bool,
    pub profiled_columns: u64,
    pub profile_values: bool,
}

/// One workbook as the corpus lists it.
pub struct WorkbookDto {
    pub hash: String,
    pub path: String,
    pub sheets: usize,
    pub cells: u64,
    pub nodes: u64,
    pub edges: u64,
    pub formula_group_nodes: bool,
    pub profiled_columns: u64,
    pub profile_values: bool,
}

impl Clone for WorkbookDto {
    fn clone(&self) -> (r: Self)
        ensures
            r == *self,
    {
        WorkbookDto {
            hash: self.hash.clone(),
            path: self.path.clone(),
            sheets: self.sheets,
            cells: self.cells,
            nodes: self.nodes,
            edges: self.edges,
            formula_group_nodes: self.formula_group_nodes,
            profiled_columns: self.profiled_columns,
            profile_values: self.profile_values,
        }
    }
}

/// `dto` lists the manifest entry `entry` stored under `hash`.
pub open spec fn lists(dto: WorkbookDto, hash: Seq<char>, entry: Entry) -> bool {
    &&& dto.hash@ == hash
    &&& dto.path@ == entry.path@
    &&& dto.sheets == entry.sheets
    &&& dto.cells == entry.cells
    &&& dto.nodes == entry.nodes
    &&& dto.edges == entry.edges
    &&& dto.formula_group_nodes == entry.formula_group_nodes
    &&& dto.profiled_columns == entry.profiled_columns
    &&& dto.profile_values == entry.profile_values
}

impl WorkbookDto {
    /// The listing of one manifest entry.
    pub fn new(hash: &str, entry: &Entry) -> (r: WorkbookDto)
        ensures
            lists(r, hash@, *entry),
    {
        WorkbookDto {
            hash: String::from_str(hash),
            path: entry.path.clone(),
            sheets: entry.sheets,
            cells: entry.cells,
            nodes: entry.nodes,
            edges: entry.edges,
            formula_group_nodes: entry.formula_group_nodes,
            profiled_columns: entry.profiled_columns,
            profile_values: entry.profile_values,
        }
    }

    /// The whole manifest, in manifest order, one listing per entry.
    pub fn list(entries: &Vec<(String, Entry)>) -> (r: Vec<WorkbookDto>)
        ensures
            r.len() == entries.len(),
            forall|i: int| 0 <= i < r.len() ==> lists(#[trigger] r[i], entries[i].0@, entries[i].1),
    {
        let mut r: Vec<WorkbookDto> = Vec::new();
        let mut i: usize = 0;
        while i < entries.len()
            invariant
                i <= entries.len(),
                r.len() == i,
                forall|j: int| 0 <= j < i ==> lists(#[trigger] r[j], entries[j].0@, entries[j].1),
            decreases entries.len() - i,
        {
            let (hash, entry) = &entries[i];
            r.push(WorkbookDto::new(hash.as_str(), entry));
            i = i + 1;
        }
        r
    }
}

/// Whether `wanted` names the workbook stored under `hash` at `path`: as a
/// prefix of its hash, as its stored path, or as the bare file name of it.
pub open spec fn names_workbook(hash: Seq<char>, path: Seq<char>, wanted: Seq<char>) -> bool {
    ||| has_prefix(hash, wanted)
    ||| path == wanted
    ||| path_file_name(path) == Some(wanted)
}

/// The hashes of every entry that `wanted` names, in manifest order.
pub open spec fn matching(entries: Seq<(String, Entry)>, wanted: Seq<char>) -> Seq<String>
    decreases entries.len(),
{
    if entries.len() == 0 {
        Seq::empty()
    } else {
        let rest = matching(entries.drop_last(), wanted);
        let last = entries.last();
        if names_workbook(last.0@, last.1.path@, wanted) {
            rest.push(last.0)
        } else {
            rest
        }
    }
}

/// A request names a workbook exactly when it is a prefix of the
/// workbook's hash, its stored path, or the file name of that path.
pub proof fn law_names_workbook(hash: Seq<char>, path: Seq<char>, wanted: Seq<char>)
    ensures
        names_workbook(hash, path, wanted) <==> ((wanted.len() <= hash.len() && hash.subrange(
            0,
            wanted.len() as int,
        ) == wanted) || path == wanted || path_file_name(path) == Some(wanted)),
{
}

/// Entry `i` of `entries` is one that `wanted` names.
spec fn named_at(entries: Seq<(String, Entry)>, i: int, wanted: Seq<char>) -> bool {
    0 <= i < entries.len() && names_workbook(entries[i].0@, entries[i].1.path@, wanted)
}

proof fn lemma_matching(entries: Seq<(String, Entry)>, wanted: Seq<char>)
    ensures
        forall|k: int|
            0 <= k < matching(entries, wanted).len() ==> exists|i: int|
                named_at(entries, i, wanted) && #[trigger] matching(entries, wanted)[k] == entries[i].0,
        forall|i: int|
            #[trigger] named_at(entries, i, wanted) && (forall|j: int|
                j != i ==> !#[trigger] named_at(entries, j, wanted)) ==> matching(entries, wanted)
                == seq![entries[i].0],
        (forall|j: int| !#[trigger] named_at(entries, j, wanted)) ==> matching(entries, wanted).len() == 0,
        forall|i: int, j: int|
            i != j && #[trigger] named_at(entries, i, wanted) && #[trigger] named_at(entries, j, wanted)
                ==> matching(entries, wanted).len() >= 2,
    decreases entries.len(),
{
    if entries.len() > 0 {
        let d = entries.drop_last();
        let n = entries.len() - 1;
        lemma_matching(d, wanted);
        assert forall|i: int| 0 <= i < n implies #[trigger] named_at(d, i, wanted) == named_at(
            entries,
            i,
            wanted,
        ) by {
            assert(d[i] == entries[i]);
        }
        assert forall|i: int| #[trigger] named_at(entries, i, wanted) && i != n implies named_at(d, i, wanted) by {
            assert(d[i] == entries[i]);
        }
        let m = matching(entries, wanted);
        let md = matching(d, wanted);
        if named_at(entries, n, wanted) {
            assert(m == md.push(entries[n].0));
        } else {
            assert(m == md);
        }
        assert forall|k: int| 0 <= k < m.len() implies exists|i: int|
            named_at(entries, i, wanted) && #[trigger] m[k] == entries[i].0 by {
            if k < md.len() {
                assert(m[k] == md[k]);
                let i = choose|i: int| named_at(d, i, wanted) && #[trigger] md[k] == d[i].0;
                assert(d[i] == entries[i]);
                assert(named_at(entries, i, wanted));
            } else {
                assert(named_at(entries, n, wanted));
                assert(m[k] == entries[n].0);
            }
        }
        assert forall|i: int|
            #[trigger] named_at(entries, i, wanted) && (forall|j: int|
                j != i ==> !#[trigger] named_at(entries, j, wanted)) implies m == seq![entries[i].0] by {
            if i == n {
                assert forall|j: int| !#[trigger] named_at(d, j, wanted) by {
                    if named_at(d, j, wanted) {
                        assert(named_at(entries, j, wanted));
                    }
                }
                assert(m =~= seq![entries[i].0]);
            } else {
                assert(named_at(d, i, wanted));
                assert forall|j: int| j != i implies !#[trigger] named_at(d, j, wanted) by {
                    if named_at(d, j, wanted) {
                        assert(named_at(entries, j, wanted));
                    }
                }
                assert(d[i] == entries[i]);
            }
        }
        if forall|j: int| !#[trigger] named_at(entries, j, wanted) {
            assert forall|j: int| !#[trigger] named_at(d, j, wanted) by {
                if named_at(d, j, wanted) {
                    assert(named_at(entries, j, wanted));
                }
            }
        }
        assert forall|i: int, j: int|
            i != j && #[trigger] named_at(entries, i, wanted) && #[trigger] named_at(entries, j, wanted)
                implies m.len() >= 2 by {
            if i == n {
                assert(named_at(d, j, wanted));
                lemma_matching_nonempty(d, wanted, j);
            } else if j == n {
                assert(named_at(d, i, wanted));
                lemma_matching_nonempty(d, wanted, i);
            } else {
                assert(named_at(d, i, wanted) && named_at(d, j, wanted));
            }
        }
    }
}

/// Entry `i` is picked out by `wanted`: as a prefix of its hash, as its
/// stored path, or as its path's file name.
pub open spec fn picked(entries: Seq<(String, Entry)>, i: int, wanted: Seq<char>) -> bool {
    ||| (wanted.len() <= entries[i].0@.len() && entries[i].0@.subrange(0, wanted.len() as int) == wanted)
    ||| entries[i].1.path@ == wanted
    ||| path_file_name(entries[i].1.path@) == Some(wanted)
}

/// The workbooks a request matches are exactly those it picks out: one
/// entry picked out alone is the whole match, none picked out matches
/// nothing, two picked out make the match ambiguous, and every match is the
/// hash of an entry picked out.
pub proof fn law_matching_is_what_is_picked(entries: Seq<(String, Entry)>, wanted: Seq<char>)
    ensures
        forall|i: int|
            0 <= i < entries.len() && #[trigger] picked(entries, i, wanted) && (forall|j: int|
                0 <= j < entries.len() && j != i ==> !#[trigger] picked(entries, j, wanted)) ==> matching(
                entries,
                wanted,
            ) == seq![entries[i].0],
        (forall|j: int| 0 <= j < entries.len() ==> !#[trigger] picked(entries, j, wanted)) ==> matching(
            entries,
            wanted,
        ).len() == 0,
        forall|i: int, j: int|
            0 <= i < entries.len() && 0 <= j < entries.len() && i != j && #[trigger] picked(entries, i, wanted)
                && #[trigger] picked(entries, j, wanted) ==> matching(entries, wanted).len() >= 2,
        forall|k: int|
            0 <= k < matching(entries, wanted).len() ==> exists|i: int|
                0 <= i < entries.len() && picked(entries, i, wanted) && #[trigger] matching(entries, wanted)[k]
                    == entries[i].0,
{
    lemma_matching(entries, wanted);
    assert forall|k: int| 0 <= k < entries.len() implies #[trigger] named_at(entries, k, wanted) == picked(
        entries,
        k,
        wanted,
    ) by {
        law_names_workbook(entries[k].0@, entries[k].1.path@, wanted);
    }
    let m = matching(entries, wanted);
    assert forall|i: int|
        0 <= i < entries.len() && #[trigger] picked(entries, i, wanted) && (forall|j: int|
            0 <= j < entries.len() && j != i ==> !#[trigger] picked(entries, j, wanted)) implies m
        == seq![entries[i].0] by {
        assert(named_at(entries, i, wanted));
        assert forall|j: int| j != i implies !#[trigger] named_at(entries, j, wanted) by {
            if 0 <= j < entries.len() {
                assert(!picked(entries, j, wanted));
            }
        }
    }
    if forall|j: int| 0 <= j < entries.len() ==> !#[trigger] picked(entries, j, wanted) {
        assert forall|j: int| !#[trigger] named_at(entries, j, wanted) by {
            if 0 <= j < entries.len() {
                assert(!picked(entries, j, wanted));
            }
        }
    }
    assert forall|i: int, j: int|
        0 <= i < entries.len() && 0 <= j < entries.len() && i != j && #[trigger] picked(entries, i, wanted)
            && #[trigger] picked(entries, j, wanted) implies m.len() >= 2 by {
        assert(named_at(entries, i, wanted) && named_at(entries, j, wanted));
    }
    assert forall|k: int| 0 <= k < m.len() implies exists|i: int|
        0 <= i < entries.len() && picked(entries, i, wanted) && #[trigger] m[k] == entries[i].0 by {
        let i = choose|i: int| named_at(entries, i, wanted) && #[trigger] m[k] == entries[i].0;
        assert(picked(entries, i, wanted));
    }
}

proof fn lemma_matching_nonempty(entries: Seq<(String, Entry)>, wanted: Seq<char>, i: int)
    requires
        named_at(entries, i, wanted),
    ensures
        matching(entries, wanted).len() >= 1,
    decreases entries.len(),
{
    let d = entries.drop_last();
    let n = entries.len() - 1;
    if i != n {
        assert(d[i] == entries[i]);
        lemma_matching_nonempty(d, wanted, i);
    }
}

/// The message when nothing matches.
pub open spec fn no_match_message(wanted: Seq<char>) -> Seq<char> {
    "no workbook in this corpus matches "@ + debug_quoted(wanted)
}

/// The message when `count` workbooks match.
pub open spec fn ambiguous_message(wanted: Seq<char>, count: nat) -> Seq<char> {
    debug_quoted(wanted) + " matches "@ + decimal(count) + " workbooks; be more specific"@
}

fn names_workbook_exec(hash: &String, path: &String, wanted: &str) -> (r: bool)
    ensures
        r == names_workbook(hash@, path@, wanted@),
{
    if str_starts_with(hash.as_str(), wanted) {
        return true;
    }
    if str_equal(path.as_str(), wanted) {
        return true;
    }
    match file_name(path.as_str()) {
        Some(name) => str_equal(name, wanted),
        None => false,
    }
}

/// Resolve what a request meant by a workbook: a full hash, a hash prefix,
/// a stored path, or a bare filename, whichever picks out exactly one
/// entry. Anything else is an error that says how many matched.
pub fn resolve_hash(entries: &Vec<(String, Entry)>, wanted: &str) -> (r: Result<String, String>)
    ensures
        matching(entries@, wanted@).len() == 1 <==> r is Ok,
        r matches Ok(h) ==> h == matching(entries@, wanted@)[0],
        matching(entries@, wanted@).len() == 0 ==> (r matches Err(m) && m@ == no_match_message(wanted@)),
        matching(entries@, wanted@).len() > 1 ==> (r matches Err(m) && m@ == ambiguous_message(
            wanted@,
            matching(entries@, wanted@).len(),
        )),
        forall|i: int|
            0 <= i < entries.len() && ((wanted@.len() <= entries[i].0@.len() && entries[i].0@.subrange(0, wanted@.len() as int) == wanted@)
                || entries[i].1.path@ == wanted@ || path_file_name(entries[i].1.path@) == Some(wanted@))
                && (forall|j: int| 0 <= j < entries.len() && j != i ==> !((wanted@.len() <= entries[j].0@.len() && entries[j].0@.subrange(0, wanted@.len() as int) == wanted@)
                    || entries[j].1.path@ == wanted@ || path_file_name(entries[j].1.path@) == Some(wanted@)))
                ==> r == Ok::<String, String>(entries[i].0),
        (forall|j: int| 0 <= j < entries.len() ==> !((wanted@.len() <= entries[j].0@.len() && entries[j].0@.subrange(0, wanted@.len() as int) == wanted@)
            || entries[j].1.path@ == wanted@ || path_file_name(entries[j].1.path@) == Some(wanted@)))
            ==> (r matches Err(m) && m@ == "no workbook in this corpus matches "@ + debug_quoted(wanted@)),
        matching(entries@, wanted@).len() > 1 ==> (r matches Err(m) && m@ == debug_quoted(wanted@) + " matches "@
            + decimal(matching(entries@, wanted@).len()) + " workbooks; be more specific"@),
        forall|i: int, j: int|
            0 <= i < entries.len() && 0 <= j < entries.len() && i != j
                && ((wanted@.len() <= entries[i].0@.len() && entries[i].0@.subrange(0, wanted@.len() as int) == wanted@)
                || entries[i].1.path@ == wanted@ || path_file_name(entries[i].1.path@) == Some(wanted@))
                && ((wanted@.len() <= entries[j].0@.len() && entries[j].0@.subrange(0, wanted@.len() as int) == wanted@)
                || entries[j].1.path@ == wanted@ || path_file_name(entries[j].1.path@) == Some(wanted@))
                ==> r is Err,
        r matches Ok(h) ==> exists|i: int|
            0 <= i < entries.len() && h == entries[i].0
                && ((wanted@.len() <= entries[i].0@.len() && entries[i].0@.subrange(0, wanted@.len() as int) == wanted@)
                || entries[i].1.path@ == wanted@ || path_file_name(entries[i].1.path@) == Some(wanted@)),
{
    let mut found: Vec<String> = Vec::new();
    let mut i: usize = 0;
    while i < entries.len()
        invariant
            i <= entries.len(),
            found@ == matching(entries@.subrange(0, i as int), wanted@),
        decreases entries.len() - i,
    {
        proof {
            assert(entries@.subrange(0, i + 1).drop_last() =~= entries@.subrange(0, i as int));
        }
        let (hash, entry) = &entries[i];
        if names_workbook_exec(hash, &entry.path, wanted) {
            found.push(hash.clone());
        }
        i = i + 1;
    }
    proof {
        assert(entries@.subrange(0, entries.len() as int) =~= entries@);
        law_matching_is_what_is_picked(entries@, wanted@);
    }
    let res = if found.len() == 1 {
        Ok(found[0].clone())
    } else if found.len() == 0 {
        let mut m = String::from_str("no workbook in this corpus matches ");
        let q = quote_debug(wanted);
        m.append(q.as_str());
        proof {
            reveal_strlit("no workbook in this corpus matches ");
        }
        Err(m)
    } else {
        let mut m = quote_debug(wanted);
        m.append(" matches ");
        let count = u64_to_decimal(found.len() as u64);
        m.append(count.as_str());
        m.append(" workbooks; be more specific");
        proof {
            reveal_strlit(" matches ");
            reveal_strlit(" workbooks; be more specific");
        }
        Err(m)
    };
    proof {
        assert forall|i: int|
            0 <= i < entries.len() && ((wanted@.len() <= entries[i].0@.len() && entries[i].0@.subrange(0, wanted@.len() as int) == wanted@)
                || entries[i].1.path@ == wanted@ || path_file_name(entries[i].1.path@) == Some(wanted@))
                && (forall|j: int| 0 <= j < entries.len() && j != i ==> !((wanted@.len() <= entries[j].0@.len() && entries[j].0@.subrange(0, wanted@.len() as int) == wanted@)
                    || entries[j].1.path@ == wanted@ || path_file_name(entries[j].1.path@) == Some(wanted@)))
                implies res == Ok::<String, String>(entries[i].0) by {
            assert(picked(entries@, i, wanted@));
            assert forall|j: int| 0 <= j < entries.len() && j != i implies !#[trigger] picked(entries@, j, wanted@) by {
                assert(entries[j] == entries@[j]);
            }
        }
        assert forall|i: int, j: int|
            0 <= i < entries.len() && 0 <= j < entries.len() && i != j
                && ((wanted@.len() <= entries[i].0@.len() && entries[i].0@.subrange(0, wanted@.len() as int) == wanted@)
                || entries[i].1.path@ == wanted@ || path_file_name(entries[i].1.path@) == Some(wanted@))
                && ((wanted@.len() <= entries[j].0@.len() && entries[j].0@.subrange(0, wanted@.len() as int) == wanted@)
                || entries[j].1.path@ == wanted@ || path_file_name(entries[j].1.path@) == Some(wanted@))
                implies res is Err by {
            assert(picked(entries@, i, wanted@));
            assert(picked(entries@, j, wanted@));
        }
    }
    res
}

/// As `resolve_hash`, but no filter passes straight through as no filter.
pub fn resolve_hash_optional(entries: &Vec<(String, Entry)>, wanted: &Option<String>) -> (r: Result<
    Option<String>,
    String,
>)
    ensures
        wanted is None ==> r == Ok::<Option<String>, String>(None),
        wanted matches Some(w) ==> (matching(entries@, w@).len() == 1 <==> r is Ok),
        wanted matches Some(w) ==> (r matches Ok(h) ==> h == Some(matching(entries@, w@)[0])),
        wanted matches Some(w) ==> (matching(entries@, w@).len() == 0 ==> (r matches Err(m)
            && m@ == no_match_message(w@))),
        wanted matches Some(w) ==> (matching(entries@, w@).len() > 1 ==> (r matches Err(m) && m@
            == ambiguous_message(w@, matching(entries@, w@).len()))),
{
    match wanted {
        None => Ok(None),
        Some(w) => match resolve_hash(entries, w.as_str()) {
            Ok(h) => Ok(Some(h)),
            Err(m) => Err(m),
        },
    }
}

} // verus!
