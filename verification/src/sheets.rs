//! The sheet layer of a graph, which is also the browser's filter-by-sheet
//! list: one entry per sheet node, ordered by name.

use vstd::prelude::*;
use vstd::multiset::*;
use crate::graph::{NodeModel, NodePayload, SheetPayload};
use crate::text::{chars_lt, str_less, lemma_chars_lt_total, lemma_chars_lt_transitive};

verus! {

broadcast use {vstd::seq_lib::group_to_multiset_ensures, group_multiset_axioms};

pub struct SheetDto {
    pub node: u32,
    pub name: String,
    pub visible: bool,
    pub cells: u64,
    pub formula_cells: u64,
}

impl Clone for SheetDto {
    fn clone(&self) -> (r: Self)
        ensures
            r == *self,
    {
        SheetDto {
            node: self.node,
            name: self.name.clone(),
            visible: self.visible,
            cells: self.cells,
            formula_cells: self.formula_cells,
        }
    }
}

/// Every sheet node, in node order, as the browser lists it.
pub open spec fn sheet_layer(nodes: Seq<NodeModel>) -> Seq<SheetDto>
    decreases nodes.len(),
{
    if nodes.len() == 0 {
        Seq::empty()
    } else {
        let rest = sheet_layer(nodes.drop_last());
        match nodes.last().payload {
            NodePayload::Sheet(s) => rest.push(
                SheetDto {
                    node: (nodes.len() - 1) as u32,
                    name: s.name,
                    visible: s.visible,
                    cells: s.cells,
                    formula_cells: s.formula_cells,
                },
            ),
            _ => rest,
        }
    }
}

/// `d` lists sheet node `k` with payload `s`.
pub open spec fn lists_sheet(d: SheetDto, k: int, s: SheetPayload) -> bool {
    &&& d.node == k
    &&& d.name == s.name
    &&& d.visible == s.visible
    &&& d.cells == s.cells
    &&& d.formula_cells == s.formula_cells
}

/// The sheet layer holds one entry for every sheet node, hidden or not, in
/// node order, and nothing else.
pub proof fn law_sheet_layer(nodes: Seq<NodeModel>)
    requires
        nodes.len() <= u32::MAX + 1,
    ensures
        forall|k: int|
            0 <= k < nodes.len() && (#[trigger] nodes[k]).payload is Sheet ==> exists|i: int|
                0 <= i < sheet_layer(nodes).len() && lists_sheet(
                    #[trigger] sheet_layer(nodes)[i],
                    k,
                    nodes[k].payload->Sheet_0,
                ),
        forall|i: int|
            0 <= i < sheet_layer(nodes).len() ==> {
                let k = (#[trigger] sheet_layer(nodes)[i]).node as int;
                &&& 0 <= k < nodes.len()
                &&& nodes[k].payload is Sheet
                &&& lists_sheet(sheet_layer(nodes)[i], k, nodes[k].payload->Sheet_0)
            },
        forall|i: int, j: int|
            0 <= i < j < sheet_layer(nodes).len() ==> (#[trigger] sheet_layer(nodes)[i]).node
                < (#[trigger] sheet_layer(nodes)[j]).node,
    decreases nodes.len(),
{
    if nodes.len() > 0 {
        let d = nodes.drop_last();
        law_sheet_layer(d);
        lemma_sheet_layer_nodes_increasing(nodes);
        let n = nodes.len() - 1;
        let l = sheet_layer(nodes);
        let ld = sheet_layer(d);
        assert forall|k: int| 0 <= k < nodes.len() && (#[trigger] nodes[k]).payload is Sheet implies exists|i: int|
            0 <= i < l.len() && lists_sheet(#[trigger] l[i], k, nodes[k].payload->Sheet_0) by {
            if k < n {
                assert(d[k] == nodes[k]);
                let i = choose|i: int| 0 <= i < ld.len() && lists_sheet(#[trigger] ld[i], k, d[k].payload->Sheet_0);
                assert(l[i] == ld[i]);
            } else {
                assert(l[l.len() - 1].node == n);
            }
        }
        assert forall|i: int| 0 <= i < l.len() implies {
            let k = (#[trigger] l[i]).node as int;
            &&& 0 <= k < nodes.len()
            &&& nodes[k].payload is Sheet
            &&& lists_sheet(l[i], k, nodes[k].payload->Sheet_0)
        } by {
            if i < ld.len() {
                assert(l[i] == ld[i]);
                assert(d[ld[i].node as int] == nodes[ld[i].node as int]);
            }
        }
    }
}

/// `a` is listed before `b`: by name in code-point order, and by node
/// among equal names (the order a stable sort by name keeps).
pub open spec fn listed_before(a: SheetDto, b: SheetDto) -> bool {
    ||| chars_lt(a.name@, b.name@)
    ||| (a.name@ == b.name@ && a.node < b.node)
}

pub open spec fn sorted_by_name(s: Seq<SheetDto>) -> bool {
    forall|i: int, j: int| 0 <= i < j < s.len() ==> listed_before(#[trigger] s[i], #[trigger] s[j])
}

pub open spec fn nodes_increasing(s: Seq<SheetDto>) -> bool {
    forall|i: int, j: int| 0 <= i < j < s.len() ==> (#[trigger] s[i]).node < (#[trigger] s[j]).node
}

pub proof fn lemma_sheet_layer_nodes_increasing(nodes: Seq<NodeModel>)
    requires
        nodes.len() <= u32::MAX + 1,
    ensures
        nodes_increasing(sheet_layer(nodes)),
        forall|i: int|
            0 <= i < sheet_layer(nodes).len() ==> (#[trigger] sheet_layer(nodes)[i]).node
                < nodes.len(),
    decreases nodes.len(),
{
    if nodes.len() > 0 {
        lemma_sheet_layer_nodes_increasing(nodes.drop_last());
    }
}

/// The sheet layer, in node order.
pub fn collect_sheet_layer(nodes: &Vec<NodeModel>) -> (r: Vec<SheetDto>)
    requires
        nodes.len() <= u32::MAX,
    ensures
        r@ == sheet_layer(nodes@),
{
    let mut r: Vec<SheetDto> = Vec::new();
    let mut i: usize = 0;
    while i < nodes.len()
        invariant
            i <= nodes.len(),
            nodes.len() <= u32::MAX,
            r@ == sheet_layer(nodes@.subrange(0, i as int)),
        decreases nodes.len() - i,
    {
        proof {
            assert(nodes@.subrange(0, i + 1).drop_last() =~= nodes@.subrange(0, i as int));
        }
        match &nodes[i].payload {
            NodePayload::Sheet(s) => {
                r.push(
                    SheetDto {
                        node: i as u32,
                        name: s.name.clone(),
                        visible: s.visible,
                        cells: s.cells,
                        formula_cells: s.formula_cells,
                    },
                );
            },
            _ => {},
        }
        i = i + 1;
    }
    proof {
        assert(nodes@.subrange(0, nodes.len() as int) =~= nodes@);
    }
    r
}

proof fn lemma_insert_multiset(v: Seq<SheetDto>, p: int, x: SheetDto)
    requires
        0 <= p <= v.len(),
    ensures
        v.insert(p, x).to_multiset() =~= v.to_multiset().insert(x),
{
    let w = v.insert(p, x);
    v.insert_ensures(p, x);
    assert(w.remove(p) =~= v);
    w.to_multiset_ensures();
    assert(w[p] == x);
    assert(w.contains(x));
}

/// The sheets ordered by name, ties kept in node order.
pub fn sort_by_name(input: &Vec<SheetDto>) -> (r: Vec<SheetDto>)
    requires
        nodes_increasing(input@),
    ensures
        sorted_by_name(r@),
        r@.to_multiset() == input@.to_multiset(),
        forall|i: int, j: int|
            0 <= i < j < r.len() ==> chars_lt((#[trigger] r[i]).name@, (#[trigger] r[j]).name@) || (r[i].name@
                == r[j].name@ && r[i].node < r[j].node),
{
    let mut v: Vec<SheetDto> = Vec::new();
    let mut i: usize = 0;
    proof {
        assert(input@.subrange(0, 0) =~= Seq::<SheetDto>::empty());
    }
    while i < input.len()
        invariant
            i <= input.len(),
            nodes_increasing(input@),
            sorted_by_name(v@),
            v@.to_multiset() == input@.subrange(0, i as int).to_multiset(),
        decreases input.len() - i,
    {
        let x = input[i].clone();
        // every sheet placed so far comes earlier in node order
        proof {
            assert forall|k: int| 0 <= k < v.len() implies (#[trigger] v@[k]).node < x.node by {
                assert(v@.contains(v@[k]));
                assert(v@.to_multiset().count(v@[k]) > 0);
                assert(input@.subrange(0, i as int).contains(v@[k]));
                let j = choose|j: int| 0 <= j < i && input@.subrange(0, i as int)[j] == v@[k];
                assert(input@[j] == v@[k]);
            }
        }
        let mut p: usize = 0;
        while p < v.len() && !str_less(x.name.as_str(), v[p].name.as_str())
            invariant
                p <= v.len(),
                forall|k: int| 0 <= k < p ==> !chars_lt(x.name@, (#[trigger] v@[k]).name@),
            decreases v.len() - p,
        {
            p = p + 1;
        }
        let ghost old_v = v@;
        v.insert(p, x);
        proof {
            let w = v@;
            old_v.insert_ensures(p as int, x);
            assert forall|a: int, b: int| 0 <= a < b < w.len() implies listed_before(
                #[trigger] w[a],
                #[trigger] w[b],
            ) by {
                if b < p {
                    assert(w[a] == old_v[a] && w[b] == old_v[b]);
                } else if a > p {
                    assert(w[a] == old_v[a - 1] && w[b] == old_v[b - 1]);
                } else if a < p && b == p {
                    assert(w[a] == old_v[a]);
                    lemma_chars_lt_total(x.name@, old_v[a].name@);
                    assert(old_v[a].node < x.node);
                } else if a < p {
                    assert(w[a] == old_v[a] && w[b] == old_v[b - 1]);
                    assert(listed_before(old_v[a], old_v[b - 1]));
                } else {
                    // a == p < b: x sorts before old_v[p], which sorts no later than old_v[b - 1]
                    assert(w[b] == old_v[b - 1]);
                    assert(chars_lt(x.name@, old_v[p as int].name@));
                    if b - 1 > p {
                        assert(listed_before(old_v[p as int], old_v[b - 1]));
                        if chars_lt(old_v[p as int].name@, old_v[b - 1].name@) {
                            lemma_chars_lt_transitive(x.name@, old_v[p as int].name@, old_v[b - 1].name@);
                        }
                    }
                }
            }
            lemma_insert_multiset(old_v, p as int, x);
            assert(input@.subrange(0, i + 1) =~= input@.subrange(0, i as int).push(input@[i as int]));
        }
        i = i + 1;
    }
    proof {
        assert(input@.subrange(0, input.len() as int) =~= input@);
    }
    v
}

} // verus!
