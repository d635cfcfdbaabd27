//! A stored graph as plain values: nodes in index order, edges in the order
//! they were added, each carrying what the flattening reads of it.

use vstd::prelude::*;

verus! {

/// The rectangle a node covers: the sheet it is on, that sheet's id as
/// text, its A1 form, and its citation with the sheet's name where the
/// graph names that sheet.
pub struct RangeModel {
    pub sheet: u64,
    pub sheet_label: String,
    pub a1: String,
    pub cited: Option<String>,
}

/// The sheet layer's payload.
pub struct SheetPayload {
    pub id: u64,
    pub name: String,
    pub visible: bool,
    pub cells: u64,
    pub formula_cells: u64,
}

/// The parts of a node's payload that the flattening tells apart.
pub enum NodePayload {
    Sheet(SheetPayload),
    Region { cell_count: u64 },
    FormulaGroup { cell_count: u64 },
    Other,
}

/// One node: its kind's name, its label, the range it covers, the sheet it
/// lives on, its payload, and the payload as JSON text.
pub struct NodeModel {
    pub kind: String,
    pub label: String,
    pub range: Option<RangeModel>,
    pub sheet: Option<u64>,
    pub payload: NodePayload,
    pub data: String,
}

/// One edge: endpoints by node index, its kind's name, whether it is a
/// containment edge, and how many cell references stand behind it.
pub struct EdgeModel {
    pub source: u32,
    pub target: u32,
    pub kind: String,
    pub contains: bool,
    pub weight: u64,
}

/// Nodes in index order, edges in the order they were added, and for each
/// node the indices of the edges from it and to it, in the order the graph
/// lists them.
pub struct GraphModel {
    pub nodes: Vec<NodeModel>,
    pub edges: Vec<EdgeModel>,
    pub outgoing: Vec<Vec<u32>>,
    pub incoming: Vec<Vec<u32>>,
}

/// A graph as the corpus stores it.
pub struct StoredGraph {
    pub content_hash: String,
    pub path: String,
    pub root: u32,
    pub formula_group_nodes: bool,
    pub graph: GraphModel,
}

/// The `(id, name)` of every sheet node, in node order.
pub open spec fn sheet_list(nodes: Seq<NodeModel>) -> Seq<(u64, String)>
    decreases nodes.len(),
{
    if nodes.len() == 0 {
        Seq::empty()
    } else {
        let rest = sheet_list(nodes.drop_last());
        match nodes.last().payload {
            NodePayload::Sheet(s) => rest.push((s.id, s.name)),
            _ => rest,
        }
    }
}

/// The name under `id` in `list`, the later entry winning.
pub open spec fn lookup_name(list: Seq<(u64, String)>, id: u64) -> Option<String>
    decreases list.len(),
{
    if list.len() == 0 {
        None
    } else if list.last().0 == id {
        Some(list.last().1)
    } else {
        lookup_name(list.drop_last(), id)
    }
}

/// The name the graph gives sheet `id`: that of the last sheet node with
/// that id.
pub open spec fn sheet_name_of(nodes: Seq<NodeModel>, id: u64) -> Option<String> {
    lookup_name(sheet_list(nodes), id)
}

/// Whether `n` is a sheet node for sheet `id`, visible or not.
pub open spec fn is_sheet_node(n: NodeModel, id: u64) -> bool {
    match n.payload {
        NodePayload::Sheet(s) => s.id == id,
        _ => false,
    }
}

/// Node `k` is the last sheet node for sheet `id`.
pub open spec fn last_sheet_node(nodes: Seq<NodeModel>, k: int, id: u64) -> bool {
    &&& 0 <= k < nodes.len()
    &&& is_sheet_node(nodes[k], id)
    &&& forall|j: int| k < j < nodes.len() ==> !is_sheet_node(#[trigger] nodes[j], id)
}

/// The name of a sheet is that of its last sheet node, hidden or not.
pub proof fn law_last_sheet_node_names_the_sheet(nodes: Seq<NodeModel>, k: int, id: u64)
    requires
        last_sheet_node(nodes, k, id),
    ensures
        nodes[k].payload matches NodePayload::Sheet(s) && sheet_name_of(nodes, id) == Some(s.name),
    decreases nodes.len(),
{
    let last = nodes.last();
    if k < nodes.len() - 1 {
        assert(!is_sheet_node(nodes[nodes.len() - 1], id));
        assert(last_sheet_node(nodes.drop_last(), k, id)) by {
            assert forall|j: int| k < j < nodes.drop_last().len() implies !is_sheet_node(
                #[trigger] nodes.drop_last()[j],
                id,
            ) by {
                assert(nodes.drop_last()[j] == nodes[j]);
            }
        }
        law_last_sheet_node_names_the_sheet(nodes.drop_last(), k, id);
        assert(nodes.drop_last()[k] == nodes[k]);
        match last.payload {
            NodePayload::Sheet(s) => {
                assert(s.id != id);
                assert(sheet_list(nodes) == sheet_list(nodes.drop_last()).push((s.id, s.name)));
                assert(sheet_list(nodes).drop_last() =~= sheet_list(nodes.drop_last()));
            },
            _ => {},
        }
    } else {
        match last.payload {
            NodePayload::Sheet(s) => {
                assert(sheet_list(nodes) == sheet_list(nodes.drop_last()).push((s.id, s.name)));
            },
            _ => {},
        }
    }
}

/// A sheet no sheet node stands for has no name.
pub proof fn law_unlisted_sheet_has_no_name(nodes: Seq<NodeModel>, id: u64)
    requires
        forall|j: int| 0 <= j < nodes.len() ==> !is_sheet_node(#[trigger] nodes[j], id),
    ensures
        sheet_name_of(nodes, id) is None,
    decreases nodes.len(),
{
    if nodes.len() > 0 {
        assert forall|j: int| 0 <= j < nodes.drop_last().len() implies !is_sheet_node(
            #[trigger] nodes.drop_last()[j],
            id,
        ) by {
            assert(nodes.drop_last()[j] == nodes[j]);
        }
        law_unlisted_sheet_has_no_name(nodes.drop_last(), id);
        assert(!is_sheet_node(nodes[nodes.len() - 1], id));
        match nodes.last().payload {
            NodePayload::Sheet(s) => {
                assert(sheet_list(nodes).drop_last() =~= sheet_list(nodes.drop_last()));
            },
            _ => {},
        }
    }
}

/// The sources of the containment edges into `target`, in edge order.
pub open spec fn containers_of(edges: Seq<EdgeModel>, target: u32) -> Seq<u32>
    decreases edges.len(),
{
    if edges.len() == 0 {
        Seq::empty()
    } else {
        let earlier = containers_of(edges.drop_last(), target);
        if edges.last().contains && edges.last().target == target {
            earlier.push(edges.last().source)
        } else {
            earlier
        }
    }
}

/// The node whose containment edge points at `target`, when there is
/// exactly one such edge; none when there are none or several.
pub open spec fn parent_of(edges: Seq<EdgeModel>, target: u32) -> Option<u32> {
    let c = containers_of(edges, target);
    if c.len() == 1 {
        Some(c[0])
    } else {
        None
    }
}

/// Edge `e` is a containment edge into `target`.
pub open spec fn contains_into(edges: Seq<EdgeModel>, e: int, target: u32) -> bool {
    0 <= e < edges.len() && edges[e].contains && edges[e].target == target
}

proof fn lemma_containers(edges: Seq<EdgeModel>, target: u32)
    ensures
        (forall|e: int| !#[trigger] contains_into(edges, e, target)) ==> containers_of(edges, target).len()
            == 0,
        forall|e: int|
            #[trigger] contains_into(edges, e, target) && (forall|f: int|
                f != e ==> !#[trigger] contains_into(edges, f, target)) ==> containers_of(edges, target)
                == seq![edges[e].source],
        forall|e: int, f: int|
            e != f && #[trigger] contains_into(edges, e, target) && #[trigger] contains_into(edges, f, target)
                ==> containers_of(edges, target).len() >= 2,
        forall|e: int| #[trigger] contains_into(edges, e, target) ==> containers_of(edges, target).len() >= 1,
    decreases edges.len(),
{
    if edges.len() > 0 {
        let d = edges.drop_last();
        let n = edges.len() - 1;
        lemma_containers(d, target);
        assert forall|e: int| 0 <= e < n implies #[trigger] contains_into(d, e, target) == contains_into(
            edges,
            e,
            target,
        ) by {
            assert(d[e] == edges[e]);
        }
        assert forall|e: int| #[trigger] contains_into(edges, e, target) && e != n implies contains_into(
            d,
            e,
            target,
        ) by {
            assert(d[e] == edges[e]);
        }
        if contains_into(edges, n, target) {
            assert(containers_of(edges, target) == containers_of(d, target).push(edges[n].source));
        } else {
            assert(containers_of(edges, target) == containers_of(d, target));
        }
        assert forall|e: int|
            #[trigger] contains_into(edges, e, target) && (forall|f: int|
                f != e ==> !#[trigger] contains_into(edges, f, target)) implies containers_of(edges, target)
                == seq![edges[e].source] by {
            if e == n {
                assert forall|f: int| !#[trigger] contains_into(d, f, target) by {
                    if contains_into(d, f, target) {
                        assert(contains_into(edges, f, target));
                    }
                }
                assert(containers_of(d, target).len() == 0);
                assert(containers_of(edges, target) =~= seq![edges[e].source]);
            } else {
                assert(contains_into(d, e, target));
                assert forall|f: int| f != e implies !#[trigger] contains_into(d, f, target) by {
                    if contains_into(d, f, target) {
                        assert(contains_into(edges, f, target));
                    }
                }
                assert(d[e] == edges[e]);
            }
        }
        assert forall|e: int, f: int|
            e != f && #[trigger] contains_into(edges, e, target) && #[trigger] contains_into(edges, f, target)
                implies containers_of(edges, target).len() >= 2 by {
            if e == n {
                assert(contains_into(d, f, target));
            } else if f == n {
                assert(contains_into(d, e, target));
            } else {
                assert(contains_into(d, e, target) && contains_into(d, f, target));
            }
        }
        assert forall|e: int| #[trigger] contains_into(edges, e, target) implies containers_of(
            edges,
            target,
        ).len() >= 1 by {
            if e != n {
                assert(contains_into(d, e, target));
            }
        }
    }
}

/// A node's parent is the source of the one containment edge into it:
/// there is a parent exactly when exactly one containment edge reaches the
/// node, and it is that edge's source.
pub proof fn law_parent_is_the_one_container(edges: Seq<EdgeModel>, target: u32, e: int)
    ensures
        contains_into(edges, e, target) && (forall|f: int| f != e ==> !#[trigger] contains_into(edges, f, target))
            ==> parent_of(edges, target) == Some(edges[e].source),
        (forall|f: int| !#[trigger] contains_into(edges, f, target)) ==> parent_of(edges, target) is None,
        (exists|f: int| f != e && #[trigger] contains_into(edges, f, target)) && contains_into(edges, e, target)
            ==> parent_of(edges, target) is None,
        parent_of(edges, target) matches Some(p) ==> exists|f: int|
            #[trigger] contains_into(edges, f, target) && edges[f].source == p,
{
    lemma_containers(edges, target);
    if parent_of(edges, target) is Some {
        let c = containers_of(edges, target);
        assert(c.len() == 1);
        if forall|f: int| !#[trigger] contains_into(edges, f, target) {
        } else {
            let f = choose|f: int| #[trigger] contains_into(edges, f, target);
            if exists|g: int| g != f && #[trigger] contains_into(edges, g, target) {
                let g = choose|g: int| g != f && #[trigger] contains_into(edges, g, target);
                assert(c.len() >= 2);
            } else {
                assert(c == seq![edges[f].source]);
            }
        }
    }
    if (exists|f: int| f != e && #[trigger] contains_into(edges, f, target)) && contains_into(edges, e, target) {
        let f = choose|f: int| f != e && #[trigger] contains_into(edges, f, target);
        assert(containers_of(edges, target).len() >= 2);
    }
}

impl GraphModel {
    /// Node indices fit in `u32`, every edge joins two nodes, each node's
    /// edge lists hold every edge from it and to it exactly once, and a
    /// range on a sheet the graph names carries its citation.
    pub open spec fn wf(&self) -> bool {
        &&& self.nodes.len() <= u32::MAX
        &&& self.outgoing.len() == self.nodes.len()
        &&& self.incoming.len() == self.nodes.len()
        &&& forall|i: int, k: int|
            0 <= i < self.nodes.len() && 0 <= k < self.outgoing[i].len() ==> (#[trigger] self.outgoing[i][k])
                < self.edges.len() && self.edges[self.outgoing[i][k] as int].source == i
        &&& forall|i: int, k: int|
            0 <= i < self.nodes.len() && 0 <= k < self.incoming[i].len() ==> (#[trigger] self.incoming[i][k])
                < self.edges.len() && self.edges[self.incoming[i][k] as int].target == i
        &&& forall|e: int|
            0 <= e < self.edges.len() ==> exists|k: int|
                0 <= k < self.outgoing[(#[trigger] self.edges[e]).source as int].len()
                    && self.outgoing[self.edges[e].source as int][k] == e
        &&& forall|e: int|
            0 <= e < self.edges.len() ==> exists|k: int|
                0 <= k < self.incoming[(#[trigger] self.edges[e]).target as int].len()
                    && self.incoming[self.edges[e].target as int][k] == e
        &&& forall|i: int, a: int, b: int|
            0 <= i < self.nodes.len() && 0 <= a < b < self.outgoing[i].len() ==> (#[trigger] self.outgoing[i][a])
                != (#[trigger] self.outgoing[i][b])
        &&& forall|i: int, a: int, b: int|
            0 <= i < self.nodes.len() && 0 <= a < b < self.incoming[i].len() ==> (#[trigger] self.incoming[i][a])
                != (#[trigger] self.incoming[i][b])
        &&& forall|e: int|
            0 <= e < self.edges.len() ==> (#[trigger] self.edges[e]).source < self.nodes.len()
                && self.edges[e].target < self.nodes.len()
        &&& forall|i: int|
            0 <= i < self.nodes.len() ==> ((#[trigger] self.nodes[i]).range matches Some(r) ==> (
            sheet_name_of(self.nodes@, r.sheet) is Some ==> r.cited is Some))
    }
}

/// Looks up the name `sheet_name_of` gives, in a list built by
/// `sheet_list`.
pub fn find_sheet_name(list: &Vec<(u64, String)>, id: u64) -> (r: Option<String>)
    ensures
        r == lookup_name(list@, id),
{
    let mut k: usize = list.len();
    proof {
        assert(list@.subrange(0, k as int) =~= list@);
    }
    while k > 0
        invariant
            k <= list.len(),
            lookup_name(list@, id) == lookup_name(list@.subrange(0, k as int), id),
        decreases k,
    {
        proof {
            assert(list@.subrange(0, k as int).drop_last() =~= list@.subrange(0, k - 1));
        }
        if list[k - 1].0 == id {
            return Some(list[k - 1].1.clone());
        }
        k = k - 1;
    }
    None
}

/// The sheet list of a graph's nodes.
pub fn sheet_names(nodes: &Vec<NodeModel>) -> (r: Vec<(u64, String)>)
    ensures
        r@ == sheet_list(nodes@),
{
    let mut r: Vec<(u64, String)> = Vec::new();
    let mut i: usize = 0;
    while i < nodes.len()
        invariant
            i <= nodes.len(),
            r@ == sheet_list(nodes@.subrange(0, i as int)),
        decreases nodes.len() - i,
    {
        proof {
            assert(nodes@.subrange(0, i + 1).drop_last() =~= nodes@.subrange(0, i as int));
        }
        match &nodes[i].payload {
            NodePayload::Sheet(s) => {
                r.push((s.id, s.name.clone()));
            },
            _ => {},
        }
        i = i + 1;
    }
    proof {
        assert(nodes@.subrange(0, nodes.len() as int) =~= nodes@);
    }
    r
}

/// The containment parent of every node, by index: the source of the one
/// containment edge into it, or none where there are none or several.
pub fn containment_parents(node_count: usize, edges: &Vec<EdgeModel>) -> (r: Vec<Option<u32>>)
    requires
        node_count <= u32::MAX,
        forall|e: int| 0 <= e < edges.len() ==> (#[trigger] edges[e]).target < node_count,
    ensures
        r.len() == node_count,
        forall|t: int| 0 <= t < node_count ==> #[trigger] r[t] == parent_of(edges@, t as u32),
{
    // The first container seen for each node, and whether a second was.
    let mut first: Vec<Option<u32>> = Vec::new();
    let mut shared: Vec<bool> = Vec::new();
    let mut t: usize = 0;
    while t < node_count
        invariant
            t <= node_count,
            first.len() == t,
            shared.len() == t,
            forall|j: int| 0 <= j < t ==> #[trigger] first[j] == None::<u32>,
            forall|j: int| 0 <= j < t ==> !#[trigger] shared[j],
        decreases node_count - t,
    {
        first.push(None);
        shared.push(false);
        t = t + 1;
    }
    proof {
        assert(edges@.subrange(0, 0) =~= Seq::<EdgeModel>::empty());
    }
    let mut i: usize = 0;
    while i < edges.len()
        invariant
            i <= edges.len(),
            first.len() == node_count,
            shared.len() == node_count,
            forall|e: int| 0 <= e < edges.len() ==> (#[trigger] edges[e]).target < node_count,
            node_count <= u32::MAX,
            forall|j: int|
                0 <= j < node_count ==> #[trigger] first[j] == (if containers_of(
                    edges@.subrange(0, i as int),
                    j as u32,
                ).len() > 0 {
                    Some(containers_of(edges@.subrange(0, i as int), j as u32)[0])
                } else {
                    None
                }),
            forall|j: int|
                0 <= j < node_count ==> #[trigger] shared[j] == (containers_of(
                    edges@.subrange(0, i as int),
                    j as u32,
                ).len() >= 2),
        decreases edges.len() - i,
    {
        proof {
            assert(edges@.subrange(0, i + 1).drop_last() =~= edges@.subrange(0, i as int));
        }
        let target = edges[i].target as usize;
        if edges[i].contains {
            if first[target].is_none() {
                first.set(target, Some(edges[i].source));
            } else {
                shared.set(target, true);
            }
        }
        proof {
            let s = edges@.subrange(0, i + 1);
            assert(s.last() == edges[i as int]);
            assert forall|j: int| 0 <= j < node_count implies {
                &&& #[trigger] first[j] == (if containers_of(s, j as u32).len() > 0 {
                    Some(containers_of(s, j as u32)[0])
                } else {
                    None
                })
                &&& shared[j] == (containers_of(s, j as u32).len() >= 2)
            } by {
                let before = containers_of(edges@.subrange(0, i as int), j as u32);
                if j != target {
                    assert((j as u32) != edges[i as int].target);
                } else if edges[i as int].contains {
                    assert(containers_of(s, j as u32) == before.push(edges[i as int].source));
                    if before.len() > 0 {
                        assert(before.push(edges[i as int].source)[0] == before[0]);
                    }
                }
            }
        }
        i = i + 1;
    }
    proof {
        assert(edges@.subrange(0, edges.len() as int) =~= edges@);
    }
    let mut r: Vec<Option<u32>> = Vec::new();
    let mut t: usize = 0;
    while t < node_count
        invariant
            t <= node_count,
            first.len() == node_count,
            shared.len() == node_count,
            r.len() == t,
            forall|j: int|
                0 <= j < node_count ==> #[trigger] first[j] == (if containers_of(edges@, j as u32).len()
                    > 0 {
                    Some(containers_of(edges@, j as u32)[0])
                } else {
                    None
                }),
            forall|j: int|
                0 <= j < node_count ==> #[trigger] shared[j] == (containers_of(edges@, j as u32).len()
                    >= 2),
            forall|j: int| 0 <= j < t ==> #[trigger] r[j] == parent_of(edges@, j as u32),
        decreases node_count - t,
    {
        if shared[t] {
            r.push(None);
        } else {
            r.push(first[t]);
        }
        proof {
            assert(shared[t as int] == (containers_of(edges@, t as u32).len() >= 2));
            assert(first[t as int] == (if containers_of(edges@, t as u32).len() > 0 {
                Some(containers_of(edges@, t as u32)[0])
            } else {
                None
            }));
        }
        t = t + 1;
    }
    r
}

} // verus!
