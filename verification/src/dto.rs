//! What the browser sees of a stored graph: every node flattened with its
//! citation, sheet and containment parent; every edge; counts per kind; the
//! sheet layer; and, for one node, everything hanging off it.

use vstd::prelude::*;
use vstd::multiset::Multiset;
use crate::graph::{
    EdgeModel, GraphModel, NodeModel, NodePayload, RangeModel, StoredGraph, containment_parents,
    find_sheet_name, parent_of, sheet_list, sheet_name_of, sheet_names, contains_into, is_sheet_node,
    last_sheet_node, law_last_sheet_node_names_the_sheet, law_unlisted_sheet_has_no_name,
    law_parent_is_the_one_container,
};
use crate::sheets::{
    SheetDto, collect_sheet_layer, lemma_sheet_layer_nodes_increasing, sheet_layer, sort_by_name,
    sorted_by_name, law_sheet_layer, lists_sheet,
};
use crate::text::chars_lt;
use crate::tally::{KindCount, tallies, tally, total};

verus! {

broadcast use vstd::seq_lib::group_to_multiset_ensures;

/// One node as the browser lays it out.
pub struct NodeDto {
    pub id: u32,
    pub kind: String,
    pub label: String,
    /// A fully-qualified citation, for the kinds that cover a rectangle.
    pub a1: Option<String>,
    /// The sheet this node lives on, by name.
    pub sheet: Option<String>,
    /// Cells covered, for the kinds that cover cells.
    pub cells: Option<u64>,
    /// The node whose containment edge points here, when there is exactly
    /// one such edge.
    pub parent: Option<u32>,
    /// The node payload as stored, as JSON text.
    pub data: String,
}

impl Clone for NodeDto {
    fn clone(&self) -> (r: Self)
        ensures
            r == *self,
    {
        NodeDto {
            id: self.id,
            kind: self.kind.clone(),
            label: self.label.clone(),
            a1: self.a1.clone(),
            sheet: self.sheet.clone(),
            cells: self.cells,
            parent: self.parent,
            data: self.data.clone(),
        }
    }
}

pub struct EdgeDto {
    pub source: u32,
    pub target: u32,
    pub kind: String,
    /// How many cell references stand behind this edge.
    pub weight: u64,
}

/// A whole stored graph, flattened into nodes and edges.
pub struct GraphDto {
    pub hash: String,
    pub path: String,
    pub root: u32,
    pub formula_groups: bool,
    pub nodes: Vec<NodeDto>,
    pub edges: Vec<EdgeDto>,
    /// Node count per kind.
    pub node_kinds: Vec<KindCount>,
    pub edge_kinds: Vec<KindCount>,
    /// The sheet layer, ordered by name.
    pub sheets: Vec<SheetDto>,
}

pub open spec fn opt_chars(o: Option<String>) -> Option<Seq<char>> {
    match o {
        Some(s) => Some(s@),
        None => None,
    }
}

/// How a range cites itself: with its sheet's name where the graph names
/// the sheet, else as the sheet's id, `!`, and the A1 form.
pub open spec fn cite(nodes: Seq<NodeModel>, r: RangeModel) -> Seq<char> {
    if sheet_name_of(nodes, r.sheet) is Some {
        r.cited->0@
    } else {
        r.sheet_label@ + "!"@ + r.a1@
    }
}

/// Cells covered, for sheets, regions and formula groups.
pub open spec fn cells_of(p: NodePayload) -> Option<u64> {
    match p {
        NodePayload::Sheet(s) => Some(s.cells),
        NodePayload::Region { cell_count } => Some(cell_count),
        NodePayload::FormulaGroup { cell_count } => Some(cell_count),
        NodePayload::Other => None,
    }
}

/// `d` is node `i` of `g`, flattened.
pub open spec fn flattens(d: NodeDto, g: GraphModel, i: int) -> bool {
    let n = g.nodes@[i];
    &&& d.id == i
    &&& d.kind@ == n.kind@
    &&& d.label@ == n.label@
    &&& opt_chars(d.a1) == match n.range {
        Some(r) => Some(cite(g.nodes@, r)),
        None => None,
    }
    &&& d.sheet == match n.sheet {
        Some(id) => sheet_name_of(g.nodes@, id),
        None => None,
    }
    &&& d.cells == cells_of(n.payload)
    &&& d.parent == parent_of(g.edges@, i as u32)
    &&& d.data@ == n.data@
}

/// `d` is the edge `e`, as the browser sees it.
pub open spec fn mirrors(d: EdgeDto, e: EdgeModel) -> bool {
    &&& d.source == e.source
    &&& d.target == e.target
    &&& d.kind@ == e.kind@
    &&& d.weight == e.weight
}

pub open spec fn node_kinds_of(nodes: Seq<NodeModel>) -> Multiset<Seq<char>> {
    nodes.map_values(|n: NodeModel| n.kind@).to_multiset()
}

pub open spec fn edge_kinds_of(edges: Seq<EdgeModel>) -> Multiset<Seq<char>> {
    edges.map_values(|e: EdgeModel| e.kind@).to_multiset()
}

fn cite_range(names: &Vec<(u64, String)>, r: &RangeModel, Ghost(nodes): Ghost<Seq<NodeModel>>) -> (s: String)
    requires
        names@ == sheet_list(nodes),
        sheet_name_of(nodes, r.sheet) is Some ==> r.cited is Some,
    ensures
        s@ == cite(nodes, *r),
{
    match find_sheet_name(names, r.sheet) {
        Some(_) => match &r.cited {
            Some(c) => c.clone(),
            None => {
                proof {
                    assert(false);
                }
                r.a1.clone()
            },
        },
        None => {
            let mut s = r.sheet_label.clone();
            s.append("!");
            s.append(r.a1.as_str());
            proof {
                reveal_strlit("!");
            }
            s
        },
    }
}

fn cells_exec(p: &NodePayload) -> (r: Option<u64>)
    ensures
        r == cells_of(*p),
{
    match p {
        NodePayload::Sheet(s) => Some(s.cells),
        NodePayload::Region { cell_count } => Some(*cell_count),
        NodePayload::FormulaGroup { cell_count } => Some(*cell_count),
        NodePayload::Other => None,
    }
}

fn flatten_node(
    g: &GraphModel,
    i: usize,
    names: &Vec<(u64, String)>,
    parents: &Vec<Option<u32>>,
) -> (d: NodeDto)
    requires
        g.wf(),
        i < g.nodes.len(),
        names@ == sheet_list(g.nodes@),
        parents.len() == g.nodes.len(),
        forall|t: int| 0 <= t < g.nodes.len() ==> #[trigger] parents[t] == parent_of(g.edges@, t as u32),
    ensures
        flattens(d, *g, i as int),
{
    let n = &g.nodes[i];
    let a1 = match &n.range {
        Some(r) => {
            assert(g.nodes@[i as int].range matches Some(r2) && r2 == *r);
            Some(cite_range(names, r, Ghost(g.nodes@)))
        },
        None => None,
    };
    let sheet = match n.sheet {
        Some(id) => find_sheet_name(names, id),
        None => None,
    };
    NodeDto {
        id: i as u32,
        kind: n.kind.clone(),
        label: n.label.clone(),
        a1,
        sheet,
        cells: cells_exec(&n.payload),
        parent: parents[i],
        data: n.data.clone(),
    }
}

/// A whole stored graph, flattened: nodes in index order, edges in the
/// order they were added, counts per kind, and the sheet layer by name.
pub fn graph_dto(stored: &StoredGraph) -> (r: GraphDto)
    requires
        stored.graph.wf(),
    ensures
        r.hash == stored.content_hash,
        r.path == stored.path,
        r.root == stored.root,
        r.formula_groups == stored.formula_group_nodes,
        r.nodes.len() == stored.graph.nodes.len(),
        forall|i: int| 0 <= i < r.nodes.len() ==> flattens(#[trigger] r.nodes[i], stored.graph, i),
        r.edges.len() == stored.graph.edges.len(),
        forall|i: int| 0 <= i < r.edges.len() ==> mirrors(#[trigger] r.edges[i], stored.graph.edges[i]),
        forall|i: int|
            0 <= i < r.edges.len() ==> (#[trigger] r.edges[i]).source == stored.graph.edges[i].source
                && r.edges[i].target == stored.graph.edges[i].target && r.edges[i].kind@
                == stored.graph.edges[i].kind@ && r.edges[i].weight == stored.graph.edges[i].weight,
        tallies(r.node_kinds@, node_kinds_of(stored.graph.nodes@)),
        total(r.node_kinds@) == stored.graph.nodes.len(),
        tallies(r.edge_kinds@, edge_kinds_of(stored.graph.edges@)),
        total(r.edge_kinds@) == stored.graph.edges.len(),
        sorted_by_name(r.sheets@),
        r.sheets@.to_multiset() == sheet_layer(stored.graph.nodes@).to_multiset(),
        forall|i: int, j: int|
            0 <= i < j < r.sheets.len() ==> chars_lt((#[trigger] r.sheets[i]).name@, (#[trigger] r.sheets[j]).name@)
                || (r.sheets[i].name@ == r.sheets[j].name@ && r.sheets[i].node < r.sheets[j].node),
        forall|k: int|
            0 <= k < stored.graph.nodes.len() && (#[trigger] stored.graph.nodes[k]).payload is Sheet ==> exists|i: int|
                0 <= i < r.sheets.len() && lists_sheet(
                    #[trigger] r.sheets[i],
                    k,
                    stored.graph.nodes[k].payload->Sheet_0,
                ),
        forall|i: int|
            0 <= i < r.sheets.len() ==> {
                let k = (#[trigger] r.sheets[i]).node as int;
                &&& 0 <= k < stored.graph.nodes.len()
                &&& stored.graph.nodes[k].payload is Sheet
                &&& lists_sheet(r.sheets[i], k, stored.graph.nodes[k].payload->Sheet_0)
            },
        forall|i: int| 0 <= i < r.nodes.len() ==> {
            let n = #[trigger] stored.graph.nodes[i];
            &&& r.nodes[i].id == i
            &&& r.nodes[i].kind@ == n.kind@
            &&& r.nodes[i].label@ == n.label@
            &&& r.nodes[i].data@ == n.data@
            &&& match n.payload {
                NodePayload::Sheet(s) => r.nodes[i].cells == Some(s.cells),
                NodePayload::Region { cell_count } => r.nodes[i].cells == Some(cell_count),
                NodePayload::FormulaGroup { cell_count } => r.nodes[i].cells == Some(cell_count),
                NodePayload::Other => r.nodes[i].cells is None,
            }
        },
        forall|i: int, k: int, id: u64|
            0 <= i < r.nodes.len() && stored.graph.nodes[i].sheet == Some(id) && #[trigger] last_sheet_node(
                stored.graph.nodes@,
                k,
                id,
            ) ==> (stored.graph.nodes[k].payload matches NodePayload::Sheet(s) && #[trigger] r.nodes[i].sheet
                == Some(s.name)),
        forall|i: int|
            0 <= i < r.nodes.len() && (stored.graph.nodes[i].sheet matches Some(id) && (forall|j: int|
                0 <= j < stored.graph.nodes.len() ==> !is_sheet_node(#[trigger] stored.graph.nodes[j], id)))
                ==> (#[trigger] r.nodes[i]).sheet is None,
        forall|i: int, k: int|
            0 <= i < r.nodes.len() && stored.graph.nodes[i].range is Some && #[trigger] last_sheet_node(
                stored.graph.nodes@,
                k,
                stored.graph.nodes[i].range->0.sheet,
            ) ==> (stored.graph.nodes[i].range->0.cited matches Some(c) && r.nodes[i].a1 matches Some(a)
                && a@ == c@),
        forall|i: int|
            0 <= i < r.nodes.len() && (stored.graph.nodes[i].range matches Some(rg) && (forall|j: int|
                0 <= j < stored.graph.nodes.len() ==> !is_sheet_node(#[trigger] stored.graph.nodes[j], rg.sheet)))
                ==> (stored.graph.nodes[i].range matches Some(rg) && (#[trigger] r.nodes[i]).a1 matches Some(a)
                && a@ == rg.sheet_label@ + "!"@ + rg.a1@),
        forall|i: int, e: int|
            0 <= i < r.nodes.len() && #[trigger] contains_into(stored.graph.edges@, e, i as u32) && (forall|f: int|
                f != e ==> !#[trigger] contains_into(stored.graph.edges@, f, i as u32)) ==> (#[trigger] r.nodes[i]).parent
                == Some(stored.graph.edges[e].source),
        forall|i: int|
            0 <= i < r.nodes.len() && (forall|f: int| !#[trigger] contains_into(stored.graph.edges@, f, i as u32))
                ==> (#[trigger] r.nodes[i]).parent is None,
        forall|i: int, e: int, f: int|
            0 <= i < r.nodes.len() && e != f && #[trigger] contains_into(stored.graph.edges@, e, i as u32)
                && #[trigger] contains_into(stored.graph.edges@, f, i as u32) ==> (#[trigger] r.nodes[i]).parent
                is None,
{
    let g = &stored.graph;
    let names = sheet_names(&g.nodes);
    let layer = collect_sheet_layer(&g.nodes);
    proof {
        lemma_sheet_layer_nodes_increasing(g.nodes@);
    }
    let sheets = sort_by_name(&layer);
    proof {
        law_sheet_layer(g.nodes@);
        let l = sheet_layer(g.nodes@);
        assert forall|k: int|
            0 <= k < g.nodes.len() && (#[trigger] g.nodes[k]).payload is Sheet implies exists|i: int|
                0 <= i < sheets.len() && lists_sheet(#[trigger] sheets[i], k, g.nodes[k].payload->Sheet_0) by {
            let p = choose|p: int| 0 <= p < l.len() && lists_sheet(#[trigger] l[p], k, g.nodes[k].payload->Sheet_0);
            assert(l.contains(l[p]));
            assert(l.to_multiset().count(l[p]) > 0);
            assert(sheets@.to_multiset().count(l[p]) > 0);
            assert(sheets@.contains(l[p]));
            let i = choose|i: int| 0 <= i < sheets.len() && sheets@[i] == l[p];
            assert(sheets[i] == l[p]);
        }
        assert forall|i: int| 0 <= i < sheets.len() implies {
            let k = (#[trigger] sheets[i]).node as int;
            &&& 0 <= k < g.nodes.len()
            &&& g.nodes[k].payload is Sheet
            &&& lists_sheet(sheets[i], k, g.nodes[k].payload->Sheet_0)
        } by {
            assert(sheets@.contains(sheets[i]));
            assert(sheets@.to_multiset().count(sheets[i]) > 0);
            assert(l.to_multiset().count(sheets[i]) > 0);
            assert(l.contains(sheets[i]));
            let p = choose|p: int| 0 <= p < l.len() && l[p] == sheets[i];
            assert(l[p] == sheets[i]);
        }
    }
    let parents = containment_parents(g.nodes.len(), &g.edges);

    let mut nodes: Vec<NodeDto> = Vec::new();
    let mut node_kind_names: Vec<String> = Vec::new();
    let mut i: usize = 0;
    while i < g.nodes.len()
        invariant
            g == &stored.graph,
            g.wf(),
            i <= g.nodes.len(),
            names@ == sheet_list(g.nodes@),
            parents.len() == g.nodes.len(),
            forall|t: int| 0 <= t < g.nodes.len() ==> #[trigger] parents[t] == parent_of(g.edges@, t as u32),
            nodes.len() == i,
            forall|j: int| 0 <= j < i ==> flattens(#[trigger] nodes[j], *g, j),
            node_kind_names.len() == i,
            forall|j: int| 0 <= j < i ==> (#[trigger] node_kind_names[j]) == g.nodes[j].kind,
        decreases g.nodes.len() - i,
    {
        nodes.push(flatten_node(g, i, &names, &parents));
        node_kind_names.push(g.nodes[i].kind.clone());
        i = i + 1;
    }
    let node_kinds = tally(&node_kind_names);
    proof {
        assert(node_kind_names@.map_values(|k: String| k@) =~= g.nodes@.map_values(|n: NodeModel| n.kind@));
    }

    let mut edges: Vec<EdgeDto> = Vec::new();
    let mut edge_kind_names: Vec<String> = Vec::new();
    let mut e: usize = 0;
    while e < g.edges.len()
        invariant
            e <= g.edges.len(),
            edges.len() == e,
            forall|j: int| 0 <= j < e ==> mirrors(#[trigger] edges[j], g.edges[j]),
            edge_kind_names.len() == e,
            forall|j: int| 0 <= j < e ==> (#[trigger] edge_kind_names[j]) == g.edges[j].kind,
        decreases g.edges.len() - e,
    {
        let edge = &g.edges[e];
        edges.push(EdgeDto {
            source: edge.source,
            target: edge.target,
            kind: edge.kind.clone(),
            weight: edge.weight,
        });
        edge_kind_names.push(edge.kind.clone());
        e = e + 1;
    }
    let edge_kinds = tally(&edge_kind_names);
    proof {
        assert(edge_kind_names@.map_values(|k: String| k@) =~= g.edges@.map_values(|x: EdgeModel| x.kind@));
        assert forall|i: int, k: int, id: u64|
            0 <= i < nodes.len() && g.nodes[i].sheet == Some(id) && #[trigger] last_sheet_node(g.nodes@, k, id)
                implies (g.nodes[k].payload matches NodePayload::Sheet(s) && #[trigger] nodes[i].sheet == Some(
            s.name)) by {
            law_last_sheet_node_names_the_sheet(g.nodes@, k, id);
            assert(flattens(nodes[i], *g, i));
        }
        assert forall|i: int|
            0 <= i < nodes.len() && (g.nodes[i].sheet matches Some(id) && (forall|j: int|
                0 <= j < g.nodes.len() ==> !is_sheet_node(#[trigger] g.nodes[j], id))) implies (
            #[trigger] nodes[i]).sheet is None by {
            let id = g.nodes[i].sheet->0;
            law_unlisted_sheet_has_no_name(g.nodes@, id);
            assert(flattens(nodes[i], *g, i));
        }
        assert forall|i: int, k: int|
            0 <= i < nodes.len() && g.nodes[i].range is Some && #[trigger] last_sheet_node(
                g.nodes@,
                k,
                g.nodes[i].range->0.sheet,
            ) implies (g.nodes[i].range->0.cited matches Some(c) && nodes[i].a1 matches Some(a) && a@ == c@) by {
            let rg = g.nodes[i].range->0;
            law_last_sheet_node_names_the_sheet(g.nodes@, k, rg.sheet);
            assert(flattens(nodes[i], *g, i));
            assert(g.nodes[i] == g.nodes@[i]);
        }
        assert forall|i: int|
            0 <= i < nodes.len() && (g.nodes[i].range matches Some(rg) && (forall|j: int|
                0 <= j < g.nodes.len() ==> !is_sheet_node(#[trigger] g.nodes[j], rg.sheet))) implies (
            g.nodes[i].range matches Some(rg) && (#[trigger] nodes[i]).a1 matches Some(a) && a@
                == rg.sheet_label@ + "!"@ + rg.a1@) by {
            let rg = g.nodes[i].range->0;
            law_unlisted_sheet_has_no_name(g.nodes@, rg.sheet);
            assert(flattens(nodes[i], *g, i));
        }
        assert forall|i: int, e: int|
            0 <= i < nodes.len() && #[trigger] contains_into(g.edges@, e, i as u32) && (forall|f: int|
                f != e ==> !#[trigger] contains_into(g.edges@, f, i as u32)) implies (#[trigger] nodes[i]).parent
            == Some(g.edges[e].source) by {
            law_parent_is_the_one_container(g.edges@, i as u32, e);
            assert(flattens(nodes[i], *g, i));
        }
        assert forall|i: int|
            0 <= i < nodes.len() && (forall|f: int| !#[trigger] contains_into(g.edges@, f, i as u32)) implies (
            #[trigger] nodes[i]).parent is None by {
            law_parent_is_the_one_container(g.edges@, i as u32, 0);
            assert(flattens(nodes[i], *g, i));
        }
        assert forall|i: int, e: int, f: int|
            0 <= i < nodes.len() && e != f && #[trigger] contains_into(g.edges@, e, i as u32)
                && #[trigger] contains_into(g.edges@, f, i as u32) implies (#[trigger] nodes[i]).parent is None by {
            law_parent_is_the_one_container(g.edges@, i as u32, e);
            assert(flattens(nodes[i], *g, i));
        }
    }

    GraphDto {
        hash: stored.content_hash.clone(),
        path: stored.path.clone(),
        root: stored.root,
        formula_groups: stored.formula_group_nodes,
        nodes,
        edges,
        node_kinds,
        edge_kinds,
        sheets,
    }
}

/// One node and everything hanging off it, for the details panel.
pub struct NodeDetailDto {
    pub node: NodeDto,
    pub neighbors: Vec<NeighborDto>,
}

pub struct NeighborDto {
    /// `out`: an edge from the node; `in`: an edge to it.
    pub direction: &'static str,
    pub edge_kind: String,
    pub weight: u64,
    pub id: u32,
    pub kind: String,
    pub label: String,
    pub a1: Option<String>,
}

/// The citation the flattened graph gives node `j`, if it holds one.
pub open spec fn flattened_a1(gd: GraphDto, j: int) -> Option<Seq<char>> {
    if 0 <= j < gd.nodes.len() {
        opt_chars(gd.nodes[j].a1)
    } else {
        None
    }
}

/// `nb` shows edge `e` of `g` from its source's side.
pub open spec fn shows_out(nb: NeighborDto, g: GraphModel, gd: GraphDto, e: int) -> bool {
    let edge = g.edges@[e];
    let t = edge.target as int;
    let other = g.nodes@[t];
    &&& nb.direction@ == "out"@
    &&& nb.edge_kind@ == edge.kind@
    &&& nb.weight == edge.weight
    &&& nb.id == edge.target
    &&& nb.kind@ == other.kind@
    &&& nb.label@ == other.label@
    &&& opt_chars(nb.a1) == match other.range {
        None => None,
        Some(r) => Some(
            match flattened_a1(gd, t) {
                Some(a) => a,
                None => r.a1@,
            },
        ),
    }
}

/// `nb` shows edge `e` of `g` from its target's side.
pub open spec fn shows_in(nb: NeighborDto, g: GraphModel, gd: GraphDto, e: int) -> bool {
    let edge = g.edges@[e];
    let s = edge.source as int;
    let other = g.nodes@[s];
    &&& nb.direction@ == "in"@
    &&& nb.edge_kind@ == edge.kind@
    &&& nb.weight == edge.weight
    &&& nb.id == edge.source
    &&& nb.kind@ == other.kind@
    &&& nb.label@ == other.label@
    &&& opt_chars(nb.a1) == flattened_a1(gd, s)
}

/// A neighbour shown from the node's side is the edge's target: its id,
/// kind and label are the target's, and the edge's kind and weight are
/// carried over.
pub proof fn law_out_neighbour_is_the_target(nb: NeighborDto, g: GraphModel, gd: GraphDto, e: int)
    requires
        g.wf(),
        0 <= e < g.edges.len(),
        shows_out(nb, g, gd, e),
    ensures
        nb.direction@ == "out"@,
        nb.id == g.edges[e].target,
        nb.label@ == g.nodes[g.edges[e].target as int].label@,
        nb.kind@ == g.nodes[g.edges[e].target as int].kind@,
        nb.edge_kind@ == g.edges[e].kind@,
        nb.weight == g.edges[e].weight,
{
}

/// A neighbour shown from the node's side for an edge into it is the
/// edge's source: its id, kind and label are the source's.
pub proof fn law_in_neighbour_is_the_source(nb: NeighborDto, g: GraphModel, gd: GraphDto, e: int)
    requires
        g.wf(),
        0 <= e < g.edges.len(),
        shows_in(nb, g, gd, e),
    ensures
        nb.direction@ == "in"@,
        nb.id == g.edges[e].source,
        nb.label@ == g.nodes[g.edges[e].source as int].label@,
        nb.kind@ == g.nodes[g.edges[e].source as int].kind@,
        nb.edge_kind@ == g.edges[e].kind@,
        nb.weight == g.edges[e].weight,
{
}

/// A flattened node covers the cells its payload counts: a sheet its
/// cells, a region or formula group its cell count, any other kind none.
pub proof fn law_flattened_cells(d: NodeDto, g: GraphModel, i: int)
    requires
        0 <= i < g.nodes.len(),
        flattens(d, g, i),
    ensures
        g.nodes[i].payload matches NodePayload::Sheet(s) ==> d.cells == Some(s.cells),
        g.nodes[i].payload matches NodePayload::Region { cell_count } ==> d.cells == Some(cell_count),
        g.nodes[i].payload matches NodePayload::FormulaGroup { cell_count } ==> d.cells == Some(cell_count),
        g.nodes[i].payload is Other ==> d.cells is None,
{
    assert(g.nodes[i] == g.nodes@[i]);
}

fn flattened_a1_exec(gd: &GraphDto, j: usize) -> (r: Option<String>)
    ensures
        opt_chars(r) == flattened_a1(*gd, j as int),
{
    if j < gd.nodes.len() {
        gd.nodes[j].a1.clone()
    } else {
        None
    }
}

/// One node of a stored graph and its neighbours: the edges from it, then
/// the edges to it, each in the order the graph lists them. The node itself
/// is the first node of `flattened` with that id, so details agree with the
/// map. No node with that id in the graph: `None`.
pub fn node_detail_dto(stored: &StoredGraph, id: u32, flattened: &GraphDto) -> (r: Option<NodeDetailDto>)
    requires
        stored.graph.wf(),
        id < stored.graph.nodes.len() ==> exists|j: int|
            0 <= j < flattened.nodes.len() && (#[trigger] flattened.nodes[j]).id == id,
    ensures
        r is None <==> id >= stored.graph.nodes.len(),
        r matches Some(d) ==> exists|j: int|
            0 <= j < flattened.nodes.len() && d.node == flattened.nodes[j] && flattened.nodes[j].id == id
                && forall|k: int| 0 <= k < j ==> (#[trigger] flattened.nodes[k]).id != id,
        r matches Some(d) ==> d.neighbors.len() == stored.graph.outgoing[id as int].len()
            + stored.graph.incoming[id as int].len(),
        r matches Some(d) ==> forall|e: int|
            0 <= e < stored.graph.edges.len() && (#[trigger] stored.graph.edges[e]).source == id ==> exists|i: int|
                0 <= i < stored.graph.outgoing[id as int].len() && stored.graph.outgoing[id as int][i] == e
                    && shows_out(d.neighbors[i], stored.graph, *flattened, e),
        r matches Some(d) ==> forall|e: int|
            0 <= e < stored.graph.edges.len() && (#[trigger] stored.graph.edges[e]).target == id ==> exists|i: int|
                0 <= i < stored.graph.incoming[id as int].len() && stored.graph.incoming[id as int][i] == e
                    && shows_in(d.neighbors[stored.graph.outgoing[id as int].len() + i], stored.graph,
                    *flattened, e),
        r matches Some(d) ==> forall|i: int|
            0 <= i < stored.graph.outgoing[id as int].len() ==> shows_out(
                #[trigger] d.neighbors[i],
                stored.graph,
                *flattened,
                stored.graph.outgoing[id as int][i] as int,
            ),
        r matches Some(d) ==> forall|i: int|
            0 <= i < stored.graph.incoming[id as int].len() ==> shows_in(
                #[trigger] d.neighbors[stored.graph.outgoing[id as int].len() + i],
                stored.graph,
                *flattened,
                stored.graph.incoming[id as int][i] as int,
            ),
        r matches Some(d) ==> forall|i: int|
            0 <= i < stored.graph.outgoing[id as int].len() ==> {
                let e = stored.graph.outgoing[id as int][i] as int;
                let t = stored.graph.edges[e].target as int;
                &&& (#[trigger] d.neighbors[i]).direction@ == "out"@
                &&& d.neighbors[i].id == stored.graph.edges[e].target
                &&& d.neighbors[i].label@ == stored.graph.nodes[t].label@
                &&& d.neighbors[i].kind@ == stored.graph.nodes[t].kind@
                &&& d.neighbors[i].edge_kind@ == stored.graph.edges[e].kind@
                &&& d.neighbors[i].weight == stored.graph.edges[e].weight
                &&& stored.graph.nodes[t].range is None ==> d.neighbors[i].a1 is None
                &&& stored.graph.nodes[t].range is Some ==> (d.neighbors[i].a1 matches Some(b) && (if t
                    < flattened.nodes.len() && flattened.nodes[t].a1 is Some {
                    b@ == flattened.nodes[t].a1->0@
                } else {
                    b@ == stored.graph.nodes[t].range->0.a1@
                }))
            },
        r matches Some(d) ==> forall|i: int|
            0 <= i < stored.graph.incoming[id as int].len() ==> {
                let e = stored.graph.incoming[id as int][i] as int;
                let s = stored.graph.edges[e].source as int;
                let nb = d.neighbors[stored.graph.outgoing[id as int].len() + i];
                &&& (#[trigger] d.neighbors[stored.graph.outgoing[id as int].len() + i]).direction@ == "in"@
                &&& nb.id == stored.graph.edges[e].source
                &&& nb.label@ == stored.graph.nodes[s].label@
                &&& nb.kind@ == stored.graph.nodes[s].kind@
                &&& nb.edge_kind@ == stored.graph.edges[e].kind@
                &&& nb.weight == stored.graph.edges[e].weight
                &&& (s < flattened.nodes.len() && flattened.nodes[s].a1 is Some) ==> (nb.a1 matches Some(b) && b@
                    == flattened.nodes[s].a1->0@)
                &&& !(s < flattened.nodes.len() && flattened.nodes[s].a1 is Some) ==> nb.a1 is None
            },
{
    let g = &stored.graph;
    if id as usize >= g.nodes.len() {
        return None;
    }
    let mut j: usize = 0;
    while j < flattened.nodes.len() && flattened.nodes[j].id != id
        invariant
            j <= flattened.nodes.len(),
            forall|k: int| 0 <= k < j ==> (#[trigger] flattened.nodes[k]).id != id,
        decreases flattened.nodes.len() - j,
    {
        j = j + 1;
    }
    if j >= flattened.nodes.len() {
        proof {
            let w = choose|w: int| 0 <= w < flattened.nodes.len() && (#[trigger] flattened.nodes[w]).id == id;
            assert(flattened.nodes[w].id != id);
        }
        return None;
    }
    let node = flattened.nodes[j].clone();

    let n = id as usize;
    let outs = &g.outgoing[n];
    let ins = &g.incoming[n];
    let mut neighbors: Vec<NeighborDto> = Vec::new();
    let mut k: usize = 0;
    while k < outs.len()
        invariant
            g == &stored.graph,
            g.wf(),
            n == id,
            n < g.nodes.len(),
            outs == &g.outgoing[n as int],
            k <= outs.len(),
            neighbors.len() == k,
            forall|i: int| 0 <= i < k ==> shows_out(#[trigger] neighbors[i], *g, *flattened, outs[i] as int),
        decreases outs.len() - k,
    {
        proof {
            assert(g.outgoing[n as int][k as int] == outs[k as int]);
        }
        let e = outs[k] as usize;
        let edge = &g.edges[e];
        let t = edge.target as usize;
        let other = &g.nodes[t];
        let a1 = match &other.range {
            Some(r) => match flattened_a1_exec(flattened, t) {
                Some(a) => Some(a),
                None => Some(r.a1.clone()),
            },
            None => None,
        };
        neighbors.push(NeighborDto {
            direction: "out",
            edge_kind: edge.kind.clone(),
            weight: edge.weight,
            id: edge.target,
            kind: other.kind.clone(),
            label: other.label.clone(),
            a1,
        });
        k = k + 1;
    }
    let mut k: usize = 0;
    while k < ins.len()
        invariant
            g == &stored.graph,
            g.wf(),
            n == id,
            n < g.nodes.len(),
            outs == &g.outgoing[n as int],
            ins == &g.incoming[n as int],
            k <= ins.len(),
            neighbors.len() == outs.len() + k,
            forall|i: int| 0 <= i < outs.len() ==> shows_out(#[trigger] neighbors[i], *g, *flattened, outs[i] as int),
            forall|i: int| 0 <= i < k ==> shows_in(
                #[trigger] neighbors[outs.len() + i],
                *g,
                *flattened,
                ins[i] as int,
            ),
        decreases ins.len() - k,
    {
        proof {
            assert(g.incoming[n as int][k as int] == ins[k as int]);
        }
        let e = ins[k] as usize;
        let edge = &g.edges[e];
        let s = edge.source as usize;
        let other = &g.nodes[s];
        neighbors.push(NeighborDto {
            direction: "in",
            edge_kind: edge.kind.clone(),
            weight: edge.weight,
            id: edge.source,
            kind: other.kind.clone(),
            label: other.label.clone(),
            a1: flattened_a1_exec(flattened, s),
        });
        k = k + 1;
    }
    Some(NodeDetailDto { node, neighbors })
}

/// Details agree with the map: in a flattened graph, the node the details
/// panel shows for id `id` is the map's node at index `id`, so every node
/// of the graph has details.
pub proof fn law_details_agree_with_map(stored: StoredGraph, flattened: GraphDto, id: u32)
    requires
        stored.graph.wf(),
        flattened.nodes.len() == stored.graph.nodes.len(),
        forall|i: int| 0 <= i < flattened.nodes.len() ==> flattens(#[trigger] flattened.nodes[i], stored.graph, i),
        id < stored.graph.nodes.len(),
    ensures
        flattened.nodes[id as int].id == id,
        forall|k: int| 0 <= k < id ==> (#[trigger] flattened.nodes[k]).id != id,
        exists|j: int| 0 <= j < flattened.nodes.len() && (#[trigger] flattened.nodes[j]).id == id,
{
    assert(flattens(flattened.nodes[id as int], stored.graph, id as int));
    assert forall|k: int| 0 <= k < id implies (#[trigger] flattened.nodes[k]).id != id by {
        assert(flattens(flattened.nodes[k], stored.graph, k));
    }
}

} // verus!
