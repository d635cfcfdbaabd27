use eg_gui::dto::{graph_dto, node_detail_dto, GraphDto};
use eg_gui::graph::{
    containment_parents, find_sheet_name, sheet_names, EdgeModel, GraphModel, NodeModel,
    NodePayload, RangeModel, SheetPayload, StoredGraph,
};
use eg_gui::sheets::{collect_sheet_layer, sort_by_name, SheetDto};

fn sheet(id: u64, name: &str, cells: u64) -> NodeModel {
    NodeModel {
        kind: "sheet".to_string(),
        label: name.to_string(),
        range: None,
        sheet: Some(id),
        payload: NodePayload::Sheet(SheetPayload {
            id,
            name: name.to_string(),
            visible: true,
            cells,
            formula_cells: 2,
        }),
        data: format!("{{\"sheet\":{id}}}"),
    }
}

fn region(sheet: u64, a1: &str, cited: Option<&str>, cells: u64) -> NodeModel {
    NodeModel {
        kind: "region".to_string(),
        label: format!("region {a1}"),
        range: Some(RangeModel {
            sheet,
            sheet_label: sheet.to_string(),
            a1: a1.to_string(),
            cited: cited.map(|c| c.to_string()),
        }),
        sheet: Some(sheet),
        payload: NodePayload::Region { cell_count: cells },
        data: "{}".to_string(),
    }
}

fn edge(source: u32, target: u32, kind: &str, weight: u64) -> EdgeModel {
    EdgeModel {
        source,
        target,
        kind: kind.to_string(),
        contains: kind == "contains",
        weight,
    }
}

/// workbook(0) -> Sales(1), Costs(2); Sales contains region 3; Costs
/// contains region 4; region 5 sits on a sheet the graph does not name.
fn stored() -> StoredGraph {
    let nodes = vec![
        NodeModel {
            kind: "workbook".to_string(),
            label: "book.xlsx".to_string(),
            range: None,
            sheet: None,
            payload: NodePayload::Other,
            data: "{}".to_string(),
        },
        sheet(10, "Sales", 100),
        sheet(11, "Costs", 50),
        region(10, "B2:D40", Some("Sales!B2:D40"), 117),
        region(11, "A1:C3", Some("Costs!A1:C3"), 9),
        region(99, "E5", None, 1),
    ];
    let edges = vec![
        edge(0, 1, "contains", 1),
        edge(0, 2, "contains", 1),
        edge(1, 3, "contains", 1),
        edge(2, 4, "contains", 1),
        edge(4, 3, "feeds", 12),
        edge(0, 3, "contains", 1),
        edge(5, 3, "feeds", 3),
    ];
    StoredGraph {
        content_hash: "h1".to_string(),
        path: "/data/book.xlsx".to_string(),
        root: 0,
        formula_group_nodes: false,
        graph: model(nodes, edges),
    }
}

/// A graph model with each node's edge lists as a directed petgraph graph
/// lists them: the most recently added edge first.
fn model(nodes: Vec<NodeModel>, edges: Vec<EdgeModel>) -> GraphModel {
    let mut outgoing = vec![Vec::new(); nodes.len()];
    let mut incoming = vec![Vec::new(); nodes.len()];
    for (i, e) in edges.iter().enumerate().rev() {
        outgoing[e.source as usize].push(i as u32);
        incoming[e.target as usize].push(i as u32);
    }
    GraphModel { nodes, edges, outgoing, incoming }
}

fn count(kinds: &[eg_gui::tally::KindCount], kind: &str) -> Option<u64> {
    kinds.iter().find(|k| k.kind == kind).map(|k| k.count)
}

#[test]
fn graph_dto_copies_the_header() {
    let g = graph_dto(&stored());
    assert_eq!(g.hash, "h1");
    assert_eq!(g.path, "/data/book.xlsx");
    assert_eq!(g.root, 0);
    assert!(!g.formula_groups);
}

#[test]
fn nodes_are_flattened_in_index_order() {
    let g = graph_dto(&stored());
    assert_eq!(g.nodes.len(), 6);
    for (i, n) in g.nodes.iter().enumerate() {
        assert_eq!(n.id as usize, i);
    }
    assert_eq!(g.nodes[0].kind, "workbook");
    assert_eq!(g.nodes[0].a1, None);
    assert_eq!(g.nodes[0].sheet, None);
    assert_eq!(g.nodes[0].cells, None);
    assert_eq!(g.nodes[0].parent, None);
    assert_eq!(g.nodes[1].sheet.as_deref(), Some("Sales"));
    assert_eq!(g.nodes[1].cells, Some(100));
    assert_eq!(g.nodes[1].data, "{\"sheet\":10}");
}

#[test]
fn a_range_cites_its_sheet_by_name_or_by_id() {
    let g = graph_dto(&stored());
    assert_eq!(g.nodes[3].a1.as_deref(), Some("Sales!B2:D40"));
    assert_eq!(g.nodes[4].a1.as_deref(), Some("Costs!A1:C3"));
    // sheet 99 has no sheet node: id, bang, A1
    assert_eq!(g.nodes[5].a1.as_deref(), Some("99!E5"));
    assert_eq!(g.nodes[5].sheet, None);
    assert_eq!(g.nodes[3].cells, Some(117));
}

#[test]
fn the_one_containment_edge_is_the_parent() {
    let g = graph_dto(&stored());
    assert_eq!(g.nodes[1].parent, Some(0));
    assert_eq!(g.nodes[2].parent, Some(0));
    assert_eq!(g.nodes[4].parent, Some(2));
    // a feeds edge is no parent
    assert_eq!(g.nodes[5].parent, None);
}

#[test]
fn two_containers_make_no_parent() {
    let g = graph_dto(&stored());
    // region 3 is contained by Sales and by the workbook
    assert_eq!(g.nodes[3].parent, None);
    let nodes = vec![sheet(1, "a", 1), sheet(2, "b", 1), sheet(3, "c", 1)];
    let edges = vec![edge(0, 1, "contains", 1), edge(2, 1, "contains", 1)];
    let g = graph_dto(&StoredGraph {
        content_hash: "x".to_string(),
        path: "x".to_string(),
        root: 0,
        formula_group_nodes: false,
        graph: model(nodes, edges),
    });
    assert_eq!(g.nodes[1].parent, None);
    assert_eq!(g.nodes[0].parent, None);
}

#[test]
fn edges_keep_their_order_and_weights() {
    let g = graph_dto(&stored());
    assert_eq!(g.edges.len(), 7);
    assert_eq!((g.edges[4].source, g.edges[4].target), (4, 3));
    assert_eq!(g.edges[4].kind, "feeds");
    assert_eq!(g.edges[4].weight, 12);
}

#[test]
fn kinds_are_counted() {
    let g = graph_dto(&stored());
    assert_eq!(g.node_kinds.len(), 3);
    assert_eq!(count(&g.node_kinds, "workbook"), Some(1));
    assert_eq!(count(&g.node_kinds, "sheet"), Some(2));
    assert_eq!(count(&g.node_kinds, "region"), Some(3));
    assert_eq!(g.edge_kinds.len(), 2);
    assert_eq!(count(&g.edge_kinds, "contains"), Some(5));
    assert_eq!(count(&g.edge_kinds, "feeds"), Some(2));
    let total: u64 = g.node_kinds.iter().map(|k| k.count).sum();
    assert_eq!(total, 6);
}

#[test]
fn sheets_are_listed_by_name() {
    let g = graph_dto(&stored());
    let names: Vec<&str> = g.sheets.iter().map(|s| s.name.as_str()).collect();
    assert_eq!(names, vec!["Costs", "Sales"]);
    assert_eq!(g.sheets[0].node, 2);
    assert_eq!(g.sheets[0].cells, 50);
    assert_eq!(g.sheets[0].formula_cells, 2);
    assert!(g.sheets[0].visible);
}

#[test]
fn sorting_sheets_keeps_equal_names_in_node_order() {
    let dto = |node: u32, name: &str| SheetDto {
        node,
        name: name.to_string(),
        visible: true,
        cells: node as u64,
        formula_cells: 0,
    };
    let input = vec![dto(1, "b"), dto(2, "a"), dto(3, "b"), dto(4, "B"), dto(5, "ab"), dto(6, "")];
    let sorted = sort_by_name(&input);
    let order: Vec<(u32, &str)> = sorted.iter().map(|s| (s.node, s.name.as_str())).collect();
    assert_eq!(order, vec![(6, ""), (4, "B"), (2, "a"), (5, "ab"), (1, "b"), (3, "b")]);
}

#[test]
fn a_graph_without_edges_or_sheets_flattens() {
    let g = graph_dto(&StoredGraph {
        content_hash: "e".to_string(),
        path: "p".to_string(),
        root: 0,
        formula_group_nodes: true,
        graph: model(Vec::new(), Vec::new()),
    });
    assert!(g.nodes.is_empty() && g.edges.is_empty() && g.sheets.is_empty());
    assert!(g.node_kinds.is_empty() && g.edge_kinds.is_empty());
}

#[test]
fn the_later_sheet_with_an_id_names_it() {
    let nodes = vec![sheet(1, "First", 1), sheet(1, "Second", 1)];
    let list = sheet_names(&nodes);
    assert_eq!(find_sheet_name(&list, 1).as_deref(), Some("Second"));
    assert_eq!(find_sheet_name(&list, 2), None);
    assert_eq!(collect_sheet_layer(&nodes).len(), 2);
}

#[test]
fn parents_are_indexed_by_node() {
    let s = stored();
    let parents = containment_parents(s.graph.nodes.len(), &s.graph.edges);
    assert_eq!(parents, vec![None, Some(0), Some(0), None, Some(2), None]);
    let once = vec![edge(0, 1, "contains", 1), edge(0, 1, "feeds", 1)];
    assert_eq!(containment_parents(2, &once), vec![None, Some(0)]);
}

fn detail_of(g: &GraphDto, s: &StoredGraph, id: u32) -> Option<eg_gui::dto::NodeDetailDto> {
    node_detail_dto(s, id, g)
}

#[test]
fn details_list_outgoing_then_incoming_newest_first() {
    let s = stored();
    let g = graph_dto(&s);
    let d = detail_of(&g, &s, 3).expect("node 3 exists");
    assert_eq!(d.node.id, 3);
    assert_eq!(d.node.a1.as_deref(), Some("Sales!B2:D40"));
    // no edges leave region 3; four arrive: 1->3, 4->3, 0->3, 5->3
    let seen: Vec<(&str, u32, &str)> = d
        .neighbors
        .iter()
        .map(|n| (n.direction, n.id, n.edge_kind.as_str()))
        .collect();
    assert_eq!(
        seen,
        vec![("in", 5, "feeds"), ("in", 0, "contains"), ("in", 4, "feeds"), ("in", 1, "contains")]
    );
    assert_eq!(d.neighbors[2].weight, 12);
    assert_eq!(d.neighbors[2].a1.as_deref(), Some("Costs!A1:C3"));
    assert_eq!(d.neighbors[1].a1, None);
    assert_eq!(d.neighbors[0].a1.as_deref(), Some("99!E5"));
    assert_eq!(d.neighbors[3].label, "Sales");
    assert_eq!(d.neighbors[3].kind, "sheet");
}

#[test]
fn details_of_the_root_are_its_children_newest_first() {
    let s = stored();
    let g = graph_dto(&s);
    let d = detail_of(&g, &s, 0).unwrap();
    let seen: Vec<(&str, u32)> = d.neighbors.iter().map(|n| (n.direction, n.id)).collect();
    assert_eq!(seen, vec![("out", 3), ("out", 2), ("out", 1)]);
    assert_eq!(d.neighbors[0].a1.as_deref(), Some("Sales!B2:D40"));
    // sheets cover no range: no citation
    assert_eq!(d.neighbors[1].a1, None);
}

#[test]
fn an_outgoing_neighbor_falls_back_to_its_plain_a1() {
    let s = stored();
    let mut g = graph_dto(&s);
    g.nodes.truncate(3);
    g.nodes.push(g.nodes[0].clone());
    let d = node_detail_dto(&s, 1, &g).unwrap();
    // node 3 is not in this (partial) map: the plain A1 form stands in
    assert_eq!(d.neighbors[0].id, 3);
    assert_eq!(d.neighbors[0].a1.as_deref(), Some("B2:D40"));
}

#[test]
fn no_details_for_a_node_not_in_the_graph() {
    let s = stored();
    let g = graph_dto(&s);
    assert!(node_detail_dto(&s, 6, &g).is_none());
    assert!(node_detail_dto(&s, u32::MAX, &g).is_none());
}

#[test]
fn details_follow_the_graph_s_own_listing() {
    let mut s = stored();
    // list the root's children oldest first instead
    s.graph.outgoing[0] = vec![0, 1, 5];
    let g = graph_dto(&s);
    let d = node_detail_dto(&s, 0, &g).unwrap();
    let seen: Vec<u32> = d.neighbors.iter().map(|n| n.id).collect();
    assert_eq!(seen, vec![1, 2, 3]);
}
