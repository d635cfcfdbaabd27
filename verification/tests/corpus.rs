use eg_gui::corpus::{resolve_hash, resolve_hash_optional, Entry, WorkbookDto};

fn entry(path: &str) -> Entry {
    Entry {
        path: path.to_string(),
        sheets: 3,
        cells: 120,
        nodes: 40,
        edges: 55,
        formula_group_nodes: true,
        profiled_columns: 7,
        profile_values: false,
    }
}

fn corpus() -> Vec<(String, Entry)> {
    vec![
        ("abc123".to_string(), entry("/data/sales/q3.xlsx")),
        ("abd999".to_string(), entry("/data/hr/staff.xlsx")),
        ("ff0011".to_string(), entry("/data/other/q3.xlsx")),
    ]
}

#[test]
fn resolves_a_full_hash() {
    assert_eq!(resolve_hash(&corpus(), "abd999"), Ok("abd999".to_string()));
}

#[test]
fn resolves_a_unique_hash_prefix() {
    assert_eq!(resolve_hash(&corpus(), "abc"), Ok("abc123".to_string()));
    assert_eq!(resolve_hash(&corpus(), "f"), Ok("ff0011".to_string()));
}

#[test]
fn resolves_a_stored_path() {
    assert_eq!(resolve_hash(&corpus(), "/data/hr/staff.xlsx"), Ok("abd999".to_string()));
}

#[test]
fn resolves_a_bare_file_name() {
    assert_eq!(resolve_hash(&corpus(), "staff.xlsx"), Ok("abd999".to_string()));
}

#[test]
fn a_shared_file_name_is_ambiguous() {
    assert_eq!(
        resolve_hash(&corpus(), "q3.xlsx"),
        Err("\"q3.xlsx\" matches 2 workbooks; be more specific".to_string())
    );
}

#[test]
fn a_shared_prefix_is_ambiguous() {
    assert_eq!(
        resolve_hash(&corpus(), "ab"),
        Err("\"ab\" matches 2 workbooks; be more specific".to_string())
    );
    assert_eq!(
        resolve_hash(&corpus(), ""),
        Err("\"\" matches 3 workbooks; be more specific".to_string())
    );
}

#[test]
fn nothing_matching_is_an_error_with_the_name_quoted() {
    assert_eq!(
        resolve_hash(&corpus(), "budget \"final\".xlsx"),
        Err("no workbook in this corpus matches \"budget \\\"final\\\".xlsx\"".to_string())
    );
    assert_eq!(
        resolve_hash(&Vec::new(), "abc"),
        Err("no workbook in this corpus matches \"abc\"".to_string())
    );
}

#[test]
fn a_directory_part_alone_is_not_a_file_name() {
    assert_eq!(
        resolve_hash(&corpus(), "hr"),
        Err("no workbook in this corpus matches \"hr\"".to_string())
    );
}

#[test]
fn no_filter_passes_through() {
    assert_eq!(resolve_hash_optional(&corpus(), &None), Ok(None));
    assert_eq!(
        resolve_hash_optional(&corpus(), &Some("abc".to_string())),
        Ok(Some("abc123".to_string()))
    );
    assert_eq!(
        resolve_hash_optional(&corpus(), &Some("zzz".to_string())),
        Err("no workbook in this corpus matches \"zzz\"".to_string())
    );
}

#[test]
fn listing_copies_every_entry_in_order() {
    let listed = WorkbookDto::list(&corpus());
    assert_eq!(listed.len(), 3);
    assert_eq!(listed[0].hash, "abc123");
    assert_eq!(listed[1].path, "/data/hr/staff.xlsx");
    assert_eq!(listed[2].hash, "ff0011");
    let one = WorkbookDto::new("abc123", &entry("/x.xlsx"));
    assert_eq!(one.hash, "abc123");
    assert_eq!(one.path, "/x.xlsx");
    assert_eq!(one.sheets, 3);
    assert_eq!(one.cells, 120);
    assert_eq!(one.nodes, 40);
    assert_eq!(one.edges, 55);
    assert!(one.formula_group_nodes);
    assert_eq!(one.profiled_columns, 7);
    assert!(!one.profile_values);
}

#[test]
fn an_empty_corpus_lists_nothing() {
    assert!(WorkbookDto::list(&Vec::new()).is_empty());
}
