use eg_gui::api::{
    bad_request, conflict, expansion_failed, graph_gone, graph_unreadable, index_busy, internal,
    asset_reply, mime_for, node_absent, AssetReply, not_found, render_max_chars, search_failed, static_route,
    ExpandSettings, SearchSettings, StaticRoute, Status,
};

#[test]
fn mime_types_by_extension() {
    assert_eq!(mime_for("index.html"), "text/html; charset=utf-8");
    assert_eq!(mime_for("assets/app.js"), "text/javascript; charset=utf-8");
    assert_eq!(mime_for("worker.mjs"), "text/javascript; charset=utf-8");
    assert_eq!(mime_for("style.css"), "text/css; charset=utf-8");
    assert_eq!(mime_for("data.json"), "application/json");
    assert_eq!(mime_for("app.js.map"), "application/json");
    assert_eq!(mime_for("logo.svg"), "image/svg+xml");
    assert_eq!(mime_for("logo.png"), "image/png");
    assert_eq!(mime_for("favicon.ico"), "image/x-icon");
    assert_eq!(mime_for("font.woff2"), "font/woff2");
    assert_eq!(mime_for("engine.wasm"), "application/wasm");
    assert_eq!(mime_for("archive.tar.gz"), "application/octet-stream");
    assert_eq!(mime_for("README"), "application/octet-stream");
    assert_eq!(mime_for(""), "application/octet-stream");
    assert_eq!(mime_for("trailing."), "application/octet-stream");
    // no dot at all: the whole name is the extension
    assert_eq!(mime_for("html"), "text/html; charset=utf-8");
}

#[test]
fn api_and_socket_paths_are_not_assets() {
    match static_route("/api/nothing") {
        StaticRoute::NoEndpoint(e) => {
            assert_eq!(e.status.code(), 404);
            assert_eq!(e.body.error, "no such endpoint: /api/nothing");
        }
        StaticRoute::Asset(_) => panic!("an API path was served as an asset"),
    }
    match static_route("/ws") {
        StaticRoute::NoEndpoint(e) => assert_eq!(e.body.error, "no such endpoint: /ws"),
        StaticRoute::Asset(_) => panic!("the socket path was served as an asset"),
    }
}

fn asset(path: &str) -> String {
    match static_route(path) {
        StaticRoute::Asset(name) => name,
        StaticRoute::NoEndpoint(e) => panic!("unexpected: {}", e.body.error),
    }
}

#[test]
fn other_paths_name_assets() {
    assert_eq!(asset("/"), "index.html");
    assert_eq!(asset(""), "index.html");
    assert_eq!(asset("///"), "index.html");
    assert_eq!(asset("/assets/app.js"), "assets/app.js");
    assert_eq!(asset("//double.css"), "double.css");
    assert_eq!(asset("/api"), "api");
    assert_eq!(asset("/wsx"), "wsx");
}

#[test]
fn error_statuses() {
    assert_eq!(bad_request("b".to_string()).status.code(), 400);
    assert_eq!(not_found("n".to_string()).status.code(), 404);
    assert_eq!(conflict("c".to_string()).status.code(), 409);
    assert_eq!(internal("i".to_string()).status.code(), 500);
    assert_eq!(Status::ServiceUnavailable.code(), 503);
    assert_eq!(internal("boom".to_string()).body.error, "boom");
}

#[test]
fn error_messages() {
    let e = graph_unreadable("disk on fire");
    assert_eq!(e.status.code(), 500);
    assert_eq!(e.body.error, "could not read the stored graph: disk on fire");
    let e = graph_gone("abc123");
    assert_eq!(e.status.code(), 404);
    assert_eq!(e.body.error, "the corpus no longer holds abc123");
    let e = node_absent(4096);
    assert_eq!(e.status.code(), 404);
    assert_eq!(e.body.error, "node 4096 is not in this graph");
    assert_eq!(node_absent(0).body.error, "node 0 is not in this graph");
    let e = search_failed("bad query");
    assert_eq!(e.status.code(), 400);
    assert_eq!(e.body.error, "search failed: bad query");
    let e = expansion_failed("no graph");
    assert_eq!(e.status.code(), 400);
    assert_eq!(e.body.error, "expansion failed: no graph");
    let e = index_busy("/tmp/a.xlsx");
    assert_eq!(e.status.code(), 409);
    assert_eq!(e.body.error, "already indexing /tmp/a.xlsx — one at a time");
}

#[test]
fn search_settings_default_and_clamp() {
    let s = SearchSettings::from_params(None, None);
    assert_eq!(s.limit, 8);
    assert!(!s.lexical_only);
    assert_eq!(SearchSettings::from_params(Some(0), Some(true)).limit, 1);
    assert!(SearchSettings::from_params(Some(0), Some(true)).lexical_only);
    assert_eq!(SearchSettings::from_params(Some(25), Some(false)).limit, 25);
}

#[test]
fn expand_settings_default_and_clamp() {
    let e = ExpandSettings::from_params(None, None, None);
    assert_eq!((e.hops, e.budget, e.children), (2, 40, 0));
    let e = ExpandSettings::from_params(Some(0), Some(0), Some(5));
    assert_eq!((e.hops, e.budget, e.children), (0, 1, 5));
    let e = ExpandSettings::from_params(Some(4), Some(100), None);
    assert_eq!((e.hops, e.budget, e.children), (4, 100, 0));
}

#[test]
fn passage_length_defaults_and_clamps() {
    assert_eq!(render_max_chars(None), 8000);
    assert_eq!(render_max_chars(Some(10)), 200);
    assert_eq!(render_max_chars(Some(200)), 200);
    assert_eq!(render_max_chars(Some(12345)), 12345);
}

#[test]
fn assets_fall_back_to_the_index_page() {
    assert!(matches!(asset_reply(true, true), AssetReply::Requested));
    assert!(matches!(asset_reply(true, false), AssetReply::Requested));
    assert!(matches!(asset_reply(false, true), AssetReply::IndexPage));
    match asset_reply(false, false) {
        AssetReply::NotBuilt { status, message } => {
            assert_eq!(status.code(), 503);
            assert_eq!(
                message,
                "the frontend has not been built — run `npm install && npm run build` in frontend/"
            );
        }
        _ => panic!("an unbuilt frontend was served"),
    }
}
