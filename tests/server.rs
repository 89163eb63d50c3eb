use zon::bundle::{Asset, AssetSet, BuildFile};
use zon::server::{project_name, route, ContentType, Route, Server, STATUS_NOT_FOUND, STATUS_OK};

fn file(name: &str, content: &[u8]) -> BuildFile {
    BuildFile { name: name.as_bytes().to_vec(), content: content.to_vec() }
}

const HTML: &[u8] = b"<script src=\"/index.5d1e.js\"></script><link rel=\"stylesheet\" href=\"/index.77aa.css\"><body>";
const CSS: &[u8] = b"@font-face{font-family:Fira Code;src:url(/R.1.woff2);font-weight:400}@supports (font-variation-settings:normal){@font-face{font-family:Fira Code;src:url(/V.2.woff2) format(\"woff2 supports variations\")}}";

fn server() -> Server {
    let files = vec![
        file("index.5d1e.js", b"console.log(1)"),
        file("index.77aa.css", CSS),
        file("R.1.woff2", &[1, 2, 3]),
        file("V.2.woff2", &[4, 5, 6, 7]),
    ];
    let assets = AssetSet::bundle(HTML, &files).unwrap();
    Server::new(assets, b"{\"projectName\":\"p\",\"languages\":{}}".to_vec())
}

#[test]
fn routes_of_known_paths() {
    assert_eq!(route(b"/"), Route::Resource(Asset::Page));
    assert_eq!(route(b"/ui"), Route::Resource(Asset::Page));
    assert_eq!(route(b"/index.js"), Route::Resource(Asset::Script));
    assert_eq!(route(b"/index.css"), Route::Resource(Asset::Stylesheet));
    assert_eq!(route(b"/FiraCode-Regular.ttf"), Route::Resource(Asset::FontRegular));
    assert_eq!(route(b"/FiraCode-VariableFont_wght.ttf"), Route::Resource(Asset::FontVariable));
    assert_eq!(route(b"/input"), Route::Statistics);
    assert_eq!(route(b"/index.jsx"), Route::NotFound);
    assert_eq!(route(b"index.js"), Route::NotFound);
    assert_eq!(route(b""), Route::NotFound);
}

#[test]
fn unmapped_path_is_not_found() {
    let s = server();
    let r = s.respond(b"/does-not-exist");
    assert_eq!(r.status, STATUS_NOT_FOUND);
    assert_eq!(r.status, 404);
    assert!(r.body.is_empty());
    assert_eq!(r.content_length, 0);
    assert_eq!(r.content_type, None);
}

#[test]
fn every_resource_declares_its_exact_length() {
    let s = server();
    let cases: [(&[u8], ContentType); 6] = [
        (b"/", ContentType::Html),
        (b"/ui", ContentType::Html),
        (b"/index.js", ContentType::JavaScript),
        (b"/index.css", ContentType::Css),
        (b"/FiraCode-Regular.ttf", ContentType::Font),
        (b"/FiraCode-VariableFont_wght.ttf", ContentType::Font),
    ];
    for (path, t) in cases {
        let r = s.respond(path);
        assert_eq!(r.status, STATUS_OK);
        assert_eq!(r.status, 200);
        assert_eq!(r.content_type, Some(t));
        assert_eq!(r.content_length, r.body.len());
        assert!(r.accept_ranges);
    }
    assert_eq!(s.respond(b"/index.js").body, b"console.log(1)".to_vec());
    assert_eq!(s.respond(b"/FiraCode-Regular.ttf").body, vec![1, 2, 3]);
    assert_eq!(s.respond(b"/FiraCode-VariableFont_wght.ttf").content_length, 4);
}

#[test]
fn served_page_holds_only_fixed_names() {
    let s = server();
    let body = s.respond(b"/").body;
    assert_eq!(
        body,
        b"<script src=\"/index.js\"></script><link rel=\"stylesheet\" href=\"/index.css\"><body>".to_vec()
    );
    let css = s.respond(b"/index.css").body;
    assert!(zon::text::find(&css, b"url(/FiraCode-Regular.ttf)", 0).is_some());
    assert!(zon::text::find(&css, b"R.1.woff2", 0).is_none());
}

#[test]
fn statistics_are_served_at_input() {
    let s = server();
    let r = s.respond(b"/input");
    assert_eq!(r.status, 200);
    assert_eq!(r.content_type, Some(ContentType::Json));
    assert_eq!(r.body, b"{\"projectName\":\"p\",\"languages\":{}}".to_vec());
    assert_eq!(r.content_length, r.body.len());
    assert!(!r.accept_ranges);
}

#[test]
fn absent_stylesheet_is_not_found() {
    let files = vec![file("a.js", b"x")];
    let assets = AssetSet::bundle(b"<script src=\"/a.js\"></script>", &files).unwrap();
    let s = Server::new(assets, Vec::new());
    assert_eq!(s.respond(b"/index.css").status, 404);
    assert_eq!(s.respond(b"/FiraCode-Regular.ttf").status, 404);
    assert_eq!(s.respond(b"/index.js").status, 200);
}

#[test]
fn content_type_values() {
    assert_eq!(ContentType::Html.mime(), "text/html");
    assert_eq!(ContentType::JavaScript.mime(), "application/javascript");
    assert_eq!(ContentType::Css.mime(), "text/css");
    assert_eq!(ContentType::Font.mime(), "font/ttf");
    assert_eq!(ContentType::Json.mime(), "application/json");
}

#[test]
fn project_name_falls_back() {
    assert_eq!(project_name(Some("tool")), "tool".to_string());
    assert_eq!(project_name(None), "Project".to_string());
}
