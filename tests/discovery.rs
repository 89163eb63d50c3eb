use zon::manifest::{discover_fonts, discover_page, discover_reference, DiscoveryError, Reference};

const CSS: &[u8] = b"body{margin:0}@font-face{font-family:Fira Code;src:url(/FiraCode-Regular.1a2b.woff2) format(\"woff2\");font-weight:400}@supports (font-variation-settings:normal){@font-face{font-family:Fira Code;src:url(/FiraCode-VF.9f8e.woff2) format(\"woff2 supports variations\")}}";

#[test]
fn script_reference_is_the_last_url_segment() {
    let r = discover_reference(b"<script src=\"/ui/app.ab12.js\"></script>", Reference::Script);
    assert_eq!(r, Ok(Some(b"app.ab12.js".to_vec())));
}

#[test]
fn absent_reference_is_none() {
    assert_eq!(discover_reference(b"<html></html>", Reference::Stylesheet), Ok(None));
}

#[test]
fn unterminated_reference_is_rejected() {
    assert_eq!(
        discover_reference(b"<script src=\"/app.js", Reference::Script),
        Err(DiscoveryError::Unterminated(Reference::Script))
    );
}

#[test]
fn reference_naming_no_file_is_rejected() {
    assert_eq!(
        discover_reference(b"<script src=\"/ui/\"></script>", Reference::Script),
        Err(DiscoveryError::EmptyName(Reference::Script))
    );
    assert_eq!(
        discover_reference(b"<script src=\"\"></script>", Reference::Script),
        Err(DiscoveryError::EmptyName(Reference::Script))
    );
}

#[test]
fn second_script_is_rejected() {
    let html = b"<script src=\"/a.1.js\"></script><script src=\"/b.2.js\"></script>";
    assert_eq!(
        discover_reference(html, Reference::Script),
        Err(DiscoveryError::Duplicate(Reference::Script))
    );
}

#[test]
fn second_stylesheet_is_rejected() {
    let html = b"<script src=\"/a.js\"></script><link rel=\"stylesheet\" href=\"/a.css\"><link rel=\"stylesheet\" href=\"/b.css\">";
    assert_eq!(
        discover_page(html).err(),
        Some(DiscoveryError::Duplicate(Reference::Stylesheet))
    );
}

#[test]
fn first_font_marker_is_taken() {
    let css = b"@font-face{font-family:Fira Code;src:url(/a.woff2)}@font-face{font-family:Fira Code;src:url(/b.woff2)}";
    assert_eq!(
        discover_reference(css, Reference::FontRegular),
        Ok(Some(b"a.woff2".to_vec()))
    );
}

#[test]
fn page_without_script_marker_is_rejected() {
    assert_eq!(
        discover_page(b"<html></html>").err(),
        Some(DiscoveryError::MissingReference(Reference::Script))
    );
}

#[test]
fn page_with_script_and_stylesheet() {
    let html = b"<head><script src=\"/index.5d1e.js\"></script><link rel=\"stylesheet\" href=\"/index.77aa.css\"><body></body>";
    let m = discover_page(html).unwrap();
    assert_eq!(m.script, b"index.5d1e.js".to_vec());
    assert_eq!(m.stylesheet, Some(b"index.77aa.css".to_vec()));
}

#[test]
fn page_with_broken_stylesheet_is_rejected() {
    let html = b"<script src=\"/a.js\"></script><link rel=\"stylesheet\" href=\"/x.css";
    assert_eq!(
        discover_page(html).err(),
        Some(DiscoveryError::Unterminated(Reference::Stylesheet))
    );
}

#[test]
fn fonts_are_told_apart_by_their_blocks() {
    let f = discover_fonts(CSS).unwrap();
    assert_eq!(f.regular, Some(b"FiraCode-Regular.1a2b.woff2".to_vec()));
    assert_eq!(f.variable, Some(b"FiraCode-VF.9f8e.woff2".to_vec()));
}

#[test]
fn stylesheet_without_fonts() {
    let f = discover_fonts(b"body{color:red}").unwrap();
    assert_eq!(f.regular, None);
    assert_eq!(f.variable, None);
}

#[test]
fn fixed_names_and_markers() {
    assert_eq!(Reference::Script.fixed_name(), b"index.js");
    assert_eq!(Reference::Stylesheet.fixed_name(), b"index.css");
    assert_eq!(Reference::FontRegular.fixed_name(), b"FiraCode-Regular.ttf");
    assert_eq!(Reference::FontVariable.fixed_name(), b"FiraCode-VariableFont_wght.ttf");
    assert_eq!(Reference::Script.opening(), b"<script src=\"");
    assert_eq!(Reference::FontRegular.closing(), b")");
}
