use wdn::parts::extract_labeled_parts;

const DRAWING: &str = "<svg xmlns=\"http://www.w3.org/2000/svg\" xmlns:inkscape=\"http://www.inkscape.org/namespaces/inkscape\">\
<g inkscape:groupmode=\"layer\" inkscape:label=\"Center\">\
<g inkscape:label=\"CenterNone\" style=\"display:none\"><rect width=\"1\" style=\"display:none\"/></g>\
<g inkscape:label=\"CenterWallFull\" style=\"display:inline\"><rect width=\"2\"/></g>\
<g label=\"Unlabelled\"><rect/></g>\
</g>\
</svg>";

#[test]
fn parts_by_label() {
    let parts = extract_labeled_parts(DRAWING).unwrap();
    assert_eq!(
        parts.get("CenterNone").unwrap(),
        "<g inkscape:label=\"CenterNone\" style=\"display:inline\"><rect width=\"1\" style=\"display:none\"/></g>"
    );
    assert_eq!(
        parts.get("CenterWallFull").unwrap(),
        "<g inkscape:label=\"CenterWallFull\" style=\"display:inline\"><rect width=\"2\"/></g>"
    );
    // Layers and groups that Inkscape does not label are no parts.
    assert!(parts.get("Center").is_none());
    assert!(parts.get("Unlabelled").is_none());
}

#[test]
fn later_parts_replace_earlier_ones() {
    let svg = "<svg xmlns:inkscape=\"http://www.inkscape.org/namespaces/inkscape\">\
<g inkscape:label=\"A\"><a/></g><g inkscape:label=\"A\"><b/></g></svg>";
    let parts = extract_labeled_parts(svg).unwrap();
    assert_eq!(parts.get("A").unwrap(), "<g inkscape:label=\"A\"><b/></g>");
}

#[test]
fn malformed_drawing() {
    assert!(extract_labeled_parts("<svg><g></svg>").is_none());
}
