use haisvg::AttrMap;
use haisvg::HaiSVGError;
use haisvg::SVG;
use haisvg::SVGElement;

#[test]
fn rect_with_default_radii() {
    let rect = SVGElement::rect("10", "20", "1", "2", None, None);
    assert_eq!(
        rect.serialize(),
        "<rect height=\"20\" rx=\"0\" ry=\"0\" width=\"10\" x=\"1\" y=\"2\" />"
    );
}

#[test]
fn rect_with_explicit_radii() {
    let rect = SVGElement::rect("10", "20", "1", "2", Some("3"), Some("4"));
    assert_eq!(
        rect.serialize(),
        "<rect height=\"20\" rx=\"3\" ry=\"4\" width=\"10\" x=\"1\" y=\"2\" />"
    );
}

#[test]
fn circle_serializes() {
    let circle = SVGElement::circle("5", "1", "2");
    assert_eq!(circle.serialize(), "<circle cx=\"1\" cy=\"2\" r=\"5\" />");
}

#[test]
fn ellipse_serializes() {
    let ellipse = SVGElement::ellipse("5", "6", "1", "2");
    assert_eq!(
        ellipse.serialize(),
        "<ellipse cx=\"1\" cy=\"2\" rx=\"5\" ry=\"6\" />"
    );
}

#[test]
fn line_serializes() {
    let line = SVGElement::line("0", "1", "2", "3");
    assert_eq!(
        line.serialize(),
        "<line x1=\"0\" x2=\"2\" y1=\"1\" y2=\"3\" />"
    );
}

#[test]
fn polygon_points_attribute() {
    let polygon = SVGElement::polygon(vec![
        ("0".to_string(), "0".to_string()),
        ("1".to_string(), "1".to_string()),
        ("2".to_string(), "2".to_string()),
    ]);
    assert_eq!(polygon.serialize(), "<polygon points=\"0,0 1,1 2,2\" />");
}

#[test]
fn polyline_points_attribute() {
    let polyline = SVGElement::polyline(vec![
        ("3".to_string(), "4".to_string()),
        ("5".to_string(), "6".to_string()),
    ]);
    assert_eq!(polyline.serialize(), "<polyline points=\"3,4 5,6\" />");
}

#[test]
fn polygon_accepts_preformatted_text() {
    let polygon = SVGElement::polygon("5,5 6,6".to_string());
    assert_eq!(polygon.get_value("points").unwrap(), "5,5 6,6");
}

#[test]
fn text_with_defaults() {
    let text = SVGElement::text("hello", "5", "6", None, None, None, None, None);
    assert_eq!(
        text.serialize(),
        "<text dx=\"0\" dy=\"0\" lengthAdjust=\"spacing\" rotate=\"0\" textLength=\"none\" x=\"5\" y=\"6\">hello</text>"
    );
}

#[test]
fn text_with_explicit_options() {
    let text = SVGElement::text(
        "hi",
        "5",
        "6",
        Some("1"),
        Some("2"),
        Some("45"),
        Some("30"),
        Some("spacingAndGlyphs"),
    );
    assert_eq!(
        text.serialize(),
        "<text dx=\"1\" dy=\"2\" lengthAdjust=\"spacingAndGlyphs\" rotate=\"45\" textLength=\"30\" x=\"5\" y=\"6\">hi</text>"
    );
}

#[test]
fn element_without_attributes_is_self_closing() {
    let element = SVGElement::new("stop");
    assert_eq!(element.serialize(), "<stop />");
}

#[test]
fn empty_document_keeps_empty_line() {
    let svg = SVG::new("1", "2", None);
    assert_eq!(
        svg.serialize(),
        "<svg height=\"2\" width=\"1\" xmlns=\"http://www.w3.org/2000/svg\">\n\n</svg>"
    );
}

#[test]
fn document_with_custom_namespace() {
    let svg = SVG::new("1", "2", Some("urn:example"));
    assert_eq!(
        svg.serialize(),
        "<svg height=\"2\" width=\"1\" xmlns=\"urn:example\">\n\n</svg>"
    );
}

#[test]
fn document_attributes_can_be_added() {
    let mut svg = SVG::new("1", "2", None);
    svg.add_attr("viewBox", "0 0 1 2");
    assert_eq!(
        svg.format_keys(),
        "height=\"2\" viewBox=\"0 0 1 2\" width=\"1\" xmlns=\"http://www.w3.org/2000/svg\""
    );
}

#[test]
fn document_keeps_element_insertion_order() {
    let mut svg = SVG::new("9", "9", None);
    svg.add_element(SVGElement::new("b"));
    svg.add_element(SVGElement::new("a"));
    assert_eq!(svg.format_elements(), "<b />\n<a />");
}

#[test]
fn attr_map_starts_empty_and_sorts_entries() {
    let mut map = AttrMap::new();
    assert_eq!(map.serialize(), "");
    map.set("zeta", "1");
    map.set("alpha", "2");
    assert_eq!(map.serialize(), "alpha=\"2\" zeta=\"1\"");
    match map.get("zeta") {
        Ok(value) => assert_eq!(value, "1"),
        Err(HaiSVGError::KeyNotFound(_)) => panic!("zeta was set"),
    }
}
