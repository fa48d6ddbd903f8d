use haisvg::HaiSVGError;
use haisvg::PathNode;
use haisvg::Processable;
use haisvg::SVG;
use haisvg::SVGElement;

#[test]
fn test_shape_attribute_creation() -> Result<(), HaiSVGError> {
    let mut test_element = SVGElement::new("test_element");
    test_element.add_attr("ten", "10");
    test_element.add_attr("hello", "hi");
    test_element.add_attr("pi", "3.14");

    let value_a = test_element.get_value("ten")?;
    assert_eq!(value_a, "10");
    let value_b = test_element.get_value("hello")?;
    assert_eq!(value_b, "hi");
    let value_c = test_element.get_value("pi")?;
    assert_eq!(value_c, "3.14");
    Ok(())
}

#[test]
fn test_element_formatting() {
    let mut test_element = SVGElement::new("test_element");
    test_element.add_attr("test_attr", "foo");

    assert_eq!(
        test_element.serialize(),
        "<test_element test_attr=\"foo\" />"
    );
}

#[test]
fn test_svg_formatting() {
    let mut svg = SVG::new("100", "100", None);
    let mut test_element = SVGElement::new("test_element");

    test_element.add_attr("test_attr", "foo");
    svg.add_element(test_element);

    assert_eq!(
        svg.serialize(),
        "<svg height=\"100\" width=\"100\" xmlns=\"http://www.w3.org/2000/svg\">\n<test_element test_attr=\"foo\" />\n</svg>"
    )
}

#[test]
fn attribute_order_is_sorted_regardless_of_insertion() {
    let mut forward = SVGElement::new("node");
    forward.add_attr("alpha", "1");
    forward.add_attr("beta", "2");
    forward.add_attr("gamma", "3");

    let mut backward = SVGElement::new("node");
    backward.add_attr("gamma", "3");
    backward.add_attr("alpha", "1");
    backward.add_attr("beta", "2");

    let expected = "alpha=\"1\" beta=\"2\" gamma=\"3\"";
    assert_eq!(forward.format_keys(), expected);
    assert_eq!(backward.format_keys(), expected);
}

#[test]
fn getting_unset_key_fails_with_that_key() {
    let element = SVGElement::new("node");
    match element.get_value("missing") {
        Ok(_) => panic!("lookup of an unset key must fail"),
        Err(HaiSVGError::KeyNotFound(key)) => assert_eq!(key, "missing"),
    }
}

#[test]
fn setting_a_key_twice_keeps_the_last_value() {
    let mut element = SVGElement::new("node");
    element.add_attr("k", "first");
    element.add_attr("k", "second");
    assert_eq!(element.get_value("k").unwrap(), "second");
    assert_eq!(element.format_keys(), "k=\"second\"");
}

#[test]
fn path_d_serializes_move_line_close() {
    let path = SVGElement::path(vec![
        PathNode::move_to("0", "0"),
        PathNode::line_to("10", "10"),
        PathNode::close_path(),
    ]);
    assert_eq!(path.get_value("d").unwrap(), "M 0,0 L 10,10 Z ");
}

#[test]
fn points_list_formats_pairs() {
    let points = vec![
        ("0".to_string(), "0".to_string()),
        ("1".to_string(), "1".to_string()),
        ("2".to_string(), "2".to_string()),
    ];
    assert_eq!(points.process(), "0,0 1,1 2,2");
}

#[test]
fn reserialization_is_idempotent() {
    let mut svg = SVG::new("100", "100", None);
    let mut element = SVGElement::new("node");
    element.add_attr("k", "v");
    svg.add_element(element);
    svg.add_element(SVGElement::circle("5", "1", "2"));

    let first = svg.serialize();
    let second = svg.serialize();
    let third = svg.serialize();
    assert_eq!(first, second);
    assert_eq!(second, third);
}

#[test]
fn error_message_names_the_key() {
    let element = SVGElement::new("node");
    match element.get_value("pi") {
        Ok(_) => panic!("lookup of an unset key must fail"),
        Err(error) => assert_eq!(error.message(), "Key 'pi' not found in map"),
    }
}
