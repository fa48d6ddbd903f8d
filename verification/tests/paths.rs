use haisvg::PathNode;
use haisvg::SVGElement;
use haisvg::ToPathNode;

#[test]
fn move_commands_render() {
    assert_eq!(PathNode::move_to("1", "2").render(), "M 1,2");
    assert_eq!(PathNode::move_by("3", "4").render(), "m 3,4");
}

#[test]
fn line_commands_render() {
    assert_eq!(PathNode::line_to("1", "2").render(), "L 1,2");
    assert_eq!(PathNode::line_by("3", "4").render(), "l 3,4");
}

#[test]
fn horizontal_commands_render() {
    assert_eq!(PathNode::horizontal_to("5").render(), "H 5");
    assert_eq!(PathNode::horizontal_by("6").render(), "h 6");
}

#[test]
fn vertical_commands_render() {
    assert_eq!(PathNode::vertical_to("7").render(), "V 7");
    assert_eq!(PathNode::vertical_by("8").render(), "v 8");
}

#[test]
fn cubic_commands_render() {
    assert_eq!(
        PathNode::cubic_to("1", "2", "3", "4", "5", "6").render(),
        "C 1,2 3,4 5,6"
    );
    assert_eq!(
        PathNode::cubic_by("6", "5", "4", "3", "2", "1").render(),
        "c 6,5 4,3 2,1"
    );
}

#[test]
fn smooth_cubic_commands_render() {
    assert_eq!(
        PathNode::smooth_cubic_to("1", "2", "3", "4").render(),
        "S 1,2 3,4"
    );
    assert_eq!(
        PathNode::smooth_cubic_by("4", "3", "2", "1").render(),
        "s 4,3 2,1"
    );
}

#[test]
fn quadratic_commands_render() {
    assert_eq!(
        PathNode::quadratic_to("1", "2", "3", "4").render(),
        "Q 1,2 3,4"
    );
    assert_eq!(
        PathNode::quadratic_by("4", "3", "2", "1").render(),
        "q 4,3 2,1"
    );
}

#[test]
fn smooth_quadratic_commands_render() {
    assert_eq!(PathNode::smooth_quadratic_to("1", "2").render(), "T 1,2");
    assert_eq!(PathNode::smooth_quadratic_by("3", "4").render(), "t 3,4");
}

#[test]
fn elliptical_commands_render() {
    assert_eq!(
        PathNode::elliptical_to("25", "25", "-30", "0", "1", "50", "-25").render(),
        "A 25 25 -30 0 1 50,-25"
    );
    assert_eq!(
        PathNode::elliptical_by("25", "25", "-30", "0", "1", "50", "-25").render(),
        "a 25 25 -30 0 1 50,-25"
    );
}

#[test]
fn close_path_renders_with_trailing_space() {
    assert_eq!(PathNode::close_path().render(), "Z ");
}

#[test]
fn existing_command_passes_through_ignoring_letter() {
    let node = PathNode::line_to("1", "2");
    let coerced = node.to_path_node("X");
    assert_eq!(coerced.render(), "L 1,2");
}

#[test]
fn coordinate_pair_takes_the_supplied_letter() {
    let pair = ("3".to_string(), "4".to_string());
    let coerced = pair.to_path_node("L");
    assert_eq!(coerced.render(), "L 3,4");
}

#[test]
fn path_of_coordinate_pairs_uses_empty_letters() {
    let path = SVGElement::path(vec![
        ("1".to_string(), "2".to_string()),
        ("3".to_string(), "4".to_string()),
    ]);
    assert_eq!(path.get_value("d").unwrap(), " 1,2  3,4");
}

#[test]
fn path_element_serializes_whole_tag() {
    let path = SVGElement::path(vec![PathNode::move_to("0", "0"), PathNode::close_path()]);
    assert_eq!(path.serialize(), "<path d=\"M 0,0 Z \" />");
}
