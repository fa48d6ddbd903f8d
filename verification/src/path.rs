//! The path-data mini-language: one `PathNode` per drawing instruction,
//! holding a command letter and pre-formatted operand text.
//!
//! Operand text is fixed at construction and never re-derived; a node's
//! rendered form is the command letter, a space, and the operand text.

use vstd::prelude::*;
use vstd::string::StringExecFns;

verus! {

/// One path-drawing instruction: a command letter (`M`, `l`, `C`, `Z`, ...)
/// and its operand text, already in final serialized form.
pub struct PathNode {
    tag: String,
    point_data: String,
}

/// The operand text of a coordinate pair: `x,y`.
pub open spec fn pair_text(x: Seq<char>, y: Seq<char>) -> Seq<char> {
    x + ","@ + y
}

/// The rendered form of a command: the letter, one space, the operand text.
/// The close-path command, whose operand text is empty, renders with a
/// trailing space, as the reference format does.
pub open spec fn node_text(tag: Seq<char>, data: Seq<char>) -> Seq<char> {
    tag + " "@ + data
}

impl PathNode {
    /// The command letter.
    pub closed spec fn tag_model(&self) -> Seq<char> {
        self.tag@
    }

    /// The operand text.
    pub closed spec fn data_model(&self) -> Seq<char> {
        self.point_data@
    }

    /// The node's rendered form.
    pub open spec fn text_model(&self) -> Seq<char> {
        node_text(self.tag_model(), self.data_model())
    }

    /// Renders the node as `"{letter} {operands}"`.
    pub fn render(&self) -> (r: String)
        ensures
            r@ == self.text_model(),
    {
        let mut out = self.tag.clone();
        out.append(" ");
        out.append(self.point_data.as_str());
        out
    }

    /// Builds the operand text `x,y` of a coordinate pair.
    fn format_pair(x: &str, y: &str) -> (r: String)
        ensures
            r@ == pair_text(x@, y@),
    {
        let mut out = x.to_owned();
        out.append(",");
        out.append(y);
        out
    }

    /// Absolute move: `M x,y`.
    pub fn move_to(x: &str, y: &str) -> (r: PathNode)
        ensures
            r.tag_model() == "M"@,
            r.data_model() == pair_text(x@, y@),
    {
        PathNode { tag: "M".to_owned(), point_data: Self::format_pair(x, y) }
    }

    /// Relative move: `m dx,dy`.
    pub fn move_by(dx: &str, dy: &str) -> (r: PathNode)
        ensures
            r.tag_model() == "m"@,
            r.data_model() == pair_text(dx@, dy@),
    {
        PathNode { tag: "m".to_owned(), point_data: Self::format_pair(dx, dy) }
    }

    /// Absolute line: `L x,y`.
    pub fn line_to(x: &str, y: &str) -> (r: PathNode)
        ensures
            r.tag_model() == "L"@,
            r.data_model() == pair_text(x@, y@),
    {
        PathNode { tag: "L".to_owned(), point_data: Self::format_pair(x, y) }
    }

    /// Relative line: `l dx,dy`.
    pub fn line_by(dx: &str, dy: &str) -> (r: PathNode)
        ensures
            r.tag_model() == "l"@,
            r.data_model() == pair_text(dx@, dy@),
    {
        PathNode { tag: "l".to_owned(), point_data: Self::format_pair(dx, dy) }
    }

    /// Absolute horizontal line: `H x`.
    pub fn horizontal_to(x: &str) -> (r: PathNode)
        ensures
            r.tag_model() == "H"@,
            r.data_model() == x@,
    {
        PathNode { tag: "H".to_owned(), point_data: x.to_owned() }
    }

    /// Relative horizontal line: `h dx`.
    pub fn horizontal_by(dx: &str) -> (r: PathNode)
        ensures
            r.tag_model() == "h"@,
            r.data_model() == dx@,
    {
        PathNode { tag: "h".to_owned(), point_data: dx.to_owned() }
    }

    /// Absolute vertical line: `V y`.
    pub fn vertical_to(y: &str) -> (r: PathNode)
        ensures
            r.tag_model() == "V"@,
            r.data_model() == y@,
    {
        PathNode { tag: "V".to_owned(), point_data: y.to_owned() }
    }

    /// Relative vertical line: `v dy`.
    pub fn vertical_by(dy: &str) -> (r: PathNode)
        ensures
            r.tag_model() == "v"@,
            r.data_model() == dy@,
    {
        PathNode { tag: "v".to_owned(), point_data: dy.to_owned() }
    }

    /// Builds the operand text of a cubic curve: `x1,y1 x2,y2 x,y`.
    fn format_cubic(x1: &str, y1: &str, x2: &str, y2: &str, x: &str, y: &str) -> (r: String)
        ensures
            r@ == pair_text(x1@, y1@) + " "@ + pair_text(x2@, y2@) + " "@ + pair_text(x@, y@),
    {
        let mut out = Self::format_pair(x1, y1);
        out.append(" ");
        let second = Self::format_pair(x2, y2);
        out.append(second.as_str());
        out.append(" ");
        let third = Self::format_pair(x, y);
        out.append(third.as_str());
        out
    }

    /// Absolute cubic curve: `C x1,y1 x2,y2 x,y`.
    pub fn cubic_to(x1: &str, y1: &str, x2: &str, y2: &str, x: &str, y: &str) -> (r: PathNode)
        ensures
            r.tag_model() == "C"@,
            r.data_model() == pair_text(x1@, y1@) + " "@ + pair_text(x2@, y2@) + " "@ + pair_text(
                x@,
                y@,
            ),
    {
        PathNode { tag: "C".to_owned(), point_data: Self::format_cubic(x1, y1, x2, y2, x, y) }
    }

    /// Relative cubic curve: `c dx1,dy1 dx2,dy2 dx,dy`.
    pub fn cubic_by(dx1: &str, dy1: &str, dx2: &str, dy2: &str, dx: &str, dy: &str) -> (r:
        PathNode)
        ensures
            r.tag_model() == "c"@,
            r.data_model() == pair_text(dx1@, dy1@) + " "@ + pair_text(dx2@, dy2@) + " "@
                + pair_text(dx@, dy@),
    {
        PathNode { tag: "c".to_owned(), point_data: Self::format_cubic(dx1, dy1, dx2, dy2, dx, dy) }
    }

    /// Builds the operand text of a two-pair command: `a,b c,d`.
    fn format_two_pairs(a: &str, b: &str, c: &str, d: &str) -> (r: String)
        ensures
            r@ == pair_text(a@, b@) + " "@ + pair_text(c@, d@),
    {
        let mut out = Self::format_pair(a, b);
        out.append(" ");
        let second = Self::format_pair(c, d);
        out.append(second.as_str());
        out
    }

    /// Absolute smooth cubic curve: `S x2,y2 x,y`.
    pub fn smooth_cubic_to(x2: &str, y2: &str, x: &str, y: &str) -> (r: PathNode)
        ensures
            r.tag_model() == "S"@,
            r.data_model() == pair_text(x2@, y2@) + " "@ + pair_text(x@, y@),
    {
        PathNode { tag: "S".to_owned(), point_data: Self::format_two_pairs(x2, y2, x, y) }
    }

    /// Relative smooth cubic curve: `s dx2,dy2 dx,dy`.
    pub fn smooth_cubic_by(dx2: &str, dy2: &str, dx: &str, dy: &str) -> (r: PathNode)
        ensures
            r.tag_model() == "s"@,
            r.data_model() == pair_text(dx2@, dy2@) + " "@ + pair_text(dx@, dy@),
    {
        PathNode { tag: "s".to_owned(), point_data: Self::format_two_pairs(dx2, dy2, dx, dy) }
    }

    /// Absolute quadratic curve: `Q x1,y1 x,y`.
    pub fn quadratic_to(x1: &str, y1: &str, x: &str, y: &str) -> (r: PathNode)
        ensures
            r.tag_model() == "Q"@,
            r.data_model() == pair_text(x1@, y1@) + " "@ + pair_text(x@, y@),
    {
        PathNode { tag: "Q".to_owned(), point_data: Self::format_two_pairs(x1, y1, x, y) }
    }

    /// Relative quadratic curve: `q dx1,dy1 dx,dy`.
    pub fn quadratic_by(dx1: &str, dy1: &str, dx: &str, dy: &str) -> (r: PathNode)
        ensures
            r.tag_model() == "q"@,
            r.data_model() == pair_text(dx1@, dy1@) + " "@ + pair_text(dx@, dy@),
    {
        PathNode { tag: "q".to_owned(), point_data: Self::format_two_pairs(dx1, dy1, dx, dy) }
    }

    /// Absolute smooth quadratic curve: `T x,y`.
    pub fn smooth_quadratic_to(x: &str, y: &str) -> (r: PathNode)
        ensures
            r.tag_model() == "T"@,
            r.data_model() == pair_text(x@, y@),
    {
        PathNode { tag: "T".to_owned(), point_data: Self::format_pair(x, y) }
    }

    /// Relative smooth quadratic curve: `t dx,dy`.
    pub fn smooth_quadratic_by(dx: &str, dy: &str) -> (r: PathNode)
        ensures
            r.tag_model() == "t"@,
            r.data_model() == pair_text(dx@, dy@),
    {
        PathNode { tag: "t".to_owned(), point_data: Self::format_pair(dx, dy) }
    }

    /// Builds the operand text of an elliptical arc:
    /// `rx ry angle largeArcFlag sweepFlag x,y`.
    fn format_arc(rx: &str, ry: &str, angle: &str, large_arc_flag: &str, sweep_flag: &str, x: &str, y: &str) -> (r: String)
        ensures
            r@ == rx@ + " "@ + ry@ + " "@ + angle@ + " "@ + large_arc_flag@ + " "@ + sweep_flag@
                + " "@ + pair_text(x@, y@),
    {
        let mut out = rx.to_owned();
        out.append(" ");
        out.append(ry);
        out.append(" ");
        out.append(angle);
        out.append(" ");
        out.append(large_arc_flag);
        out.append(" ");
        out.append(sweep_flag);
        out.append(" ");
        let pair = Self::format_pair(x, y);
        out.append(pair.as_str());
        out
    }

    /// Absolute elliptical arc: `A rx ry angle largeArcFlag sweepFlag x,y`.
    pub fn elliptical_to(rx: &str, ry: &str, angle: &str, large_arc_flag: &str, sweep_flag: &str, x: &str, y: &str) -> (r: PathNode)
        ensures
            r.tag_model() == "A"@,
            r.data_model() == rx@ + " "@ + ry@ + " "@ + angle@ + " "@ + large_arc_flag@ + " "@
                + sweep_flag@ + " "@ + pair_text(x@, y@),
    {
        PathNode {
            tag: "A".to_owned(),
            point_data: Self::format_arc(rx, ry, angle, large_arc_flag, sweep_flag, x, y),
        }
    }

    /// Relative elliptical arc: `a rx ry angle largeArcFlag sweepFlag dx,dy`.
    pub fn elliptical_by(rx: &str, ry: &str, angle: &str, large_arc_flag: &str, sweep_flag: &str, dx: &str, dy: &str) -> (r: PathNode)
        ensures
            r.tag_model() == "a"@,
            r.data_model() == rx@ + " "@ + ry@ + " "@ + angle@ + " "@ + large_arc_flag@ + " "@
                + sweep_flag@ + " "@ + pair_text(dx@, dy@),
    {
        PathNode {
            tag: "a".to_owned(),
            point_data: Self::format_arc(rx, ry, angle, large_arc_flag, sweep_flag, dx, dy),
        }
    }

    /// Close path: `Z`, with no operands.
    pub fn close_path() -> (r: PathNode)
        ensures
            r.tag_model() == "Z"@,
            r.data_model() == Seq::<char>::empty(),
    {
        PathNode { tag: "Z".to_owned(), point_data: String::new() }
    }
}

/// The coercion capability: anything that can stand in for a path command,
/// given a command letter chosen by the caller. An existing `PathNode`
/// passes through unchanged (the letter is ignored, since the node already
/// carries one); a bare coordinate pair is tagged with the supplied letter.
pub trait ToPathNode {
    /// The command letter and operand text the value stands for, given the
    /// caller-supplied letter `tag`.
    spec fn path_node_model(&self, tag: Seq<char>) -> (Seq<char>, Seq<char>);

    /// Coerces the value into a `PathNode` tagged per `path_node_model`.
    fn to_path_node(&self, tag: &str) -> (r: PathNode)
        ensures
            r.tag_model() == self.path_node_model(tag@).0,
            r.data_model() == self.path_node_model(tag@).1,
    ;
}

impl ToPathNode for PathNode {
    /// An existing command keeps its own letter and operands.
    open spec fn path_node_model(&self, tag: Seq<char>) -> (Seq<char>, Seq<char>) {
        (self.tag_model(), self.data_model())
    }

    fn to_path_node(&self, _tag: &str) -> (r: PathNode) {
        PathNode { tag: self.tag.clone(), point_data: self.point_data.clone() }
    }
}

impl ToPathNode for (String, String) {
    /// A bare coordinate pair takes the supplied letter, with operand text
    /// `x,y`.
    open spec fn path_node_model(&self, tag: Seq<char>) -> (Seq<char>, Seq<char>) {
        (tag, pair_text(self.0@, self.1@))
    }

    fn to_path_node(&self, tag: &str) -> (r: PathNode) {
        PathNode { tag: tag.to_owned(), point_data: PathNode::format_pair(self.0.as_str(), self.1.as_str()) }
    }
}

} // verus!
