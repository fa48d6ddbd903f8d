//! The element model: one graphical node carrying a tag name, an attribute
//! map and optional inner text, with named constructors for the standard
//! primitive shapes.
//!
//! An element serializes as a self-closing tag when it has no inner text and
//! as a content-bearing tag otherwise; the choice depends on the inner text
//! alone, never on the tag name.

use vstd::prelude::*;
use vstd::string::StringExecFns;
use crate::attr::AttrMap;
use crate::attr::HaiSVGError;
use crate::attr::entries_wf;
use crate::attr::lemma_spec_set_get;
use crate::attr::spec_get;
use crate::attr::spec_set;
use crate::path::ToPathNode;
use crate::path::node_text;
use crate::points::Processable;
use crate::text::attrs_text;
use crate::text::join_with;

verus! {

/// The serialized form of an element: `<tag attrs />` without inner text
/// (the space before `/>` always present, the one before the attributes
/// only when there are any), `<tag attrs>inner</tag>` with it.
pub open spec fn element_text(
    tag: Seq<char>,
    attrs: Seq<(Seq<char>, Seq<char>)>,
    inner: Option<Seq<char>>,
) -> Seq<char> {
    let head = if attrs.len() == 0 {
        "<"@ + tag
    } else {
        "<"@ + tag + " "@ + attrs_text(attrs)
    };
    match inner {
        Option::Some(t) => head + ">"@ + t + "</"@ + tag + ">"@,
        Option::None => head + " />"@,
    }
}

/// The `d` attribute text of a path element: each item coerced to a command
/// with an empty override letter, rendered, and joined by single spaces.
pub open spec fn path_data_text<T: ToPathNode>(items: Seq<T>) -> Seq<char> {
    join_with(
        items.map_values(
            |x: T| node_text(x.path_node_model(""@).0, x.path_node_model(""@).1),
        ),
        " "@,
    )
}

/// One graphical node: a tag name, an attribute map, and optional inner
/// text.
pub struct SVGElement {
    tag: String,
    attributes: AttrMap,
    inner: Option<String>,
}

impl SVGElement {
    /// The tag name.
    pub closed spec fn tag_model(&self) -> Seq<char> {
        self.tag@
    }

    /// The attribute entries, sorted by key for a well-formed element.
    pub closed spec fn attrs_model(&self) -> Seq<(Seq<char>, Seq<char>)> {
        self.attributes@
    }

    /// The inner text, when present.
    pub closed spec fn inner_model(&self) -> Option<Seq<char>> {
        match self.inner {
            Option::Some(ref t) => Option::Some(t@),
            Option::None => Option::None,
        }
    }

    /// The element's attribute entries are sorted strictly by key.
    pub open spec fn wf(&self) -> bool {
        entries_wf(self.attrs_model())
    }

    /// The element's serialized form.
    pub open spec fn text_model(&self) -> Seq<char> {
        element_text(self.tag_model(), self.attrs_model(), self.inner_model())
    }

    /// Creates an element with the given tag, no attributes and no inner
    /// text.
    pub fn new(tag: &str) -> (r: SVGElement)
        ensures
            r.wf(),
            r.tag_model() == tag@,
            r.attrs_model() == Seq::<(Seq<char>, Seq<char>)>::empty(),
            r.inner_model() is None,
    {
        SVGElement { tag: tag.to_owned(), attributes: AttrMap::new(), inner: None }
    }

    /// Stores an attribute, overwriting any earlier value for the same key.
    pub fn add_attr(&mut self, key: &str, value: &str)
        requires
            old(self).wf(),
        ensures
            final(self).wf(),
            final(self).attrs_model() == spec_set(old(self).attrs_model(), key@, value@),
            final(self).tag_model() == old(self).tag_model(),
            final(self).inner_model() == old(self).inner_model(),
    {
        self.attributes.set(key, value);
    }

    /// Looks an attribute up, failing with `KeyNotFound` when it was never
    /// set.
    pub fn get_value<'a>(&'a self, key: &str) -> (r: Result<&'a String, HaiSVGError>)
        ensures
            match r {
                Ok(v) => spec_get(self.attrs_model(), key@) == Some(v@),
                Err(HaiSVGError::KeyNotFound(k)) => spec_get(self.attrs_model(), key@) is None
                    && k@ == key@,
            },
    {
        self.attributes.get(key)
    }

    /// Renders the attributes as `key="value"` tokens joined by single
    /// spaces.
    pub fn format_keys(&self) -> (r: String)
        ensures
            r@ == attrs_text(self.attrs_model()),
    {
        self.attributes.serialize()
    }

    /// Renders the element: self-closing without inner text, content-bearing
    /// with it.
    pub fn serialize(&self) -> (r: String)
        ensures
            r@ == self.text_model(),
    {
        let mut out = "<".to_owned();
        out.append(self.tag.as_str());
        if self.attributes.len() > 0 {
            out.append(" ");
            let attrs = self.attributes.serialize();
            out.append(attrs.as_str());
        }
        match self.inner {
            Option::Some(ref t) => {
                out.append(">");
                out.append(t.as_str());
                out.append("</");
                out.append(self.tag.as_str());
                out.append(">");
            },
            Option::None => {
                out.append(" />");
            },
        }
        proof {
            assert(out@ =~= self.text_model());
        }
        out
    }

    /// A rectangle: `rect` with width, height, position and corner radii;
    /// absent corner radii default to `0`.
    pub fn rect(width: &str, height: &str, x: &str, y: &str, rx: Option<&str>, ry: Option<&str>) -> (r: SVGElement)
        ensures
            r.wf(),
            r.tag_model() == "rect"@,
            r.inner_model() is None,
            spec_get(r.attrs_model(), "width"@) == Some(width@),
            spec_get(r.attrs_model(), "height"@) == Some(height@),
            spec_get(r.attrs_model(), "x"@) == Some(x@),
            spec_get(r.attrs_model(), "y"@) == Some(y@),
            spec_get(r.attrs_model(), "rx"@) == Some(
                match rx {
                    Option::Some(v) => v@,
                    Option::None => "0"@,
                },
            ),
            spec_get(r.attrs_model(), "ry"@) == Some(
                match ry {
                    Option::Some(v) => v@,
                    Option::None => "0"@,
                },
            ),
            forall|k: Seq<char>|
                !(k == "width"@ || k == "height"@ || k == "x"@ || k == "y"@ || k == "rx"@ || k
                    == "ry"@) ==> spec_get(r.attrs_model(), k) is None,
    {
        let rx_value: &str = match rx {
            Option::Some(v) => v,
            Option::None => "0",
        };
        let ry_value: &str = match ry {
            Option::Some(v) => v,
            Option::None => "0",
        };
        let mut elem = SVGElement::new("rect");
        let ghost m0 = elem.attrs_model();
        elem.add_attr("width", width);
        let ghost m1 = elem.attrs_model();
        elem.add_attr("height", height);
        let ghost m2 = elem.attrs_model();
        elem.add_attr("x", x);
        let ghost m3 = elem.attrs_model();
        elem.add_attr("y", y);
        let ghost m4 = elem.attrs_model();
        elem.add_attr("rx", rx_value);
        let ghost m5 = elem.attrs_model();
        elem.add_attr("ry", ry_value);
        let ghost m6 = elem.attrs_model();
        proof {
            reveal_strlit("width");
            reveal_strlit("height");
            reveal_strlit("x");
            reveal_strlit("y");
            reveal_strlit("rx");
            reveal_strlit("ry");
            assert("width"@.len() == 5);
            assert("height"@.len() == 6);
            assert("x"@.len() == 1);
            assert("y"@.len() == 1);
            assert("rx"@.len() == 2);
            assert("ry"@.len() == 2);
            assert("x"@[0] == 'x');
            assert("y"@[0] == 'y');
            assert("rx"@[1] == 'x');
            assert("ry"@[1] == 'y');
            lemma_spec_set_get(m0, "width"@, width@);
            lemma_spec_set_get(m1, "height"@, height@);
            lemma_spec_set_get(m2, "x"@, x@);
            lemma_spec_set_get(m3, "y"@, y@);
            lemma_spec_set_get(m4, "rx"@, rx_value@);
            lemma_spec_set_get(m5, "ry"@, ry_value@);
            assert forall|k: Seq<char>|
                !(k == "width"@ || k == "height"@ || k == "x"@ || k == "y"@ || k == "rx"@ || k
                    == "ry"@) implies spec_get(m6, k) is None by {
                assert(spec_get(m6, k) == spec_get(m5, k));
                assert(spec_get(m5, k) == spec_get(m4, k));
                assert(spec_get(m4, k) == spec_get(m3, k));
                assert(spec_get(m3, k) == spec_get(m2, k));
                assert(spec_get(m2, k) == spec_get(m1, k));
                assert(spec_get(m1, k) == spec_get(m0, k));
                assert(spec_get(m0, k) is None);
            }
        }
        elem
    }

    /// A circle: `circle` with radius and centre.
    pub fn circle(r: &str, cx: &str, cy: &str) -> (res: SVGElement)
        ensures
            res.wf(),
            res.tag_model() == "circle"@,
            res.inner_model() is None,
            spec_get(res.attrs_model(), "r"@) == Some(r@),
            spec_get(res.attrs_model(), "cx"@) == Some(cx@),
            spec_get(res.attrs_model(), "cy"@) == Some(cy@),
            forall|k: Seq<char>|
                !(k == "r"@ || k == "cx"@ || k == "cy"@) ==> spec_get(res.attrs_model(), k)
                    is None,
    {
        let mut elem = SVGElement::new("circle");
        let ghost m0 = elem.attrs_model();
        elem.add_attr("r", r);
        let ghost m1 = elem.attrs_model();
        elem.add_attr("cx", cx);
        let ghost m2 = elem.attrs_model();
        elem.add_attr("cy", cy);
        let ghost m3 = elem.attrs_model();
        proof {
            reveal_strlit("r");
            reveal_strlit("cx");
            reveal_strlit("cy");
            assert("r"@.len() == 1);
            assert("cx"@.len() == 2);
            assert("cy"@.len() == 2);
            assert("cx"@[1] == 'x');
            assert("cy"@[1] == 'y');
            lemma_spec_set_get(m0, "r"@, r@);
            lemma_spec_set_get(m1, "cx"@, cx@);
            lemma_spec_set_get(m2, "cy"@, cy@);
            assert forall|k: Seq<char>|
                !(k == "r"@ || k == "cx"@ || k == "cy"@) implies spec_get(m3, k) is None by {
                assert(spec_get(m3, k) == spec_get(m2, k));
                assert(spec_get(m2, k) == spec_get(m1, k));
                assert(spec_get(m1, k) == spec_get(m0, k));
                assert(spec_get(m0, k) is None);
            }
        }
        elem
    }

    /// An ellipse: `ellipse` with the two radii and the centre.
    pub fn ellipse(rx: &str, ry: &str, cx: &str, cy: &str) -> (res: SVGElement)
        ensures
            res.wf(),
            res.tag_model() == "ellipse"@,
            res.inner_model() is None,
            spec_get(res.attrs_model(), "rx"@) == Some(rx@),
            spec_get(res.attrs_model(), "ry"@) == Some(ry@),
            spec_get(res.attrs_model(), "cx"@) == Some(cx@),
            spec_get(res.attrs_model(), "cy"@) == Some(cy@),
            forall|k: Seq<char>|
                !(k == "rx"@ || k == "ry"@ || k == "cx"@ || k == "cy"@) ==> spec_get(
                    res.attrs_model(),
                    k,
                ) is None,
    {
        let mut elem = SVGElement::new("ellipse");
        let ghost m0 = elem.attrs_model();
        elem.add_attr("rx", rx);
        let ghost m1 = elem.attrs_model();
        elem.add_attr("ry", ry);
        let ghost m2 = elem.attrs_model();
        elem.add_attr("cx", cx);
        let ghost m3 = elem.attrs_model();
        elem.add_attr("cy", cy);
        let ghost m4 = elem.attrs_model();
        proof {
            reveal_strlit("rx");
            reveal_strlit("ry");
            reveal_strlit("cx");
            reveal_strlit("cy");
            assert("rx"@[0] == 'r' && "rx"@[1] == 'x');
            assert("ry"@[0] == 'r' && "ry"@[1] == 'y');
            assert("cx"@[0] == 'c' && "cx"@[1] == 'x');
            assert("cy"@[0] == 'c' && "cy"@[1] == 'y');
            lemma_spec_set_get(m0, "rx"@, rx@);
            lemma_spec_set_get(m1, "ry"@, ry@);
            lemma_spec_set_get(m2, "cx"@, cx@);
            lemma_spec_set_get(m3, "cy"@, cy@);
            assert forall|k: Seq<char>|
                !(k == "rx"@ || k == "ry"@ || k == "cx"@ || k == "cy"@) implies spec_get(
                m4,
                k,
            ) is None by {
                assert(spec_get(m4, k) == spec_get(m3, k));
                assert(spec_get(m3, k) == spec_get(m2, k));
                assert(spec_get(m2, k) == spec_get(m1, k));
                assert(spec_get(m1, k) == spec_get(m0, k));
                assert(spec_get(m0, k) is None);
            }
        }
        elem
    }

    /// A line segment: `line` from one point to another.
    pub fn line(x1: &str, y1: &str, x2: &str, y2: &str) -> (res: SVGElement)
        ensures
            res.wf(),
            res.tag_model() == "line"@,
            res.inner_model() is None,
            spec_get(res.attrs_model(), "x1"@) == Some(x1@),
            spec_get(res.attrs_model(), "y1"@) == Some(y1@),
            spec_get(res.attrs_model(), "x2"@) == Some(x2@),
            spec_get(res.attrs_model(), "y2"@) == Some(y2@),
            forall|k: Seq<char>|
                !(k == "x1"@ || k == "y1"@ || k == "x2"@ || k == "y2"@) ==> spec_get(
                    res.attrs_model(),
                    k,
                ) is None,
    {
        let mut elem = SVGElement::new("line");
        let ghost m0 = elem.attrs_model();
        elem.add_attr("x1", x1);
        let ghost m1 = elem.attrs_model();
        elem.add_attr("y1", y1);
        let ghost m2 = elem.attrs_model();
        elem.add_attr("x2", x2);
        let ghost m3 = elem.attrs_model();
        elem.add_attr("y2", y2);
        let ghost m4 = elem.attrs_model();
        proof {
            reveal_strlit("x1");
            reveal_strlit("y1");
            reveal_strlit("x2");
            reveal_strlit("y2");
            assert("x1"@[0] == 'x' && "x1"@[1] == '1');
            assert("y1"@[0] == 'y' && "y1"@[1] == '1');
            assert("x2"@[0] == 'x' && "x2"@[1] == '2');
            assert("y2"@[0] == 'y' && "y2"@[1] == '2');
            lemma_spec_set_get(m0, "x1"@, x1@);
            lemma_spec_set_get(m1, "y1"@, y1@);
            lemma_spec_set_get(m2, "x2"@, x2@);
            lemma_spec_set_get(m3, "y2"@, y2@);
            assert forall|k: Seq<char>|
                !(k == "x1"@ || k == "y1"@ || k == "x2"@ || k == "y2"@) implies spec_get(
                m4,
                k,
            ) is None by {
                assert(spec_get(m4, k) == spec_get(m3, k));
                assert(spec_get(m3, k) == spec_get(m2, k));
                assert(spec_get(m2, k) == spec_get(m1, k));
                assert(spec_get(m1, k) == spec_get(m0, k));
                assert(spec_get(m0, k) is None);
            }
        }
        elem
    }

    /// A polygon: `polygon` whose `points` attribute is the rendered
    /// points-list of the argument.
    pub fn polygon<T: Processable>(points: T) -> (res: SVGElement)
        ensures
            res.wf(),
            res.tag_model() == "polygon"@,
            res.inner_model() is None,
            spec_get(res.attrs_model(), "points"@) == Some(points.processed()),
            forall|k: Seq<char>|
                k != "points"@ ==> spec_get(res.attrs_model(), k) is None,
    {
        let rendered = points.process();
        let mut elem = SVGElement::new("polygon");
        let ghost m0 = elem.attrs_model();
        elem.add_attr("points", rendered.as_str());
        let ghost m1 = elem.attrs_model();
        proof {
            lemma_spec_set_get(m0, "points"@, rendered@);
            assert forall|k: Seq<char>| k != "points"@ implies spec_get(m1, k) is None by {
                assert(spec_get(m1, k) == spec_get(m0, k));
                assert(spec_get(m0, k) is None);
            }
        }
        elem
    }

    /// A polyline: `polyline` whose `points` attribute is the rendered
    /// points-list of the argument.
    pub fn polyline<T: Processable>(points: T) -> (res: SVGElement)
        ensures
            res.wf(),
            res.tag_model() == "polyline"@,
            res.inner_model() is None,
            spec_get(res.attrs_model(), "points"@) == Some(points.processed()),
            forall|k: Seq<char>|
                k != "points"@ ==> spec_get(res.attrs_model(), k) is None,
    {
        let rendered = points.process();
        let mut elem = SVGElement::new("polyline");
        let ghost m0 = elem.attrs_model();
        elem.add_attr("points", rendered.as_str());
        let ghost m1 = elem.attrs_model();
        proof {
            lemma_spec_set_get(m0, "points"@, rendered@);
            assert forall|k: Seq<char>| k != "points"@ implies spec_get(m1, k) is None by {
                assert(spec_get(m1, k) == spec_get(m0, k));
                assert(spec_get(m0, k) is None);
            }
        }
        elem
    }

    /// A path: `path` whose `d` attribute joins the rendered commands with
    /// single spaces, each item coerced through `ToPathNode` with an empty
    /// override letter.
    pub fn path<T: ToPathNode>(d: Vec<T>) -> (res: SVGElement)
        ensures
            res.wf(),
            res.tag_model() == "path"@,
            res.inner_model() is None,
            spec_get(res.attrs_model(), "d"@) == Some(path_data_text(d@)),
            forall|k: Seq<char>| k != "d"@ ==> spec_get(res.attrs_model(), k) is None,
    {
        let ghost tokens = d@.map_values(
            |x: T| node_text(x.path_node_model(""@).0, x.path_node_model(""@).1),
        );
        let mut data = String::new();
        let mut i: usize = 0;
        proof {
            assert(tokens.take(0) =~= Seq::<Seq<char>>::empty());
        }
        while i < d.len()
            invariant
                i <= d@.len(),
                tokens == d@.map_values(
                    |x: T| node_text(x.path_node_model(""@).0, x.path_node_model(""@).1),
                ),
                tokens.len() == d@.len(),
                data@ == join_with(tokens.take(i as int), " "@),
            decreases d@.len() - i,
        {
            if i != 0 {
                data.append(" ");
            }
            let node = d[i].to_path_node("");
            let rendered = node.render();
            data.append(rendered.as_str());
            proof {
                assert(tokens[i as int] == node_text(
                    d@[i as int].path_node_model(""@).0,
                    d@[i as int].path_node_model(""@).1,
                ));
                assert(tokens.take(i + 1).drop_last() =~= tokens.take(i as int));
                assert(tokens.take(i + 1).last() == tokens[i as int]);
                if i == 0 {
                    assert(data@ =~= join_with(tokens.take(1), " "@));
                } else {
                    assert(data@ =~= join_with(tokens.take(i + 1), " "@));
                }
            }
            i = i + 1;
        }
        proof {
            assert(tokens.take(d@.len() as int) =~= tokens);
        }
        let mut elem = SVGElement::new("path");
        let ghost m0 = elem.attrs_model();
        elem.add_attr("d", data.as_str());
        let ghost m1 = elem.attrs_model();
        proof {
            lemma_spec_set_get(m0, "d"@, data@);
            assert forall|k: Seq<char>| k != "d"@ implies spec_get(m1, k) is None by {
                assert(spec_get(m1, k) == spec_get(m0, k));
                assert(spec_get(m0, k) is None);
            }
        }
        elem
    }

    /// A text node: the one content-bearing constructor. The content becomes
    /// inner text; absent `dx`, `dy` and `rotate` default to `0`,
    /// `textLength` to `none` and `lengthAdjust` to `spacing`.
    pub fn text(text: &str, x: &str, y: &str, dx: Option<&str>, dy: Option<&str>, rotate: Option<&str>, text_length: Option<&str>, length_adjust: Option<&str>) -> (res: SVGElement)
        ensures
            res.wf(),
            res.tag_model() == "text"@,
            res.inner_model() == Some(text@),
            spec_get(res.attrs_model(), "x"@) == Some(x@),
            spec_get(res.attrs_model(), "y"@) == Some(y@),
            spec_get(res.attrs_model(), "dx"@) == Some(
                match dx {
                    Option::Some(v) => v@,
                    Option::None => "0"@,
                },
            ),
            spec_get(res.attrs_model(), "dy"@) == Some(
                match dy {
                    Option::Some(v) => v@,
                    Option::None => "0"@,
                },
            ),
            spec_get(res.attrs_model(), "rotate"@) == Some(
                match rotate {
                    Option::Some(v) => v@,
                    Option::None => "0"@,
                },
            ),
            spec_get(res.attrs_model(), "textLength"@) == Some(
                match text_length {
                    Option::Some(v) => v@,
                    Option::None => "none"@,
                },
            ),
            spec_get(res.attrs_model(), "lengthAdjust"@) == Some(
                match length_adjust {
                    Option::Some(v) => v@,
                    Option::None => "spacing"@,
                },
            ),
            forall|k: Seq<char>|
                !(k == "x"@ || k == "y"@ || k == "dx"@ || k == "dy"@ || k == "rotate"@ || k
                    == "textLength"@ || k == "lengthAdjust"@) ==> spec_get(res.attrs_model(), k)
                    is None,
    {
        let dx_value: &str = match dx {
            Option::Some(v) => v,
            Option::None => "0",
        };
        let dy_value: &str = match dy {
            Option::Some(v) => v,
            Option::None => "0",
        };
        let rotate_value: &str = match rotate {
            Option::Some(v) => v,
            Option::None => "0",
        };
        let text_length_value: &str = match text_length {
            Option::Some(v) => v,
            Option::None => "none",
        };
        let length_adjust_value: &str = match length_adjust {
            Option::Some(v) => v,
            Option::None => "spacing",
        };
        let mut elem = SVGElement {
            tag: "text".to_owned(),
            attributes: AttrMap::new(),
            inner: Some(text.to_owned()),
        };
        let ghost m0 = elem.attrs_model();
        elem.add_attr("x", x);
        let ghost m1 = elem.attrs_model();
        elem.add_attr("y", y);
        let ghost m2 = elem.attrs_model();
        elem.add_attr("dx", dx_value);
        let ghost m3 = elem.attrs_model();
        elem.add_attr("dy", dy_value);
        let ghost m4 = elem.attrs_model();
        elem.add_attr("rotate", rotate_value);
        let ghost m5 = elem.attrs_model();
        elem.add_attr("textLength", text_length_value);
        let ghost m6 = elem.attrs_model();
        elem.add_attr("lengthAdjust", length_adjust_value);
        let ghost m7 = elem.attrs_model();
        proof {
            reveal_strlit("x");
            reveal_strlit("y");
            reveal_strlit("dx");
            reveal_strlit("dy");
            reveal_strlit("rotate");
            reveal_strlit("textLength");
            reveal_strlit("lengthAdjust");
            assert("x"@.len() == 1);
            assert("y"@.len() == 1);
            assert("dx"@.len() == 2);
            assert("dy"@.len() == 2);
            assert("rotate"@.len() == 6);
            assert("textLength"@.len() == 10);
            assert("lengthAdjust"@.len() == 12);
            assert("x"@[0] == 'x');
            assert("y"@[0] == 'y');
            assert("dx"@[1] == 'x');
            assert("dy"@[1] == 'y');
            lemma_spec_set_get(m0, "x"@, x@);
            lemma_spec_set_get(m1, "y"@, y@);
            lemma_spec_set_get(m2, "dx"@, dx_value@);
            lemma_spec_set_get(m3, "dy"@, dy_value@);
            lemma_spec_set_get(m4, "rotate"@, rotate_value@);
            lemma_spec_set_get(m5, "textLength"@, text_length_value@);
            lemma_spec_set_get(m6, "lengthAdjust"@, length_adjust_value@);
            assert forall|k: Seq<char>|
                !(k == "x"@ || k == "y"@ || k == "dx"@ || k == "dy"@ || k == "rotate"@ || k
                    == "textLength"@ || k == "lengthAdjust"@) implies spec_get(m7, k) is None by {
                assert(spec_get(m7, k) == spec_get(m6, k));
                assert(spec_get(m6, k) == spec_get(m5, k));
                assert(spec_get(m5, k) == spec_get(m4, k));
                assert(spec_get(m4, k) == spec_get(m3, k));
                assert(spec_get(m3, k) == spec_get(m2, k));
                assert(spec_get(m2, k) == spec_get(m1, k));
                assert(spec_get(m1, k) == spec_get(m0, k));
                assert(spec_get(m0, k) is None);
            }
        }
        elem
    }
}

} // verus!
