//! The document model: document-level attributes plus an ordered sequence
//! of elements, serializing to the full wrapped document text.
//!
//! Attribute output order is ascending by key; element output order is
//! insertion order.

use vstd::prelude::*;
use vstd::string::StringExecFns;
use crate::attr::AttrMap;
use crate::attr::entries_wf;
use crate::attr::lemma_spec_set_get;
use crate::attr::spec_get;
use crate::attr::spec_set;
use crate::element::SVGElement;
use crate::text::attrs_text;
use crate::text::join_with;

verus! {

/// The serialized document: `<svg attrs>` on the first line, one line per
/// element in insertion order, `</svg>` on the last. A document without
/// elements keeps an empty line between the two markers.
pub open spec fn svg_text(attrs: Seq<(Seq<char>, Seq<char>)>, elems: Seq<Seq<char>>) -> Seq<char> {
    "<svg "@ + attrs_text(attrs) + ">\n"@ + join_with(elems, "\n"@) + "\n</svg>"@
}

/// The root container: document attributes and the elements it owns.
pub struct SVG {
    attributes: AttrMap,
    elements: Vec<SVGElement>,
}

impl SVG {
    /// The document's attribute entries, sorted by key for a well-formed
    /// document.
    pub closed spec fn attrs_model(&self) -> Seq<(Seq<char>, Seq<char>)> {
        self.attributes@
    }

    /// The owned elements, in insertion order.
    pub closed spec fn elements_model(&self) -> Seq<SVGElement> {
        self.elements@
    }

    /// The serialized forms of the owned elements, in insertion order.
    pub open spec fn element_texts(&self) -> Seq<Seq<char>> {
        self.elements_model().map_values(|e: SVGElement| e.text_model())
    }

    /// The document's attribute entries are sorted strictly by key.
    pub open spec fn wf(&self) -> bool {
        entries_wf(self.attrs_model())
    }

    /// The document's serialized form.
    pub open spec fn text_model(&self) -> Seq<char> {
        svg_text(self.attrs_model(), self.element_texts())
    }

    /// Creates a document with the given width and height and no elements;
    /// an absent namespace defaults to the SVG namespace URI.
    pub fn new(width: &str, height: &str, namespace: Option<&str>) -> (r: SVG)
        ensures
            r.wf(),
            r.elements_model() == Seq::<SVGElement>::empty(),
            spec_get(r.attrs_model(), "width"@) == Some(width@),
            spec_get(r.attrs_model(), "height"@) == Some(height@),
            spec_get(r.attrs_model(), "xmlns"@) == Some(
                match namespace {
                    Option::Some(ns) => ns@,
                    Option::None => "http://www.w3.org/2000/svg"@,
                },
            ),
            forall|k: Seq<char>|
                !(k == "width"@ || k == "height"@ || k == "xmlns"@) ==> spec_get(
                    r.attrs_model(),
                    k,
                ) is None,
    {
        let namespace_value: &str = match namespace {
            Option::Some(ns) => ns,
            Option::None => "http://www.w3.org/2000/svg",
        };
        let mut doc = SVG { attributes: AttrMap::new(), elements: Vec::new() };
        let ghost m0 = doc.attrs_model();
        doc.add_attr("width", width);
        let ghost m1 = doc.attrs_model();
        doc.add_attr("height", height);
        let ghost m2 = doc.attrs_model();
        doc.add_attr("xmlns", namespace_value);
        let ghost m3 = doc.attrs_model();
        proof {
            reveal_strlit("width");
            reveal_strlit("height");
            reveal_strlit("xmlns");
            assert("width"@.len() == 5);
            assert("height"@.len() == 6);
            assert("xmlns"@.len() == 5);
            assert("width"@[0] == 'w');
            assert("xmlns"@[0] == 'x');
            lemma_spec_set_get(m0, "width"@, width@);
            lemma_spec_set_get(m1, "height"@, height@);
            lemma_spec_set_get(m2, "xmlns"@, namespace_value@);
            assert forall|k: Seq<char>|
                !(k == "width"@ || k == "height"@ || k == "xmlns"@) implies spec_get(
                m3,
                k,
            ) is None by {
                assert(spec_get(m3, k) == spec_get(m2, k));
                assert(spec_get(m2, k) == spec_get(m1, k));
                assert(spec_get(m1, k) == spec_get(m0, k));
                assert(spec_get(m0, k) is None);
            }
            assert(doc.elements_model() =~= Seq::<SVGElement>::empty());
        }
        doc
    }

    /// Stores a document attribute, overwriting any earlier value for the
    /// same key.
    pub fn add_attr(&mut self, key: &str, value: &str)
        requires
            old(self).wf(),
        ensures
            final(self).wf(),
            final(self).attrs_model() == spec_set(old(self).attrs_model(), key@, value@),
            final(self).elements_model() == old(self).elements_model(),
    {
        self.attributes.set(key, value);
    }

    /// Appends an element; the document becomes its sole owner and keeps
    /// insertion order.
    pub fn add_element(&mut self, element: SVGElement)
        ensures
            final(self).attrs_model() == old(self).attrs_model(),
            final(self).elements_model() == old(self).elements_model().push(element),
    {
        self.elements.push(element);
    }

    /// Renders the document attributes as `key="value"` tokens joined by
    /// single spaces.
    pub fn format_keys(&self) -> (r: String)
        ensures
            r@ == attrs_text(self.attrs_model()),
    {
        self.attributes.serialize()
    }

    /// Renders the owned elements, one per line, in insertion order.
    pub fn format_elements(&self) -> (r: String)
        ensures
            r@ == join_with(self.element_texts(), "\n"@),
    {
        let ghost tokens = self.elements@.map_values(|e: SVGElement| e.text_model());
        let mut out = String::new();
        let mut i: usize = 0;
        proof {
            assert(tokens.take(0) =~= Seq::<Seq<char>>::empty());
        }
        while i < self.elements.len()
            invariant
                i <= self.elements@.len(),
                tokens == self.elements@.map_values(|e: SVGElement| e.text_model()),
                tokens.len() == self.elements@.len(),
                out@ == join_with(tokens.take(i as int), "\n"@),
            decreases self.elements@.len() - i,
        {
            if i != 0 {
                out.append("\n");
            }
            let rendered = self.elements[i].serialize();
            out.append(rendered.as_str());
            proof {
                assert(tokens[i as int] == self.elements@[i as int].text_model());
                assert(tokens.take(i + 1).drop_last() =~= tokens.take(i as int));
                assert(tokens.take(i + 1).last() == tokens[i as int]);
                if i == 0 {
                    assert(out@ =~= join_with(tokens.take(1), "\n"@));
                } else {
                    assert(out@ =~= join_with(tokens.take(i + 1), "\n"@));
                }
            }
            i = i + 1;
        }
        proof {
            assert(tokens.take(self.elements@.len() as int) =~= tokens);
        }
        out
    }

    /// Renders the whole document: the `<svg>` line, the elements one per
    /// line in insertion order, and the closing `</svg>` line.
    pub fn serialize(&self) -> (r: String)
        ensures
            r@ == self.text_model(),
    {
        let mut out = "<svg ".to_owned();
        let attrs = self.format_keys();
        out.append(attrs.as_str());
        out.append(">\n");
        let elems = self.format_elements();
        out.append(elems.as_str());
        out.append("\n</svg>");
        proof {
            assert(out@ =~= self.text_model());
        }
        out
    }
}

/// Serialization never mutates the document and its text is a function of
/// the document's state alone, so repeated serializations of an unchanged
/// document yield byte-identical text.
pub proof fn lemma_serialize_deterministic(doc: &SVG, r1: Seq<char>, r2: Seq<char>)
    requires
        r1 == doc.text_model(),
        r2 == doc.text_model(),
    ensures
        r1 == r2,
{
}

} // verus!
