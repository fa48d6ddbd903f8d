//! Points-list formatting: rendering a sequence of 2-D coordinate pairs as
//! the space-separated, comma-joined token format shared by polygon and
//! polyline elements.

use vstd::prelude::*;
use vstd::string::StringExecFns;
use crate::path::pair_text;
use crate::text::join_with;

verus! {

/// The views of a sequence of coordinate-pair strings.
pub open spec fn pairs_view(v: Seq<(String, String)>) -> Seq<(Seq<char>, Seq<char>)> {
    v.map_values(|p: (String, String)| (p.0@, p.1@))
}

/// The points-list text of coordinate pairs: `x1,y1 x2,y2 ...`. An empty
/// sequence renders to the empty string.
pub open spec fn points_text(pts: Seq<(Seq<char>, Seq<char>)>) -> Seq<char> {
    join_with(pts.map_values(|p: (Seq<char>, Seq<char>)| pair_text(p.0, p.1)), " "@)
}

/// The capability of rendering a value as points-list text: a pre-formatted
/// string passes through unchanged, a sequence of coordinate pairs is
/// rendered pair by pair.
pub trait Processable {
    /// The points-list text the value stands for.
    spec fn processed(&self) -> Seq<char>;

    /// Renders the value as its points-list text.
    fn process(&self) -> (r: String)
        ensures
            r@ == self.processed(),
    ;
}

impl Processable for String {
    /// A pre-formatted text blob stands for itself.
    open spec fn processed(&self) -> Seq<char> {
        self@
    }

    fn process(&self) -> (r: String) {
        self.clone()
    }
}

impl Processable for Vec<(String, String)> {
    /// A sequence of coordinate pairs stands for its joined `x,y` tokens.
    open spec fn processed(&self) -> Seq<char> {
        points_text(pairs_view(self@))
    }

    fn process(&self) -> (r: String) {
        let ghost tokens = pairs_view(self@).map_values(
            |p: (Seq<char>, Seq<char>)| pair_text(p.0, p.1),
        );
        let mut out = String::new();
        let mut i: usize = 0;
        proof {
            assert(tokens.take(0) =~= Seq::<Seq<char>>::empty());
        }
        while i < self.len()
            invariant
                i <= self@.len(),
                tokens == pairs_view(self@).map_values(
                    |p: (Seq<char>, Seq<char>)| pair_text(p.0, p.1),
                ),
                tokens.len() == self@.len(),
                out@ == join_with(tokens.take(i as int), " "@),
            decreases self@.len() - i,
        {
            if i != 0 {
                out.append(" ");
            }
            let pair = &self[i];
            out.append(pair.0.as_str());
            out.append(",");
            out.append(pair.1.as_str());
            proof {
                assert(tokens[i as int] == pair_text(self@[i as int].0@, self@[i as int].1@));
                assert(tokens.take(i + 1).drop_last() =~= tokens.take(i as int));
                assert(tokens.take(i + 1).last() == tokens[i as int]);
                if i == 0 {
                    assert(out@ =~= join_with(tokens.take(1), " "@));
                } else {
                    assert(out@ =~= join_with(tokens.take(i + 1), " "@));
                }
            }
            i = i + 1;
        }
        proof {
            assert(tokens.take(self@.len() as int) =~= tokens);
        }
        out
    }
}

} // verus!
