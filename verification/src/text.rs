//! Character-sequence orderings and joining, shared by the attribute map and
//! the serializers.

use vstd::prelude::*;
use vstd::string::StrSliceExecFns;

verus! {

/// Strict lexicographic order on character sequences, comparing code points
/// position by position; a proper prefix sorts before its extensions.
pub open spec fn lex_lt(a: Seq<char>, b: Seq<char>) -> bool
    decreases a.len(),
{
    if b.len() == 0 {
        false
    } else if a.len() == 0 {
        true
    } else if (a[0] as int) < (b[0] as int) {
        true
    } else if (a[0] as int) > (b[0] as int) {
        false
    } else {
        lex_lt(a.skip(1), b.skip(1))
    }
}

/// `lex_lt` is irreflexive.
pub(crate) proof fn lemma_lex_lt_irrefl(a: Seq<char>)
    ensures
        !lex_lt(a, a),
    decreases a.len(),
{
    if a.len() > 0 {
        lemma_lex_lt_irrefl(a.skip(1));
    }
}

/// `lex_lt` is asymmetric, so two sequences below one another are distinct.
pub(crate) proof fn lemma_lex_lt_asym(a: Seq<char>, b: Seq<char>)
    requires
        lex_lt(a, b),
    ensures
        !lex_lt(b, a),
        a != b,
    decreases a.len(),
{
    if a.len() > 0 && b.len() > 0 && a[0] == b[0] {
        lemma_lex_lt_asym(a.skip(1), b.skip(1));
        assert(a != b) by {
            if a == b {
                assert(a.skip(1) == b.skip(1));
            }
        }
    } else {
        if a == b {
            lemma_lex_lt_irrefl(a);
        }
    }
}

/// `lex_lt` is connex: sequences that are not ordered either way are equal.
pub(crate) proof fn lemma_lex_lt_connex(a: Seq<char>, b: Seq<char>)
    requires
        !lex_lt(a, b),
        !lex_lt(b, a),
    ensures
        a == b,
    decreases a.len(),
{
    if a.len() == 0 {
        assert(b.len() == 0);
        assert(a =~= b);
    } else {
        assert(b.len() > 0);
        assert(a[0] == b[0]);
        lemma_lex_lt_connex(a.skip(1), b.skip(1));
        assert forall|i: int| 0 <= i < a.len() implies a[i] == b[i] by {
            if i >= 1 {
                assert(a.skip(1)[i - 1] == a[i]);
                assert(b.skip(1)[i - 1] == b[i]);
            }
        }
        assert(a =~= b);
    }
}

/// `lex_lt` is transitive.
pub(crate) proof fn lemma_lex_lt_trans(a: Seq<char>, b: Seq<char>, c: Seq<char>)
    requires
        lex_lt(a, b),
        lex_lt(b, c),
    ensures
        lex_lt(a, c),
    decreases a.len(),
{
    if a.len() > 0 && b.len() > 0 && c.len() > 0 && a[0] == b[0] && b[0] == c[0] {
        lemma_lex_lt_trans(a.skip(1), b.skip(1), c.skip(1));
    }
}

/// Dropping an equal prefix changes neither the order nor the equality of two
/// sequences.
pub(crate) proof fn lemma_lex_lt_skip_prefix(a: Seq<char>, b: Seq<char>, i: int)
    requires
        0 <= i <= a.len(),
        i <= b.len(),
        a.take(i) == b.take(i),
    ensures
        lex_lt(a, b) == lex_lt(a.skip(i), b.skip(i)),
        (a == b) == (a.skip(i) == b.skip(i)),
    decreases i,
{
    if i == 0 {
        assert(a.skip(0) =~= a);
        assert(b.skip(0) =~= b);
    } else {
        assert(a[0] == b[0]) by {
            assert(a.take(i)[0] == a[0]);
            assert(b.take(i)[0] == b[0]);
        }
        assert(a.skip(1).take(i - 1) =~= b.skip(1).take(i - 1)) by {
            assert(forall|j: int|
                0 <= j < i - 1 ==> #[trigger] a.skip(1)[j] == a.take(i)[j + 1] && b.skip(1)[j]
                    == b.take(i)[j + 1]);
        }
        lemma_lex_lt_skip_prefix(a.skip(1), b.skip(1), i - 1);
        assert(a.skip(1).skip(i - 1) =~= a.skip(i));
        assert(b.skip(1).skip(i - 1) =~= b.skip(i));
        if a.skip(1) == b.skip(1) {
            assert forall|j: int| 0 <= j < a.len() implies a[j] == b[j] by {
                if j >= 1 {
                    assert(a.skip(1)[j - 1] == a[j]);
                    assert(b.skip(1)[j - 1] == b[j]);
                }
            }
            assert(a =~= b);
        }
        if a == b {
            assert(a.skip(1) =~= b.skip(1));
        }
    }
}

/// The three possible outcomes of comparing two keys.
#[derive(PartialEq, Eq, Structural)]
pub(crate) enum KeyOrder {
    Less,
    Equal,
    Greater,
}

/// Three-way comparison of two strings under `lex_lt` on their character
/// sequences.
pub(crate) fn str_compare(a: &str, b: &str) -> (r: KeyOrder)
    ensures
        (r == KeyOrder::Less) == lex_lt(a@, b@),
        (r == KeyOrder::Equal) == (a@ == b@),
        (r == KeyOrder::Greater) == lex_lt(b@, a@),
{
    let a_len = a.unicode_len();
    let b_len = b.unicode_len();
    let mut i: usize = 0;
    while i < a_len && i < b_len
        invariant
            i <= a_len,
            i <= b_len,
            a_len == a@.len(),
            b_len == b@.len(),
            a@.take(i as int) == b@.take(i as int),
        decreases a_len - i,
    {
        let ca = a.get_char(i);
        let cb = b.get_char(i);
        proof {
            lemma_lex_lt_skip_prefix(a@, b@, i as int);
            lemma_lex_lt_skip_prefix(b@, a@, i as int);
            assert(a@.skip(i as int)[0] == ca);
            assert(b@.skip(i as int)[0] == cb);
        }
        if (ca as u32) < (cb as u32) {
            proof {
                lemma_lex_lt_asym(a@, b@);
            }
            return KeyOrder::Less;
        } else if (ca as u32) > (cb as u32) {
            proof {
                lemma_lex_lt_asym(b@, a@);
            }
            return KeyOrder::Greater;
        }
        proof {
            assert(a@.take(i + 1) =~= b@.take(i + 1)) by {
                assert(forall|j: int|
                    0 <= j < i ==> a@.take(i + 1)[j] == #[trigger] a@.take(i as int)[j]
                        && b@.take(i + 1)[j] == b@.take(i as int)[j]);
                assert(a@.take(i + 1)[i as int] == ca);
                assert(b@.take(i + 1)[i as int] == cb);
            }
        }
        i = i + 1;
    }
    proof {
        lemma_lex_lt_skip_prefix(a@, b@, i as int);
        lemma_lex_lt_skip_prefix(b@, a@, i as int);
    }
    if a_len < b_len {
        assert(a@.skip(i as int).len() == 0);
        assert(b@.skip(i as int).len() > 0);
        proof {
            lemma_lex_lt_asym(a@, b@);
        }
        KeyOrder::Less
    } else if a_len > b_len {
        assert(b@.skip(i as int).len() == 0);
        assert(a@.skip(i as int).len() > 0);
        proof {
            lemma_lex_lt_asym(b@, a@);
        }
        KeyOrder::Greater
    } else {
        assert(a@.skip(i as int) =~= b@.skip(i as int));
        proof {
            lemma_lex_lt_irrefl(a@);
        }
        KeyOrder::Equal
    }
}

/// The concatenation of `parts` with `sep` between consecutive parts.
pub open spec fn join_with(parts: Seq<Seq<char>>, sep: Seq<char>) -> Seq<char>
    decreases parts.len(),
{
    if parts.len() == 0 {
        Seq::empty()
    } else if parts.len() == 1 {
        parts[0]
    } else {
        join_with(parts.drop_last(), sep) + sep + parts.last()
    }
}

/// One serialized attribute: `key="value"`.
pub open spec fn attr_token(k: Seq<char>, v: Seq<char>) -> Seq<char> {
    k + "=\""@ + v + "\""@
}

/// All attribute tokens of an entry sequence, joined by single spaces.
pub open spec fn attrs_text(s: Seq<(Seq<char>, Seq<char>)>) -> Seq<char> {
    join_with(s.map_values(|p: (Seq<char>, Seq<char>)| attr_token(p.0, p.1)), " "@)
}

} // verus!
