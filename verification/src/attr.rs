//! The attribute map: a mapping from attribute name to attribute value whose
//! serialization lists entries in ascending lexicographic key order, whatever
//! the insertion order was.
//!
//! The map is kept as a vector of entries sorted strictly by key, so the
//! serialized form is canonical by construction: two maps holding the same
//! key/value associations have identical entry sequences and therefore
//! identical serializations.

use vstd::prelude::*;
use vstd::string::StringExecFns;
use vstd::pervasive::VecAdditionalExecFns;
use crate::text::KeyOrder;
use crate::text::attr_token;
use crate::text::attrs_text;
use crate::text::join_with;
use crate::text::lemma_lex_lt_asym;
use crate::text::lemma_lex_lt_connex;
use crate::text::lemma_lex_lt_trans;
use crate::text::lex_lt;
use crate::text::str_compare;

verus! {

/// The one error the library reports: an attribute lookup on a key that was
/// never set, carrying that key.
#[derive(Debug)]
pub enum HaiSVGError {
    KeyNotFound(String),
}

impl HaiSVGError {
    /// The error's readable description: `Key 'k' not found in map`.
    pub fn message(&self) -> (r: String)
        ensures
            match self {
                HaiSVGError::KeyNotFound(k) => r@ == "Key '"@ + k@ + "' not found in map"@,
            },
    {
        match self {
            HaiSVGError::KeyNotFound(k) => {
                let mut out = "Key '".to_owned();
                out.append(k.as_str());
                out.append("' not found in map");
                out
            },
        }
    }
}

/// Entries sorted strictly ascending by key; in particular, keys are unique.
pub open spec fn entries_wf(s: Seq<(Seq<char>, Seq<char>)>) -> bool {
    forall|i: int, j: int| 0 <= i < j < s.len() ==> lex_lt(s[i].0, s[j].0)
}

/// The value at `k` in the entry sequence `s`, or `None` when `k` is absent.
pub open spec fn spec_get(s: Seq<(Seq<char>, Seq<char>)>, k: Seq<char>) -> Option<Seq<char>>
    decreases s.len(),
{
    if s.len() == 0 {
        None
    } else if s[0].0 == k {
        Some(s[0].1)
    } else {
        spec_get(s.skip(1), k)
    }
}

/// The sorted entry sequence `s` with the association `k -> v` stored:
/// an existing entry for `k` is overwritten, otherwise `(k, v)` is placed
/// at its sorted position.
pub open spec fn spec_set(
    s: Seq<(Seq<char>, Seq<char>)>,
    k: Seq<char>,
    v: Seq<char>,
) -> Seq<(Seq<char>, Seq<char>)>
    decreases s.len(),
{
    if s.len() == 0 {
        seq![(k, v)]
    } else if lex_lt(k, s[0].0) {
        seq![(k, v)] + s
    } else if k == s[0].0 {
        s.update(0, (k, v))
    } else {
        seq![s[0]] + spec_set(s.skip(1), k, v)
    }
}

/// Sortedness is inherited by the tail of an entry sequence.
proof fn lemma_entries_wf_skip(s: Seq<(Seq<char>, Seq<char>)>)
    requires
        entries_wf(s),
        s.len() > 0,
    ensures
        entries_wf(s.skip(1)),
{
    assert forall|i: int, j: int| 0 <= i < j < s.skip(1).len() implies lex_lt(
        s.skip(1)[i].0,
        s.skip(1)[j].0,
    ) by {
        assert(s.skip(1)[i] == s[i + 1]);
        assert(s.skip(1)[j] == s[j + 1]);
    }
}

/// Every key of `spec_set(s, k, v)` is `k` or a key of `s`.
proof fn lemma_spec_set_keys(s: Seq<(Seq<char>, Seq<char>)>, k: Seq<char>, v: Seq<char>)
    ensures
        spec_set(s, k, v).len() <= s.len() + 1,
        forall|j: int|
            0 <= j < spec_set(s, k, v).len() ==> (#[trigger] spec_set(s, k, v)[j].0 == k
                || exists|i: int| 0 <= i < s.len() && s[i].0 == spec_set(s, k, v)[j].0),
    decreases s.len(),
{
    if s.len() == 0 {
    } else if lex_lt(k, s[0].0) {
        assert forall|j: int| 1 <= j < spec_set(s, k, v).len() implies exists|i: int|
            0 <= i < s.len() && s[i].0 == #[trigger] spec_set(s, k, v)[j].0 by {
            assert(s[j - 1].0 == spec_set(s, k, v)[j].0);
        }
    } else if k == s[0].0 {
    } else {
        lemma_spec_set_keys(s.skip(1), k, v);
        let r = spec_set(s, k, v);
        assert forall|j: int| 0 <= j < r.len() implies (r[j].0 == k || exists|i: int|
            0 <= i < s.len() && s[i].0 == r[j].0) by {
            if j == 0 {
                assert(s[0].0 == r[0].0);
            } else {
                let inner = spec_set(s.skip(1), k, v);
                assert(r[j] == inner[j - 1]);
                if inner[j - 1].0 != k {
                    let i0 = choose|i: int| 0 <= i < s.skip(1).len() && s.skip(1)[i].0 == inner[j
                        - 1].0;
                    assert(s[i0 + 1].0 == r[j].0);
                }
            }
        }
    }
}

/// Storing into a sorted entry sequence keeps it sorted.
proof fn lemma_spec_set_wf(s: Seq<(Seq<char>, Seq<char>)>, k: Seq<char>, v: Seq<char>)
    requires
        entries_wf(s),
    ensures
        entries_wf(spec_set(s, k, v)),
    decreases s.len(),
{
    let r = spec_set(s, k, v);
    if s.len() == 0 {
    } else if lex_lt(k, s[0].0) {
        assert forall|i: int, j: int| 0 <= i < j < r.len() implies lex_lt(r[i].0, r[j].0) by {
            if i == 0 {
                if j > 1 {
                    lemma_lex_lt_trans(k, s[0].0, s[j - 1].0);
                }
            } else {
                assert(r[i] == s[i - 1] && r[j] == s[j - 1]);
            }
        }
    } else if k == s[0].0 {
        assert forall|i: int, j: int| 0 <= i < j < r.len() implies lex_lt(r[i].0, r[j].0) by {
            assert(r[i].0 == s[i].0 && r[j].0 == s[j].0);
        }
    } else {
        if !lex_lt(s[0].0, k) {
            lemma_lex_lt_connex(k, s[0].0);
        }
        assert(lex_lt(s[0].0, k));
        lemma_entries_wf_skip(s);
        lemma_spec_set_wf(s.skip(1), k, v);
        lemma_spec_set_keys(s.skip(1), k, v);
        let inner = spec_set(s.skip(1), k, v);
        assert forall|i: int, j: int| 0 <= i < j < r.len() implies lex_lt(r[i].0, r[j].0) by {
            if i == 0 {
                assert(r[j] == inner[j - 1]);
                if inner[j - 1].0 == k {
                } else {
                    let i0 = choose|i2: int|
                        0 <= i2 < s.skip(1).len() && s.skip(1)[i2].0 == inner[j - 1].0;
                    assert(s.skip(1)[i0] == s[i0 + 1]);
                    assert(lex_lt(s[0].0, s[i0 + 1].0));
                }
            } else {
                assert(r[i] == inner[i - 1] && r[j] == inner[j - 1]);
            }
        }
    }
}

/// After storing `k -> v`, looking up `k` yields `v` and every other key is
/// unchanged: the get-after-set law.
pub proof fn lemma_spec_set_get(s: Seq<(Seq<char>, Seq<char>)>, k: Seq<char>, v: Seq<char>)
    requires
        entries_wf(s),
    ensures
        spec_get(spec_set(s, k, v), k) == Some(v),
        forall|k2: Seq<char>| k2 != k ==> spec_get(spec_set(s, k, v), k2) == spec_get(s, k2),
    decreases s.len(),
{
    let r = spec_set(s, k, v);
    if s.len() == 0 {
        assert(r.skip(1) =~= Seq::<(Seq<char>, Seq<char>)>::empty());
        assert forall|k2: Seq<char>| k2 != k implies spec_get(r, k2) == spec_get(s, k2) by {
            assert(spec_get(r.skip(1), k2) is None);
        }
    } else if lex_lt(k, s[0].0) {
        lemma_lex_lt_asym(k, s[0].0);
        assert(r.skip(1) =~= s);
        assert(spec_get(r, k) == Some(v));
    } else if k == s[0].0 {
        assert(r[0] == (k, v));
        assert(spec_get(r, k) == Some(v));
        assert(r.skip(1) =~= s.skip(1));
        assert forall|k2: Seq<char>| k2 != k implies spec_get(r, k2) == spec_get(s, k2) by {
            assert(spec_get(r, k2) == spec_get(r.skip(1), k2));
            assert(spec_get(s, k2) == spec_get(s.skip(1), k2));
        }
    } else {
        lemma_entries_wf_skip(s);
        lemma_spec_set_get(s.skip(1), k, v);
        let inner = spec_set(s.skip(1), k, v);
        assert(r.skip(1) =~= inner);
        assert(r[0] == s[0]);
        assert(spec_get(r, k) == spec_get(inner, k));
        assert forall|k2: Seq<char>| k2 != k implies spec_get(r, k2) == spec_get(s, k2) by {
            if k2 != s[0].0 {
                assert(spec_get(r, k2) == spec_get(inner, k2));
                assert(spec_get(s, k2) == spec_get(s.skip(1), k2));
            }
        }
    }
}

/// A key below the least key of a sorted entry sequence is absent.
proof fn lemma_spec_get_below_min(s: Seq<(Seq<char>, Seq<char>)>, k: Seq<char>)
    requires
        entries_wf(s),
        s.len() > 0,
        lex_lt(k, s[0].0),
    ensures
        spec_get(s, k) is None,
    decreases s.len(),
{
    lemma_lex_lt_asym(k, s[0].0);
    if s.len() > 1 {
        lemma_entries_wf_skip(s);
        lemma_lex_lt_trans(k, s[0].0, s[1].0);
        assert(s.skip(1)[0] == s[1]);
        lemma_spec_get_below_min(s.skip(1), k);
    } else {
        assert(s.skip(1) =~= Seq::<(Seq<char>, Seq<char>)>::empty());
    }
}

/// Two sorted entry sequences holding the same associations are identical,
/// so a map's serialization does not depend on the order in which its
/// entries were inserted.
pub proof fn lemma_entries_canonical(
    s1: Seq<(Seq<char>, Seq<char>)>,
    s2: Seq<(Seq<char>, Seq<char>)>,
)
    requires
        entries_wf(s1),
        entries_wf(s2),
        forall|k: Seq<char>| spec_get(s1, k) == spec_get(s2, k),
    ensures
        s1 == s2,
    decreases s1.len(),
{
    if s1.len() == 0 {
        if s2.len() > 0 {
            assert(spec_get(s2, s2[0].0) == Some(s2[0].1));
            assert(spec_get(s1, s2[0].0) is None);
        }
        assert(s1 =~= s2);
    } else if s2.len() == 0 {
        assert(spec_get(s1, s1[0].0) == Some(s1[0].1));
        assert(spec_get(s2, s1[0].0) is None);
    } else {
        let k1 = s1[0].0;
        let k2 = s2[0].0;
        if lex_lt(k1, k2) {
            lemma_spec_get_below_min(s2, k1);
            assert(spec_get(s1, k1) == Some(s1[0].1));
        } else if lex_lt(k2, k1) {
            lemma_spec_get_below_min(s1, k2);
            assert(spec_get(s2, k2) == Some(s2[0].1));
        } else {
            lemma_lex_lt_connex(k1, k2);
            assert(spec_get(s1, k1) == Some(s1[0].1));
            assert(spec_get(s2, k1) == Some(s2[0].1));
            assert(s1[0].1 == s2[0].1);
            lemma_entries_wf_skip(s1);
            lemma_entries_wf_skip(s2);
            assert forall|k: Seq<char>| spec_get(s1.skip(1), k) == spec_get(
                s2.skip(1),
                k,
            ) by {
                if k == k1 {
                    if s1.len() > 1 {
                        assert(s1.skip(1)[0] == s1[1]);
                        lemma_spec_get_below_min(s1.skip(1), k);
                    } else {
                        assert(s1.skip(1) =~= Seq::<(Seq<char>, Seq<char>)>::empty());
                    }
                    if s2.len() > 1 {
                        assert(s2.skip(1)[0] == s2[1]);
                        lemma_spec_get_below_min(s2.skip(1), k);
                    } else {
                        assert(s2.skip(1) =~= Seq::<(Seq<char>, Seq<char>)>::empty());
                    }
                } else {
                    assert(spec_get(s1, k) == spec_get(s1.skip(1), k));
                    assert(spec_get(s2, k) == spec_get(s2.skip(1), k));
                }
            }
            lemma_entries_canonical(s1.skip(1), s2.skip(1));
            assert(s1[0] == s2[0]);
            assert forall|i: int| 0 <= i < s1.len() implies s1[i] == s2[i] by {
                if i >= 1 {
                    assert(s1.skip(1)[i - 1] == s1[i]);
                    assert(s2.skip(1)[i - 1] == s2[i]);
                }
            }
            assert(s1 =~= s2);
        }
    }
}

/// Serialization order is lexicographic by key and independent of insertion
/// order: two well-formed maps holding the same key/value associations have
/// the same entry sequence — ascending by key, by well-formedness — and
/// therefore serialize to the same text, however their entries were
/// inserted.
pub proof fn lemma_serialization_insertion_order_independent(a: &AttrMap, b: &AttrMap)
    requires
        a.wf(),
        b.wf(),
        forall|k: Seq<char>| spec_get(a@, k) == spec_get(b@, k),
    ensures
        a@ == b@,
        attrs_text(a@) == attrs_text(b@),
{
    lemma_entries_canonical(a@, b@);
}

/// An ordered-output mapping from attribute name to attribute value.
pub struct AttrMap {
    entries: Vec<(String, String)>,
}

impl View for AttrMap {
    type V = Seq<(Seq<char>, Seq<char>)>;

    closed spec fn view(&self) -> Seq<(Seq<char>, Seq<char>)> {
        Seq::new(self.entries@.len(), |i: int| (self.entries@[i].0@, self.entries@[i].1@))
    }
}

impl AttrMap {
    /// The map's internal entry vector is sorted strictly ascending by key.
    pub open spec fn wf(&self) -> bool {
        entries_wf(self@)
    }

    /// Creates an empty map.
    pub fn new() -> (r: AttrMap)
        ensures
            r@ == Seq::<(Seq<char>, Seq<char>)>::empty(),
            r.wf(),
    {
        let r = AttrMap { entries: Vec::new() };
        proof {
            assert(r@ =~= Seq::<(Seq<char>, Seq<char>)>::empty());
        }
        r
    }

    /// The number of entries.
    pub fn len(&self) -> (r: usize)
        ensures
            r == self@.len(),
    {
        self.entries.len()
    }

    /// Stores `key -> value`, overwriting any earlier value for `key`.
    #[verifier::loop_isolation(false)]
    pub fn set(&mut self, key: &str, value: &str)
        requires
            old(self).wf(),
        ensures
            final(self).wf(),
            final(self)@ == spec_set(old(self)@, key@, value@),
    {
        let ghost s = self@;
        let ghost ev = self.entries@;
        let ghost kv = (key@, value@);
        proof {
            lemma_spec_set_wf(s, key@, value@);
            assert(s.skip(0) =~= s);
            assert(s.take(0) + spec_set(s, key@, value@) =~= spec_set(s, key@, value@));
        }
        let mut i: usize = 0;
        while i < self.entries.len()
            invariant
                self@ == s,
                self.entries@ == ev,
                entries_wf(s),
                i <= s.len(),
                self.entries@.len() == s.len(),
                forall|j: int| 0 <= j < i ==> lex_lt(s[j].0, key@),
                spec_set(s, key@, value@) =~= s.take(i as int) + spec_set(
                    s.skip(i as int),
                    key@,
                    value@,
                ),
            decreases s.len() - i,
        {
            let order = str_compare(self.entries[i].0.as_str(), key);
            proof {
                assert(s.skip(i as int)[0] == s[i as int]);
                assert(s[i as int] == (self.entries@[i as int].0@, self.entries@[i as int].1@));
            }
            match order {
                KeyOrder::Greater => {
                    // The existing key is above the new one: insert here.
                    let pair = (key.to_owned(), value.to_owned());
                    let ghost gp = pair;
                    self.entries.insert(i, pair);
                    proof {
                        ev.insert_ensures(i as int, gp);
                        let target = s.take(i as int) + seq![kv] + s.skip(i as int);
                        assert(spec_set(s.skip(i as int), key@, value@) == seq![kv] + s.skip(
                            i as int,
                        ));
                        assert forall|j: int| 0 <= j < self@.len() implies self@[j] == target[j] by {
                            if j < i {
                                assert(self.entries@[j] == ev[j]);
                            } else if j == i {
                                assert(self.entries@[j] == gp);
                            } else {
                                assert(self.entries@[j] == ev[j - 1]);
                            }
                        }
                        assert(self@ =~= target);
                        assert(self@ =~= spec_set(s, key@, value@));
                    }
                    return ;
                },
                KeyOrder::Equal => {
                    let pair = (key.to_owned(), value.to_owned());
                    let ghost gp = pair;
                    self.entries.set(i, pair);
                    proof {
                        let target = s.update(i as int, kv);
                        assert(self.entries@ == ev.update(i as int, gp));
                        assert forall|j: int| 0 <= j < self@.len() implies self@[j] == target[j] by {
                            if j == i {
                                assert(ev.update(i as int, gp)[j] == gp);
                            } else {
                                assert(ev.update(i as int, gp)[j] == ev[j]);
                            }
                        }
                        assert(self@ =~= target);
                        assert(spec_set(s.skip(i as int), key@, value@) == s.skip(
                            i as int,
                        ).update(0, kv));
                        let glued = s.take(i as int) + s.skip(i as int).update(0, kv);
                        assert forall|j: int| 0 <= j < target.len() implies glued[j] == target[j] by {
                            if j >= i {
                                assert(glued[j] == s.skip(i as int).update(0, kv)[j - i]);
                                if j > i {
                                    assert(s.skip(i as int).update(0, kv)[j - i] == s.skip(
                                        i as int,
                                    )[j - i]);
                                }
                            }
                        }
                        assert(glued =~= target);
                        assert(self@ =~= spec_set(s, key@, value@));
                    }
                    return ;
                },
                KeyOrder::Less => {
                    proof {
                        lemma_lex_lt_asym(s[i as int].0, key@);
                        assert(spec_set(s.skip(i as int), key@, value@) == seq![s[i as int]]
                            + spec_set(s.skip(i as int).skip(1), key@, value@));
                        assert(s.skip(i as int).skip(1) =~= s.skip(i + 1));
                        assert(s.take(i as int) + seq![s[i as int]] =~= s.take(i + 1));
                        assert(s.take(i + 1) + spec_set(s.skip(i + 1), key@, value@) =~= s.take(
                            i as int,
                        ) + spec_set(s.skip(i as int), key@, value@));
                    }
                    i = i + 1;
                },
            }
        }
        let pair = (key.to_owned(), value.to_owned());
        let ghost gp = pair;
        self.entries.push(pair);
        proof {
            assert(s.skip(s.len() as int) =~= Seq::<(Seq<char>, Seq<char>)>::empty());
            assert(spec_set(s.skip(s.len() as int), key@, value@) == seq![kv]);
            let target = s.take(s.len() as int) + seq![kv];
            assert forall|j: int| 0 <= j < self@.len() implies self@[j] == target[j] by {
                if j < s.len() {
                    assert(self.entries@[j] == ev[j]);
                } else {
                    assert(self.entries@[j] == gp);
                }
            }
            assert(self@ =~= target);
            assert(self@ =~= spec_set(s, key@, value@));
        }
    }

    /// Looks `key` up, failing with `KeyNotFound` when it was never set.
    pub fn get<'a>(&'a self, key: &str) -> (r: Result<&'a String, HaiSVGError>)
        ensures
            match r {
                Ok(v) => spec_get(self@, key@) == Some(v@),
                Err(HaiSVGError::KeyNotFound(k)) => spec_get(self@, key@) is None && k@ == key@,
            },
    {
        let ghost s = self@;
        proof {
            assert(s.skip(0) =~= s);
        }
        let mut i: usize = 0;
        while i < self.entries.len()
            invariant
                i <= s.len(),
                self@ == s,
                self.entries@.len() == s.len(),
                spec_get(s, key@) == spec_get(s.skip(i as int), key@),
            decreases s.len() - i,
        {
            proof {
                assert(s.skip(i as int)[0] == s[i as int]);
            }
            let entry = &self.entries[i];
            match str_compare(entry.0.as_str(), key) {
                KeyOrder::Equal => {
                    return Ok(&entry.1);
                },
                _ => {
                    proof {
                        assert(s.skip(i as int).skip(1) =~= s.skip(i + 1));
                    }
                    i = i + 1;
                },
            }
        }
        proof {
            assert(s.skip(s.len() as int) =~= Seq::<(Seq<char>, Seq<char>)>::empty());
        }
        Err(HaiSVGError::KeyNotFound(key.to_owned()))
    }

    /// Renders the entries as `key="value"` tokens joined by single spaces,
    /// in the order they are held, which is ascending key order for a
    /// well-formed map. An empty map renders to the empty string.
    pub fn serialize(&self) -> (r: String)
        ensures
            r@ == attrs_text(self@),
    {
        let ghost s = self@;
        let ghost tokens = s.map_values(|p: (Seq<char>, Seq<char>)| attr_token(p.0, p.1));
        let mut out = String::new();
        let mut i: usize = 0;
        proof {
            assert(tokens.take(0) =~= Seq::<Seq<char>>::empty());
        }
        while i < self.entries.len()
            invariant
                i <= s.len(),
                self@ == s,
                self.entries@.len() == s.len(),
                tokens == s.map_values(|p: (Seq<char>, Seq<char>)| attr_token(p.0, p.1)),
                out@ == join_with(tokens.take(i as int), " "@),
            decreases s.len() - i,
        {
            if i != 0 {
                out.append(" ");
            }
            let entry = &self.entries[i];
            out.append(entry.0.as_str());
            out.append("=\"");
            out.append(entry.1.as_str());
            out.append("\"");
            proof {
                assert(tokens[i as int] == attr_token(s[i as int].0, s[i as int].1));
                assert(tokens.take(i + 1).drop_last() =~= tokens.take(i as int));
                assert(tokens.take(i + 1).last() == tokens[i as int]);
                if i == 0 {
                    assert(out@ =~= join_with(tokens.take(1), " "@));
                } else {
                    assert(out@ =~= join_with(tokens.take(i + 1), " "@));
                }
            }
            i = i + 1;
        }
        proof {
            assert(tokens.take(s.len() as int) =~= tokens);
        }
        out
    }
}

} // verus!

