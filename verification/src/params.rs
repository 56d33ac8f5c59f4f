//! The mapping of extra query parameters handed to the URL builder.
//!
//! Insertion order is kept, and each key is held at most once: inserting an
//! existing key replaces its value in place, as a hash map would, while new
//! keys are appended.

use vstd::prelude::*;

verus! {

/// What an insert does to the pair sequence: the first pair carrying the
/// key gets the new value; a missing key is appended at the end.
pub open spec fn insert_pair(
    s: Seq<(Seq<char>, Seq<char>)>,
    k: Seq<char>,
    v: Seq<char>,
) -> Seq<(Seq<char>, Seq<char>)>
    decreases s.len(),
{
    if s.len() == 0 {
        seq![(k, v)]
    } else if s.first().0 == k {
        seq![(k, v)] + s.drop_first()
    } else {
        seq![s.first()] + insert_pair(s.drop_first(), k, v)
    }
}

/// Every key occurs at most once in the sequence.
pub open spec fn keys_distinct(s: Seq<(Seq<char>, Seq<char>)>) -> bool {
    forall|i: int, j: int| 0 <= i < j < s.len() ==> (#[trigger] s[i]).0 != (#[trigger] s[j]).0
}

/// An ordered collection of query parameter names and values.
pub struct ParameterMap {
    pairs: Vec<(String, String)>,
}

impl View for ParameterMap {
    type V = Seq<(Seq<char>, Seq<char>)>;

    closed spec fn view(&self) -> Seq<(Seq<char>, Seq<char>)> {
        self.pairs@.map_values(|p: (String, String)| (p.0@, p.1@))
    }
}

impl ParameterMap {
    /// The map's invariant: no key is held twice.
    pub open spec fn wf(&self) -> bool {
        keys_distinct(self@)
    }

    pub fn new() -> (m: Self)
        ensures
            m@ == Seq::<(Seq<char>, Seq<char>)>::empty(),
            m.wf(),
    {
        ParameterMap { pairs: Vec::new() }
    }

    pub fn len(&self) -> (n: usize)
        ensures
            n == self@.len(),
    {
        self.pairs.len()
    }

    pub fn key_at(&self, i: usize) -> (k: &String)
        requires
            i < self@.len(),
        ensures
            k@ == self@[i as int].0,
    {
        &self.pairs[i].0
    }

    pub fn value_at(&self, i: usize) -> (v: &String)
        requires
            i < self@.len(),
        ensures
            v@ == self@[i as int].1,
    {
        &self.pairs[i].1
    }

    /// Put a name/value pair into the map; an existing name keeps its
    /// place and gets the new value.
    pub fn insert(&mut self, name: String, value: String)
        requires
            old(self).wf(),
        ensures
            final(self)@ == insert_pair(old(self)@, name@, value@),
            final(self).wf(),
    {
        let ghost orig = self@;
        let ghost nm = name@;
        let ghost vl = value@;
        let mut i: usize = 0;
        while i < self.pairs.len()
            invariant
                old(self)@ == orig,
                self@ == orig,
                self.wf(),
                name@ == nm,
                value@ == vl,
                i <= self@.len(),
                forall|j: int| 0 <= j < i ==> (#[trigger] self@[j]).0 != name@,
            decreases self@.len() - i,
        {
            if self.pairs[i].0 == name {
                proof {
                    lemma_insert_pair_found(orig, name@, value@, i as int);
                }
                let ghost pold = self.pairs@;
                let pair = (name, value);
                let ghost gp = pair;
                proof {
                    assert(gp.0@ == nm && gp.1@ == vl);
                }
                self.pairs.set(i, pair);
                proof {
                    assert(self.pairs@ == pold.update(i as int, gp));
                    assert(self.pairs@[i as int].0@ == nm && self.pairs@[i as int].1@ == vl);
                    assert forall|j: int| 0 <= j < self@.len() implies self@[j]
                        == orig.update(i as int, (nm, vl))[j] by {
                        assert(self@[j] == (self.pairs@[j].0@, self.pairs@[j].1@));
                        if j != i {
                            assert(self.pairs@[j] == pold[j]);
                        }
                    }
                    assert(self@ =~= orig.update(i as int, (nm, vl)));
                    assert(self@ == insert_pair(orig, nm, vl));
                    assert(keys_distinct(self@));
                }
                return ;
            }
            i = i + 1;
        }
        proof {
            lemma_insert_pair_absent(orig, name@, value@);
        }
        self.pairs.push((name, value));
        proof {
            assert(self@ =~= orig.push((nm, vl)));
            assert(self@ == insert_pair(orig, nm, vl));
            assert(keys_distinct(self@));
        }
    }
}

/// When the key is absent, an insert is an append.
proof fn lemma_insert_pair_absent(s: Seq<(Seq<char>, Seq<char>)>, k: Seq<char>, v: Seq<char>)
    requires
        forall|j: int| 0 <= j < s.len() ==> (#[trigger] s[j]).0 != k,
    ensures
        insert_pair(s, k, v) == s.push((k, v)),
    decreases s.len(),
{
    if s.len() == 0 {
        assert(insert_pair(s, k, v) =~= s.push((k, v)));
    } else {
        lemma_insert_pair_absent(s.drop_first(), k, v);
        assert(insert_pair(s, k, v) =~= s.push((k, v)));
    }
}

/// When position `i` holds the first occurrence of the key, an insert is
/// an update there.
proof fn lemma_insert_pair_found(
    s: Seq<(Seq<char>, Seq<char>)>,
    k: Seq<char>,
    v: Seq<char>,
    i: int,
)
    requires
        0 <= i < s.len(),
        s[i].0 == k,
        forall|j: int| 0 <= j < i ==> (#[trigger] s[j]).0 != k,
    ensures
        insert_pair(s, k, v) == s.update(i, (k, v)),
    decreases i,
{
    if i == 0 {
        assert(insert_pair(s, k, v) =~= s.update(0, (k, v)));
    } else {
        assert(s.drop_first()[i - 1].0 == k);
        assert(forall|j: int| 0 <= j < i - 1 ==> (#[trigger] s.drop_first()[j]).0 != k);
        lemma_insert_pair_found(s.drop_first(), k, v, i - 1);
        assert(insert_pair(s, k, v) =~= s.update(i, (k, v)));
    }
}

/// After an insert the key holds the new value, stands in the sequence
/// exactly once, and every other pair is untouched: keys stay distinct.
pub proof fn lemma_insert_pair_key_once(s: Seq<(Seq<char>, Seq<char>)>, k: Seq<char>, v: Seq<char>)
    requires
        keys_distinct(s),
    ensures
        keys_distinct(insert_pair(s, k, v)),
        exists|i: int|
            0 <= i < insert_pair(s, k, v).len() && #[trigger] insert_pair(s, k, v)[i] == (k, v),
        forall|i: int|
            0 <= i < insert_pair(s, k, v).len() && (#[trigger] insert_pair(s, k, v)[i]).0 != k
                ==> s.contains(insert_pair(s, k, v)[i]),
    decreases s.len(),
{
    if s.len() == 0 {
        assert(insert_pair(s, k, v)[0] == (k, v));
    } else if s.first().0 == k {
        let r = insert_pair(s, k, v);
        assert(r =~= seq![(k, v)] + s.drop_first());
        assert(r[0] == (k, v));
        assert forall|i: int| 0 <= i < r.len() && (#[trigger] r[i]).0 != k implies s.contains(
            r[i],
        ) by {
            if i > 0 {
                assert(r[i] == s[i]);
            }
        }
        assert forall|i: int, j: int| 0 <= i < j < r.len() implies (#[trigger] r[i]).0 != (
        #[trigger] r[j]).0 by {
            if i > 0 {
                assert(r[i] == s[i] && r[j] == s[j]);
            } else {
                assert(r[j] == s[j] && s[0].0 == k);
            }
        }
    } else {
        let r = insert_pair(s, k, v);
        let rr = insert_pair(s.drop_first(), k, v);
        lemma_insert_pair_key_once(s.drop_first(), k, v);
        assert(r =~= seq![s.first()] + rr);
        let wi = choose|i: int| 0 <= i < rr.len() && #[trigger] rr[i] == (k, v);
        assert(r[wi + 1] == (k, v));
        assert forall|i: int| 0 <= i < r.len() && (#[trigger] r[i]).0 != k implies s.contains(
            r[i],
        ) by {
            if i == 0 {
                assert(s[0] == r[0]);
            } else {
                assert(rr[i - 1] == r[i]);
                if s.drop_first().contains(r[i]) {
                    let m = choose|m: int|
                        0 <= m < s.drop_first().len() && #[trigger] s.drop_first()[m] == r[i];
                    assert(s[m + 1] == r[i]);
                }
            }
        }
        assert forall|i: int, j: int| 0 <= i < j < r.len() implies (#[trigger] r[i]).0 != (
        #[trigger] r[j]).0 by {
            if i > 0 {
                assert(r[i] == rr[i - 1] && r[j] == rr[j - 1]);
            } else {
                assert(r[0] == s.first());
                let p = rr[j - 1];
                assert(p == r[j]);
                if p.0 != k {
                    assert(s.drop_first().contains(p));
                    let m = choose|m: int|
                        0 <= m < s.drop_first().len() && #[trigger] s.drop_first()[m] == p;
                    assert(s[m + 1] == p);
                }
            }
        }
    }
}

} // verus!
