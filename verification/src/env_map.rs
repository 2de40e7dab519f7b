//! An environment: variable names mapped to values, each name at most once.
use vstd::prelude::*;

use crate::text;

verus! {

/// The map that a list of assignments leaves behind when applied in order.
pub open spec fn assign_all(
    m: Map<Seq<char>, Seq<char>>,
    pairs: Seq<(Seq<char>, Seq<char>)>,
) -> Map<Seq<char>, Seq<char>>
    decreases pairs.len(),
{
    if pairs.len() == 0 {
        m
    } else {
        assign_all(m, pairs.drop_last()).insert(pairs.last().0, pairs.last().1)
    }
}

pub proof fn lemma_assign_all_push(
    m: Map<Seq<char>, Seq<char>>,
    pairs: Seq<(Seq<char>, Seq<char>)>,
    p: (Seq<char>, Seq<char>),
)
    ensures
        assign_all(m, pairs.push(p)) == assign_all(m, pairs).insert(p.0, p.1),
{
    assert(pairs.push(p).drop_last() =~= pairs);
}

/// Setting the pairs of `a` and then those of `b` leaves the same map as
/// setting the pairs of `a + b` at once.
pub proof fn law_assignments_in_batches(
    m: Map<Seq<char>, Seq<char>>,
    a: Seq<(Seq<char>, Seq<char>)>,
    b: Seq<(Seq<char>, Seq<char>)>,
)
    ensures
        assign_all(m, a + b) == assign_all(assign_all(m, a), b),
    decreases b.len(),
{
    if b.len() == 0 {
        assert(a + b =~= a);
    } else {
        assert((a + b).drop_last() =~= a + b.drop_last());
        law_assignments_in_batches(m, a, b.drop_last());
    }
}

/// Variable names mapped to values; no name occurs twice.
#[derive(Debug)]
pub struct EnvMap {
    entries: Vec<(String, String)>,
}

pub open spec fn entry_view(e: (String, String)) -> (Seq<char>, Seq<char>) {
    (e.0@, e.1@)
}

pub open spec fn pairs_view(v: Seq<(String, String)>) -> Seq<(Seq<char>, Seq<char>)> {
    v.map_values(|e: (String, String)| entry_view(e))
}

impl EnvMap {
    pub closed spec fn pairs(&self) -> Seq<(Seq<char>, Seq<char>)> {
        pairs_view(self.entries@)
    }

    /// The map is what the listed assignments leave behind.
    pub proof fn lemma_entries_view(&self)
        ensures
            assign_all(Map::empty(), self.pairs()) == self@,
    {
    }

    /// No variable name occurs twice.
    #[verifier::type_invariant]
    closed spec fn wf(&self) -> bool {
        forall|i: int, j: int|
            0 <= i < j < self.entries@.len() ==> (#[trigger] self.entries@[i]).0@
                != (#[trigger] self.entries@[j]).0@
    }

    pub closed spec fn view(&self) -> Map<Seq<char>, Seq<char>> {
        assign_all(Map::empty(), self.pairs())
    }

    proof fn lemma_pairs(&self)
        requires
            self.wf(),
        ensures
            self.pairs().len() == self.entries@.len(),
            forall|i: int| 0 <= i < self.entries@.len() ==> #[trigger] self.pairs()[i] == entry_view(self.entries@[i]),
            forall|i: int, j: int| 0 <= i < j < self.pairs().len() ==> (#[trigger] self.pairs()[i]).0 != (#[trigger] self.pairs()[j]).0,
    {
        assert forall|i: int, j: int| 0 <= i < j < self.pairs().len() implies (#[trigger] self.pairs()[i]).0 != (#[trigger] self.pairs()[j]).0 by {
            assert(self.pairs()[i] == entry_view(self.entries@[i]));
            assert(self.pairs()[j] == entry_view(self.entries@[j]));
        }
    }

    proof fn lemma_view(&self)
        requires
            self.wf(),
        ensures
            forall|k: Seq<char>|
                #![trigger self.view().dom().contains(k)]
                self.view().dom().contains(k) <==> exists|i: int|
                    0 <= i < self.entries@.len() && (#[trigger] self.entries@[i]).0@ == k,
            forall|i: int|
                0 <= i < self.entries@.len() ==> #[trigger] self.view()[self.entries@[i].0@]
                    == self.entries@[i].1@,
    {
        lemma_unique_pairs_map(self.pairs());
        assert forall|k: Seq<char>|
            #![trigger self.view().dom().contains(k)]
            self.view().dom().contains(k) implies exists|i: int|
                0 <= i < self.entries@.len() && (#[trigger] self.entries@[i]).0@ == k by {
            let i = choose|i: int| 0 <= i < self.pairs().len() && #[trigger] self.pairs()[i].0 == k;
            assert(self.entries@[i].0@ == k);
        }
        assert forall|k: Seq<char>|
            (exists|i: int| 0 <= i < self.entries@.len() && (#[trigger] self.entries@[i]).0@ == k)
            implies #[trigger] self.view().dom().contains(k) by {
            let i = choose|i: int| 0 <= i < self.entries@.len() && (#[trigger] self.entries@[i]).0@ == k;
            assert(self.pairs()[i].0 == k);
        }
        assert forall|i: int| 0 <= i < self.entries@.len() implies #[trigger] self.view()[self.entries@[i].0@]
            == self.entries@[i].1@ by {
            assert(self.pairs()[i] == entry_view(self.entries@[i]));
            assert(assign_all(Map::empty(), self.pairs())[self.pairs()[i].0] == self.pairs()[i].1);
        }
    }

    pub fn new() -> (r: Self)
        ensures
            r@ == Map::<Seq<char>, Seq<char>>::empty(),
    {
        let r = EnvMap { entries: Vec::new() };
        assert(r.pairs() =~= Seq::<(Seq<char>, Seq<char>)>::empty());
        r
    }

    /// Number of variables.
    pub fn len(&self) -> (r: usize)
        ensures
            r == self@.dom().len(),
    {
        proof {
            use_type_invariant(self);
            self.lemma_view();
            self.lemma_dom_len();
        }
        self.entries.len()
    }

    proof fn lemma_dom_len(&self)
        requires
            self.wf(),
        ensures
            self@.dom().finite(),
            self@.dom().len() == self.entries@.len(),
        decreases self.entries@.len(),
    {
        lemma_unique_pairs_dom_len(self.pairs());
    }

    /// Sets `key` to `value`, replacing any earlier value.
    pub fn insert(&mut self, key: String, value: String)
        ensures
            final(self)@ == old(self)@.insert(key@, value@),
    {
        proof {
            use_type_invariant(&*self);
            self.lemma_view();
            self.lemma_pairs();
        }
        let mut i: usize = 0;
        while i < self.entries.len()
            invariant
                *self == *old(self),
                self.wf(),
                i <= self.entries@.len(),
                forall|j: int| 0 <= j < i ==> (#[trigger] self.entries@[j]).0@ != key@,
            decreases self.entries@.len() - i,
        {
            if text::str_equal(self.entries[i].0.as_str(), key.as_str()) {
                proof {
                    self.lemma_pairs();
                }
                let ghost before = *self;
                let ghost bp = self.pairs();
                let mut es: Vec<(String, String)> = Vec::new();
                std::mem::swap(&mut es, &mut self.entries);
                es.set(i, (key, value));
                self.entries = es;
                proof {
                    assert(self.pairs() =~= bp.update(i as int, (key@, value@)));
                    lemma_unique_pairs_update(bp, i as int, value@);
                    assert(self.wf()) by {
                        assert forall|a: int, b: int|
                            0 <= a < b < self.entries@.len() implies (#[trigger] self.entries@[a]).0@
                            != (#[trigger] self.entries@[b]).0@ by {
                            assert(self.entries@[a].0@ == before.entries@[a].0@);
                            assert(self.entries@[b].0@ == before.entries@[b].0@);
                        }
                    }
                }
                return;
            }
            i = i + 1;
        }
        proof {
            self.lemma_pairs();
        }
        let ghost bp = self.pairs();
        let mut es: Vec<(String, String)> = Vec::new();
        std::mem::swap(&mut es, &mut self.entries);
        es.push((key, value));
        self.entries = es;
        proof {
            assert(self.pairs() =~= bp.push((key@, value@)));
            lemma_assign_all_push(Map::empty(), bp, (key@, value@));
        }
    }

    /// The value of `key`, if set.
    pub fn get(&self, key: &str) -> (r: Option<String>)
        ensures
            match r {
                Some(v) => self@.dom().contains(key@) && self@[key@] == v@,
                None => !self@.dom().contains(key@),
            },
    {
        proof {
            use_type_invariant(self);
            self.lemma_view();
        }
        let mut i: usize = 0;
        while i < self.entries.len()
            invariant
                self.wf(),
                i <= self.entries@.len(),
                forall|j: int| 0 <= j < i ==> (#[trigger] self.entries@[j]).0@ != key@,
            decreases self.entries@.len() - i,
        {
            if text::str_equal(self.entries[i].0.as_str(), key) {
                proof {
                    self.lemma_view();
                }
                return Some(self.entries[i].1.clone());
            }
            i = i + 1;
        }
        None
    }

    /// The assignments, in the order in which their names were first set.
    pub fn entries(&self) -> (r: &[(String, String)])
        ensures
            pairs_view(r@) == self.pairs(),
    {
        self.entries.as_slice()
    }

    /// A copy holding the same assignments.
    pub fn duplicate(&self) -> (r: Self)
        ensures
            r@ == self@,
    {
        let mut r = EnvMap::new();
        r.insert_all(self.entries());
        r
    }

    /// Sets every pair of `pairs`, in order.
    pub fn insert_all(&mut self, pairs: &[(String, String)])
        ensures
            final(self)@ == assign_all(old(self)@, pairs_view(pairs@)),
    {
        let ghost start = self@;
        let ghost ps = pairs_view(pairs@);
        let mut i: usize = 0;
        while i < pairs.len()
            invariant
                i <= pairs@.len(),
                ps == pairs_view(pairs@),
                self@ == assign_all(start, ps.take(i as int)),
            decreases pairs@.len() - i,
        {
            let (k, v) = &pairs[i];
            self.insert(k.clone(), v.clone());
            proof {
                assert(ps.take(i + 1) =~= ps.take(i as int).push(ps[i as int]));
                lemma_assign_all_push(start, ps.take(i as int), ps[i as int]);
            }
            i = i + 1;
        }
        assert(ps.take(pairs@.len() as int) =~= ps);
    }
}

/// In a list without repeated names, the map holds each pair and only those.
proof fn lemma_unique_pairs_map(ps: Seq<(Seq<char>, Seq<char>)>)
    requires
        forall|i: int, j: int| 0 <= i < j < ps.len() ==> (#[trigger] ps[i]).0 != (#[trigger] ps[j]).0,
    ensures
        forall|k: Seq<char>|
            #![trigger assign_all(Map::empty(), ps).dom().contains(k)]
            assign_all(Map::empty(), ps).dom().contains(k) <==> exists|i: int|
                0 <= i < ps.len() && #[trigger] ps[i].0 == k,
        forall|i: int|
            0 <= i < ps.len() ==> #[trigger] assign_all(Map::empty(), ps)[ps[i].0] == ps[i].1,
    decreases ps.len(),
{
    if ps.len() > 0 {
        let init = ps.drop_last();
        assert forall|i: int, j: int| 0 <= i < j < init.len() implies (#[trigger] init[i]).0
            != (#[trigger] init[j]).0 by {
            assert(init[i] == ps[i]);
            assert(init[j] == ps[j]);
        }
        lemma_unique_pairs_map(init);
        let m = assign_all(Map::<Seq<char>, Seq<char>>::empty(), ps);
        let m0 = assign_all(Map::<Seq<char>, Seq<char>>::empty(), init);
        assert(m == m0.insert(ps.last().0, ps.last().1));
        assert forall|k: Seq<char>|
            #![trigger m.dom().contains(k)]
            m.dom().contains(k) <==> exists|i: int| 0 <= i < ps.len() && #[trigger] ps[i].0 == k by {
            if m.dom().contains(k) && k != ps.last().0 {
                assert(m0.dom().contains(k));
                let i = choose|i: int| 0 <= i < init.len() && #[trigger] init[i].0 == k;
                assert(ps[i] == init[i]);
            }
            if m.dom().contains(k) && k == ps.last().0 {
                assert(ps[ps.len() - 1].0 == k);
            }
            if (exists|i: int| 0 <= i < ps.len() && #[trigger] ps[i].0 == k) {
                let i = choose|i: int| 0 <= i < ps.len() && #[trigger] ps[i].0 == k;
                if i < ps.len() - 1 {
                    assert(init[i] == ps[i]);
                    assert(init[i].0 == k);
                    assert(m0.dom().contains(k));
                }
            }
        }
        assert forall|i: int| 0 <= i < ps.len() implies #[trigger] m[ps[i].0] == ps[i].1 by {
            if i < ps.len() - 1 {
                assert(init[i] == ps[i]);
                assert(ps[i].0 != ps[ps.len() - 1].0);
                assert(m0[init[i].0] == init[i].1);
            }
        }
    }
}

proof fn lemma_unique_pairs_dom_len(ps: Seq<(Seq<char>, Seq<char>)>)
    requires
        forall|i: int, j: int| 0 <= i < j < ps.len() ==> (#[trigger] ps[i]).0 != (#[trigger] ps[j]).0,
    ensures
        assign_all(Map::empty(), ps).dom().finite(),
        assign_all(Map::empty(), ps).dom().len() == ps.len(),
    decreases ps.len(),
{
    if ps.len() > 0 {
        let init = ps.drop_last();
        assert forall|i: int, j: int| 0 <= i < j < init.len() implies (#[trigger] init[i]).0
            != (#[trigger] init[j]).0 by {
            assert(init[i] == ps[i]);
            assert(init[j] == ps[j]);
        }
        lemma_unique_pairs_dom_len(init);
        lemma_unique_pairs_map(init);
        let m0 = assign_all(Map::<Seq<char>, Seq<char>>::empty(), init);
        if m0.dom().contains(ps.last().0) {
            let i = choose|i: int| 0 <= i < init.len() && #[trigger] init[i].0 == ps.last().0;
            assert(ps[i] == init[i]);
            assert(false);
        }
    }
}

/// Replacing the value of the pair at `i` replaces it in the map.
proof fn lemma_unique_pairs_update(ps: Seq<(Seq<char>, Seq<char>)>, i: int, v: Seq<char>)
    requires
        0 <= i < ps.len(),
        forall|a: int, b: int| 0 <= a < b < ps.len() ==> (#[trigger] ps[a]).0 != (#[trigger] ps[b]).0,
    ensures
        assign_all(Map::empty(), ps.update(i, (ps[i].0, v))) == assign_all(Map::empty(), ps).insert(
            ps[i].0,
            v,
        ),
    decreases ps.len(),
{
    let qs = ps.update(i, (ps[i].0, v));
    let init = ps.drop_last();
    assert forall|a: int, b: int| 0 <= a < b < init.len() implies (#[trigger] init[a]).0
        != (#[trigger] init[b]).0 by {
        assert(init[a] == ps[a]);
        assert(init[b] == ps[b]);
    }
    if i == ps.len() - 1 {
        assert(qs.drop_last() =~= init);
        assert(assign_all(Map::empty(), ps).insert(ps[i].0, v) =~= assign_all(
            Map::<Seq<char>, Seq<char>>::empty(),
            init,
        ).insert(ps[i].0, ps[i].1).insert(ps[i].0, v));
    } else {
        assert(qs.drop_last() =~= init.update(i, (ps[i].0, v)));
        lemma_unique_pairs_update(init, i, v);
        assert(ps[i].0 != ps.last().0);
        assert(assign_all(Map::<Seq<char>, Seq<char>>::empty(), qs) =~= assign_all(
            Map::<Seq<char>, Seq<char>>::empty(),
            init,
        ).insert(ps[i].0, v).insert(ps.last().0, ps.last().1));
    }
}

} // verus!
