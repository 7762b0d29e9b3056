//! Header fields: a mapping from names to values, names kept as received.

use vstd::prelude::*;
use crate::text::same_text;

verus! {

/// A header field as text: its name and its value.
pub type HeaderPair = (Seq<char>, Seq<char>);

/// The mapping that a list of fields stands for: a later field replaces an
/// earlier one of the same name.
pub open spec fn map_of(ps: Seq<HeaderPair>) -> Map<Seq<char>, Seq<char>>
    decreases ps.len(),
{
    if ps.len() == 0 {
        Map::empty()
    } else {
        map_of(ps.drop_last()).insert(ps.last().0, ps.last().1)
    }
}

/// The fields of `ps` whose name is not `k`, in order.
pub open spec fn without_key(ps: Seq<HeaderPair>, k: Seq<char>) -> Seq<HeaderPair>
    decreases ps.len(),
{
    if ps.len() == 0 {
        ps
    } else {
        let rest = without_key(ps.drop_last(), k);
        if ps.last().0 == k {
            rest
        } else {
            rest.push(ps.last())
        }
    }
}

/// Each name occurs at most once.
pub open spec fn unique_names(ps: Seq<HeaderPair>) -> bool {
    forall|i: int, j: int| 0 <= i < j < ps.len() ==> #[trigger] ps[i].0 != #[trigger] ps[j].0
}

pub open spec fn pair_view(e: (String, String)) -> HeaderPair {
    (e.0@, e.1@)
}

proof fn lemma_without_key(ps: Seq<HeaderPair>, k: Seq<char>)
    ensures
        map_of(without_key(ps, k)) == map_of(ps).remove(k),
        forall|i: int| 0 <= i < without_key(ps, k).len() ==> #[trigger] without_key(ps, k)[i].0 != k,
        unique_names(ps) ==> unique_names(without_key(ps, k)),
        forall|i: int| 0 <= i < without_key(ps, k).len() ==> ps.contains(#[trigger] without_key(ps, k)[i]),
    decreases ps.len(),
{
    if ps.len() > 0 {
        lemma_without_key(ps.drop_last(), k);
        let rest = without_key(ps.drop_last(), k);
        if ps.last().0 != k {
            assert(rest.push(ps.last()).drop_last() =~= rest);
        }
        assert(map_of(without_key(ps, k)) =~= map_of(ps).remove(k));
        assert forall|i: int| 0 <= i < without_key(ps, k).len() implies ps.contains(#[trigger] without_key(ps, k)[i]) by {
            if i < rest.len() {
                let j = choose|j: int| 0 <= j < ps.drop_last().len() && ps.drop_last()[j] == rest[i];
                assert(ps[j] == rest[i]);
            } else {
                assert(ps[ps.len() - 1] == ps.last());
            }
        }
        if unique_names(ps) {
            assert(unique_names(ps.drop_last()));
            let w = without_key(ps, k);
            if ps.last().0 != k {
                assert forall|i: int, j: int| 0 <= i < j < w.len() implies #[trigger] w[i].0 != #[trigger] w[j].0 by {
                    if j == w.len() - 1 {
                        let a = choose|a: int| 0 <= a < ps.drop_last().len() && ps.drop_last()[a] == rest[i];
                        assert(ps[a] == w[i]);
                        assert(ps[ps.len() - 1] == w[j]);
                    }
                }
            }
        }
    }
}

/// Fields with distinct names are the mapping they stand for: each field is
/// in it with its value, every name in it comes from a field, and there are
/// as many names as fields.
pub proof fn lemma_unique_map_of(ps: Seq<HeaderPair>)
    requires
        unique_names(ps),
    ensures
        map_of(ps).dom().finite(),
        map_of(ps).dom().len() == ps.len(),
        forall|i: int|
            0 <= i < ps.len() ==> map_of(ps).contains_key(#[trigger] ps[i].0) && map_of(ps)[ps[i].0]
                == ps[i].1,
        forall|k: Seq<char>|
            #[trigger] map_of(ps).contains_key(k) ==> exists|i: int|
                0 <= i < ps.len() && #[trigger] ps[i].0 == k,
    decreases ps.len(),
{
    if ps.len() > 0 {
        let init = ps.drop_last();
        let last = ps.last();
        assert(unique_names(init)) by {
            assert forall|i: int, j: int| 0 <= i < j < init.len() implies #[trigger] init[i].0
                != #[trigger] init[j].0 by {
                assert(init[i] == ps[i] && init[j] == ps[j]);
            }
        }
        lemma_unique_map_of(init);
        assert(!map_of(init).contains_key(last.0)) by {
            if map_of(init).contains_key(last.0) {
                let i = choose|i: int| 0 <= i < init.len() && #[trigger] init[i].0 == last.0;
                assert(ps[i].0 == ps[ps.len() - 1].0);
            }
        }
        assert forall|i: int| 0 <= i < ps.len() implies map_of(ps).contains_key(
            #[trigger] ps[i].0,
        ) && map_of(ps)[ps[i].0] == ps[i].1 by {
            if i < ps.len() - 1 {
                assert(init[i] == ps[i]);
                assert(ps[i].0 != ps[ps.len() - 1].0);
            }
        }
        assert forall|k: Seq<char>| #[trigger] map_of(ps).contains_key(k) implies exists|i: int|
            0 <= i < ps.len() && #[trigger] ps[i].0 == k by {
            if k == last.0 {
                assert(ps[ps.len() - 1].0 == k);
            } else {
                let i = choose|i: int| 0 <= i < init.len() && #[trigger] init[i].0 == k;
                assert(ps[i] == init[i]);
            }
        }
    }
}

/// Header fields, each name at most once.
#[derive(Debug)]
pub struct HeaderMap {
    entries: Vec<(String, String)>,
}

impl View for HeaderMap {
    type V = Map<Seq<char>, Seq<char>>;

    open spec fn view(&self) -> Map<Seq<char>, Seq<char>> {
        map_of(self.pairs())
    }
}

impl HeaderMap {
    #[verifier::type_invariant]
    spec fn names_unique(&self) -> bool {
        unique_names(self.pairs())
    }

    /// The fields in the order in which they are kept.
    pub closed spec fn pairs(&self) -> Seq<HeaderPair> {
        self.entries@.map_values(|e: (String, String)| pair_view(e))
    }

    /// A map with no fields.
    pub fn new() -> (r: HeaderMap)
        ensures
            r@ == Map::<Seq<char>, Seq<char>>::empty(),
            r.pairs() == Seq::<HeaderPair>::empty(),
    {
        let r = HeaderMap { entries: Vec::new() };
        assert(r.pairs() =~= Seq::<HeaderPair>::empty());
        r
    }

    /// Sets the value of `key`, replacing any earlier value of it.
    pub fn insert(&mut self, key: String, value: String)
        ensures
            final(self)@ == old(self)@.insert(key@, value@),
    {
        proof {
            use_type_invariant(&*self);
        }
        let ghost ps = self.pairs();
        let n = self.entries.len();
        let mut kept: Vec<(String, String)> = Vec::new();
        let mut i: usize = 0;
        while i < n
            invariant
                i <= n == self.entries@.len(),
                ps == self.pairs(),
                kept@.map_values(|e: (String, String)| pair_view(e)) == without_key(
                    ps.take(i as int),
                    key@,
                ),
            decreases n - i,
        {
            assert(ps.take(i + 1).drop_last() =~= ps.take(i as int));
            assert(ps[i as int] == pair_view(self.entries@[i as int]));
            if !same_text(self.entries[i].0.as_str(), key.as_str()) {
                let k = self.entries[i].0.clone();
                let v = self.entries[i].1.clone();
                kept.push((k, v));
                assert(kept@.map_values(|e: (String, String)| pair_view(e)) =~= without_key(
                    ps.take(i as int),
                    key@,
                ).push(ps[i as int]));
            }
            i = i + 1;
        }
        assert(ps.take(n as int) =~= ps);
        proof {
            lemma_without_key(ps, key@);
        }
        let ghost w = without_key(ps, key@);
        let ghost kv = (key@, value@);
        kept.push((key, value));
        let ghost q = kept@.map_values(|e: (String, String)| pair_view(e));
        assert(q =~= w.push(kv));
        assert(q.drop_last() =~= w);
        proof {
            assert forall|a: int, b: int| 0 <= a < b < q.len() implies #[trigger] q[a].0
                != #[trigger] q[b].0 by {
                if b == q.len() - 1 {
                    assert(w[a].0 != key@);
                } else {
                    assert(q[a] == w[a] && q[b] == w[b]);
                }
            }
        }
        *self = HeaderMap { entries: kept };
        assert(self.pairs() == q);
        assert(self@ =~= old(self)@.insert(kv.0, kv.1));
    }

    /// The value of `key`, if it is set.
    pub fn get(&self, key: &str) -> (r: Option<&String>)
        ensures
            match r {
                Some(v) => self@.contains_key(key@) && self@[key@] == v@,
                None => !self@.contains_key(key@),
            },
    {
        let ghost ps = self.pairs();
        let mut j: usize = self.entries.len();
        assert(ps.take(j as int) =~= ps);
        while j > 0
            invariant
                j <= self.entries@.len(),
                ps == self.pairs(),
                map_of(ps).contains_key(key@) == map_of(ps.take(j as int)).contains_key(key@),
                map_of(ps).contains_key(key@) ==> map_of(ps)[key@] == map_of(
                    ps.take(j as int),
                )[key@],
            decreases j,
        {
            assert(ps.take(j as int).drop_last() =~= ps.take(j - 1));
            assert(ps[j - 1] == pair_view(self.entries@[j - 1]));
            if same_text(self.entries[j - 1].0.as_str(), key) {
                return Some(&self.entries[j - 1].1);
            }
            j = j - 1;
        }
        None
    }

    /// Whether no field is set.
    pub fn is_empty(&self) -> (r: bool)
        ensures
            r == (self@ == Map::<Seq<char>, Seq<char>>::empty()),
    {
        let r = self.entries.len() == 0;
        proof {
            if !r {
                assert(self@.contains_key(self.pairs().last().0));
            } else {
                assert(self.pairs() =~= Seq::<HeaderPair>::empty());
            }
        }
        r
    }

    /// The number of fields, which is the number of names set.
    pub fn len(&self) -> (r: usize)
        ensures
            r == self.pairs().len(),
            r == self@.dom().len(),
    {
        proof {
            use_type_invariant(self);
            lemma_unique_map_of(self.pairs());
        }
        self.entries.len()
    }


    /// The fields, in the order in which they are kept.
    pub fn entries(&self) -> (r: &Vec<(String, String)>)
        ensures
            r@.map_values(|e: (String, String)| pair_view(e)) == self.pairs(),
            unique_names(self.pairs()),
    {
        proof {
            use_type_invariant(self);
        }
        &self.entries
    }
}

impl Clone for HeaderMap {
    fn clone(&self) -> (r: HeaderMap)
        ensures
            r.pairs() == self.pairs(),
    {
        let n = self.entries.len();
        let mut out: Vec<(String, String)> = Vec::new();
        let mut i: usize = 0;
        while i < n
            invariant
                i <= n == self.entries@.len(),
                out@.map_values(|e: (String, String)| pair_view(e)) == self.pairs().take(i as int),
            decreases n - i,
        {
            let k = self.entries[i].0.clone();
            let v = self.entries[i].1.clone();
            assert(self.pairs()[i as int] == pair_view(self.entries@[i as int]));
            assert(pair_view((k, v)) == self.pairs()[i as int]);
            let ghost before = out@.map_values(|e: (String, String)| pair_view(e));
            out.push((k, v));
            assert(out@.map_values(|e: (String, String)| pair_view(e)) =~= before.push(
                self.pairs()[i as int],
            ));
            assert(self.pairs().take(i + 1) =~= self.pairs().take(i as int).push(
                self.pairs()[i as int],
            ));
            i = i + 1;
        }
        proof {
            use_type_invariant(self);
        }
        assert(out@.map_values(|e: (String, String)| pair_view(e)) =~= self.pairs());
        let r = HeaderMap { entries: out };
        r
    }
}

} // verus!
