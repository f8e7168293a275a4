//! A small string-to-string map that keeps its entries in insertion order.
use vstd::prelude::*;

verus! {

/// The map that a list of `(key, value)` pairs denotes when later pairs
/// overwrite earlier ones with the same key.
pub open spec fn pairs_map(s: Seq<(Seq<char>, Seq<char>)>) -> Map<Seq<char>, Seq<char>>
    decreases s.len(),
{
    if s.len() == 0 {
        Map::empty()
    } else {
        pairs_map(s.drop_last()).insert(s.last().0, s.last().1)
    }
}

/// A mapping from strings to strings, written in the order of insertion;
/// a later entry for a key overrides an earlier one.
pub struct StringMap {
    entries: Vec<(String, String)>,
}

impl StringMap {
    /// The entries as written, oldest first.
    pub closed spec fn pairs(&self) -> Seq<(Seq<char>, Seq<char>)> {
        self.entries@.map_values(|e: (String, String)| (e.0@, e.1@))
    }

    pub fn new() -> (r: StringMap)
        ensures
            r.pairs() == Seq::<(Seq<char>, Seq<char>)>::empty(),
            r@ == Map::<Seq<char>, Seq<char>>::empty(),
    {
        let r = StringMap { entries: Vec::new() };
        proof {
            assert(r.pairs() =~= Seq::<(Seq<char>, Seq<char>)>::empty());
        }
        r
    }

    /// Associates `value` with `key`, replacing any earlier value.
    pub fn insert(&mut self, key: String, value: String)
        ensures
            final(self).pairs() == old(self).pairs().push((key@, value@)),
            final(self)@ == old(self)@.insert(key@, value@),
    {
        let ghost k = key@;
        let ghost v = value@;
        self.entries.push((key, value));
        proof {
            assert(self.pairs() =~= old(self).pairs().push((k, v)));
            assert(self.pairs().drop_last() =~= old(self).pairs());
        }
    }

    /// The number of entries written, counting overridden ones.
    pub fn num_entries(&self) -> (n: usize)
        ensures
            n == self.pairs().len(),
    {
        self.entries.len()
    }

    /// Whether no entry was ever written.
    pub fn is_empty(&self) -> (b: bool)
        ensures
            b == (self@ == Map::<Seq<char>, Seq<char>>::empty()),
    {
        proof {
            if self.pairs().len() > 0 {
                let last = self.pairs().last();
                assert(self@.contains_key(last.0));
            } else {
                assert(self@ =~= Map::<Seq<char>, Seq<char>>::empty());
            }
        }
        self.entries.len() == 0
    }

    /// The key of the `i`-th entry written.
    pub fn key_at(&self, i: usize) -> (k: &String)
        requires
            i < self.pairs().len(),
        ensures
            k@ == self.pairs()[i as int].0,
    {
        &self.entries[i].0
    }

    /// The value of the `i`-th entry written.
    pub fn value_at(&self, i: usize) -> (v: &String)
        requires
            i < self.pairs().len(),
        ensures
            v@ == self.pairs()[i as int].1,
    {
        &self.entries[i].1
    }

    /// The value associated with `key`, if any.
    pub fn get(&self, key: &str) -> (r: Option<&String>)
        ensures
            r is Some <==> self@.contains_key(key@),
            r is Some ==> r->0@ == self@[key@],
    {
        let wanted = key.to_owned();
        let mut i: usize = self.entries.len();
        proof {
            lemma_pairs_map_split(self.pairs(), i as int);
            assert(self.pairs().skip(i as int) =~= Seq::<(Seq<char>, Seq<char>)>::empty());
            assert(self.pairs().take(i as int) =~= self.pairs());
        }
        while i > 0
            invariant
                i <= self.pairs().len(),
                wanted@ == key@,
                self.pairs().len() == self.entries@.len(),
                pairs_map(self.pairs()) == pairs_map(self.pairs().take(i as int)).union_prefer_right(
                    pairs_map(self.pairs().skip(i as int)),
                ),
                !pairs_map(self.pairs().skip(i as int)).contains_key(key@),
            decreases i,
        {
            let e = &self.entries[i - 1];
            proof {
                assert(self.pairs()[i - 1] == (e.0@, e.1@));
                assert(self.pairs().take(i as int).drop_last() =~= self.pairs().take(i - 1));
            }
            if e.0 == wanted {
                proof {
                    assert(self.pairs().take(i as int).last() == (e.0@, e.1@));
                    assert(pairs_map(self.pairs().take(i as int))[key@] == e.1@);
                    assert(self@.contains_key(key@));
                }
                return Some(&e.1);
            }
            proof {
                lemma_pairs_map_split(self.pairs(), (i - 1) as int);
                lemma_pairs_map_split(self.pairs().skip(i - 1), 1);
                assert(self.pairs().skip(i - 1).take(1) =~= seq![(e.0@, e.1@)]);
                assert(self.pairs().skip(i - 1).skip(1) =~= self.pairs().skip(i as int));
                assert(seq![(e.0@, e.1@)].drop_last() =~= Seq::<(Seq<char>, Seq<char>)>::empty());
                assert(seq![(e.0@, e.1@)].last() == (e.0@, e.1@));
                assert(pairs_map(Seq::<(Seq<char>, Seq<char>)>::empty()) == Map::<
                    Seq<char>,
                    Seq<char>,
                >::empty());
                assert(pairs_map(seq![(e.0@, e.1@)]) == Map::<Seq<char>, Seq<char>>::empty().insert(
                    e.0@,
                    e.1@,
                ));
                assert(e.0@ != key@);
            }
            i = i - 1;
        }
        proof {
            assert(self.pairs().take(0) =~= Seq::<(Seq<char>, Seq<char>)>::empty());
            assert(pairs_map(self.pairs()) =~= pairs_map(self.pairs().skip(0)));
            assert(self.pairs().skip(0) =~= self.pairs());
        }
        None
    }
}

impl View for StringMap {
    type V = Map<Seq<char>, Seq<char>>;

    open spec fn view(&self) -> Map<Seq<char>, Seq<char>> {
        pairs_map(self.pairs())
    }
}

/// Splitting a list of pairs at `k`: the later part overrides the earlier.
pub proof fn lemma_pairs_map_split(s: Seq<(Seq<char>, Seq<char>)>, k: int)
    requires
        0 <= k <= s.len(),
    ensures
        pairs_map(s) == pairs_map(s.take(k)).union_prefer_right(pairs_map(s.skip(k))),
    decreases s.len() - k,
{
    if k == s.len() {
        assert(s.take(k) =~= s);
        assert(s.skip(k) =~= Seq::<(Seq<char>, Seq<char>)>::empty());
        assert(pairs_map(s) =~= pairs_map(s.take(k)).union_prefer_right(
            Map::<Seq<char>, Seq<char>>::empty(),
        ));
    } else {
        lemma_pairs_map_split(s, k + 1);
        assert(s.take(k + 1).drop_last() =~= s.take(k));
        lemma_pairs_map_prepend(s.skip(k));
        assert(s.skip(k).drop_first() =~= s.skip(k + 1));
        assert(pairs_map(s) =~= pairs_map(s.take(k)).union_prefer_right(pairs_map(s.skip(k))));
    }
}

/// Writing one pair first: it is overridden by any later pair with its key.
pub proof fn lemma_pairs_map_prepend(s: Seq<(Seq<char>, Seq<char>)>)
    requires
        s.len() > 0,
    ensures
        pairs_map(s) == Map::<Seq<char>, Seq<char>>::empty().insert(s[0].0, s[0].1).union_prefer_right(
            pairs_map(s.drop_first()),
        ),
    decreases s.len(),
{
    if s.len() == 1 {
        assert(s.drop_first() =~= Seq::<(Seq<char>, Seq<char>)>::empty());
        assert(s.drop_last() =~= Seq::<(Seq<char>, Seq<char>)>::empty());
        assert(pairs_map(s) =~= Map::<Seq<char>, Seq<char>>::empty().insert(s[0].0, s[0].1).union_prefer_right(
            pairs_map(s.drop_first()),
        ));
    } else {
        lemma_pairs_map_prepend(s.drop_last());
        assert(s.drop_last().drop_first() =~= s.drop_first().drop_last());
        assert(pairs_map(s) =~= Map::<Seq<char>, Seq<char>>::empty().insert(s[0].0, s[0].1).union_prefer_right(
            pairs_map(s.drop_first()),
        ));
    }
}

} // verus!
