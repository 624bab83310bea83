//! The table of toggles that a worker offers: identifier to description.

use vstd::prelude::*;

verus! {

/// The map that a sequence of pairs builds when they are inserted one after
/// another: a later pair replaces an earlier one with the same key.
pub open spec fn pairs_map(pairs: Seq<(Seq<char>, Seq<char>)>) -> Map<Seq<char>, Seq<char>>
    decreases pairs.len(),
{
    if pairs.len() == 0 {
        Map::empty()
    } else {
        pairs_map(pairs.drop_last()).insert(pairs.last().0, pairs.last().1)
    }
}

/// No key occurs twice.
pub open spec fn distinct_keys(pairs: Seq<(Seq<char>, Seq<char>)>) -> bool {
    forall|i: int, j: int| 0 <= i < j < pairs.len() ==> (#[trigger] pairs[i]).0 != (#[trigger] pairs[j]).0
}

/// Without its last pair, a sequence still has no key twice.
proof fn lemma_distinct_front(pairs: Seq<(Seq<char>, Seq<char>)>)
    requires
        distinct_keys(pairs),
        pairs.len() > 0,
    ensures
        distinct_keys(pairs.drop_last()),
{
    let front = pairs.drop_last();
    assert forall|a: int, b: int| 0 <= a < b < front.len() implies (#[trigger] front[a]).0 != (
    #[trigger] front[b]).0 by {
        assert(front[a] == pairs[a] && front[b] == pairs[b]);
    }
}

/// A key is in the map exactly when some pair has it.
pub proof fn lemma_pairs_map_domain(pairs: Seq<(Seq<char>, Seq<char>)>, key: Seq<char>)
    ensures
        pairs_map(pairs).contains_key(key) <==> exists|i: int|
            0 <= i < pairs.len() && (#[trigger] pairs[i]).0 == key,
    decreases pairs.len(),
{
    if pairs.len() > 0 {
        let front = pairs.drop_last();
        lemma_pairs_map_domain(front, key);
        if pairs.last().0 == key {
            assert(pairs[pairs.len() - 1].0 == key);
        } else if pairs_map(front).contains_key(key) {
            let i = choose|i: int| 0 <= i < front.len() && (#[trigger] front[i]).0 == key;
            assert(pairs[i].0 == key);
        } else {
            assert forall|i: int| 0 <= i < pairs.len() implies (#[trigger] pairs[i]).0 != key by {
                if i < front.len() {
                    assert(front[i].0 != key);
                }
            }
        }
    }
}

/// Where no key occurs twice, each pair's key maps to that pair's value.
pub proof fn lemma_pairs_map_value(pairs: Seq<(Seq<char>, Seq<char>)>, i: int)
    requires
        distinct_keys(pairs),
        0 <= i < pairs.len(),
    ensures
        pairs_map(pairs).contains_key(pairs[i].0),
        pairs_map(pairs)[pairs[i].0] == pairs[i].1,
    decreases pairs.len(),
{
    if i < pairs.len() - 1 {
        lemma_distinct_front(pairs);
        lemma_pairs_map_value(pairs.drop_last(), i);
        assert(pairs[i].0 != pairs[pairs.len() - 1].0);
    }
}

/// The map has finitely many keys.
pub proof fn lemma_pairs_map_finite(pairs: Seq<(Seq<char>, Seq<char>)>)
    ensures
        pairs_map(pairs).dom().finite(),
    decreases pairs.len(),
{
    if pairs.len() > 0 {
        lemma_pairs_map_finite(pairs.drop_last());
    }
}

/// Where no key occurs twice, the map has as many keys as there are pairs.
pub proof fn lemma_pairs_map_len(pairs: Seq<(Seq<char>, Seq<char>)>)
    requires
        distinct_keys(pairs),
    ensures
        pairs_map(pairs).dom().finite(),
        pairs_map(pairs).dom().len() == pairs.len(),
    decreases pairs.len(),
{
    lemma_pairs_map_finite(pairs);
    if pairs.len() > 0 {
        let front = pairs.drop_last();
        lemma_distinct_front(pairs);
        lemma_pairs_map_len(front);
        lemma_pairs_map_domain(front, pairs.last().0);
        if pairs_map(front).contains_key(pairs.last().0) {
            let i = choose|i: int| 0 <= i < front.len() && (#[trigger] front[i]).0 == pairs.last().0;
            assert(pairs[i].0 == pairs[pairs.len() - 1].0);
        }
    }
}

/// Where no key occurs twice, replacing the value of one pair is an insert,
/// and still no key occurs twice.
pub proof fn lemma_pairs_map_update(pairs: Seq<(Seq<char>, Seq<char>)>, i: int, value: Seq<char>)
    requires
        distinct_keys(pairs),
        0 <= i < pairs.len(),
    ensures
        pairs_map(pairs.update(i, (pairs[i].0, value))) == pairs_map(pairs).insert(
            pairs[i].0,
            value,
        ),
        distinct_keys(pairs.update(i, (pairs[i].0, value))),
    decreases pairs.len(),
{
    let key = pairs[i].0;
    let updated = pairs.update(i, (key, value));
    let front = pairs.drop_last();
    assert forall|a: int, b: int| 0 <= a < b < updated.len() implies (#[trigger] updated[a]).0 != (
    #[trigger] updated[b]).0 by {
        assert(updated[a].0 == pairs[a].0 && updated[b].0 == pairs[b].0);
    }
    if i == pairs.len() - 1 {
        assert(updated.drop_last() == front);
    } else {
        lemma_distinct_front(pairs);
        lemma_pairs_map_update(front, i, value);
        assert(updated.drop_last() == front.update(i, (key, value)));
        assert(pairs[i].0 != pairs[pairs.len() - 1].0);
    }
}

/// Toggle identifiers with their descriptions. No identifier occurs twice;
/// the entries stand in the order in which their identifiers first came in.
#[derive(Debug)]
pub struct PreferenceTable {
    entries: Vec<(String, String)>,
}

impl View for PreferenceTable {
    type V = Map<Seq<char>, Seq<char>>;

    closed spec fn view(&self) -> Map<Seq<char>, Seq<char>> {
        pairs_map(self.pairs())
    }
}

impl PreferenceTable {
    /// The entries as pairs of texts, in their order.
    pub closed spec fn pairs(&self) -> Seq<(Seq<char>, Seq<char>)> {
        Seq::new(self.entries@.len(), |i: int| (self.entries@[i].0@, self.entries@[i].1@))
    }

    /// The invariant of the table: no identifier occurs twice.
    pub open spec fn wf(&self) -> bool {
        distinct_keys(self.pairs())
    }

    /// The empty table.
    pub fn new() -> (table: PreferenceTable)
        ensures
            table.wf(),
            table@ == Map::<Seq<char>, Seq<char>>::empty(),
            table.pairs().len() == 0,
    {
        PreferenceTable { entries: Vec::new() }
    }

    fn position(&self, key: &String) -> (found: Option<usize>)
        ensures
            match found {
                Some(i) => i < self.pairs().len() && self.pairs()[i as int].0 == key@,
                None => forall|i: int| 0 <= i < self.pairs().len() ==> (#[trigger] self.pairs()[i]).0 != key@,
            },
    {
        let mut i: usize = 0;
        while i < self.entries.len()
            invariant
                i <= self.entries.len(),
                forall|j: int| 0 <= j < i ==> (#[trigger] self.pairs()[j]).0 != key@,
            decreases self.entries.len() - i,
        {
            if self.entries[i].0 == *key {
                return Some(i);
            }
            i = i + 1;
        }
        None
    }

    /// Sets the description of `key`. An identifier that the table has keeps
    /// its place and gets the new description; a new one goes to the end.
    pub fn insert(&mut self, key: String, value: String)
        requires
            old(self).wf(),
        ensures
            final(self).wf(),
            final(self)@ == old(self)@.insert(key@, value@),
            old(self)@.contains_key(key@) ==> exists|i: int|
                0 <= i < old(self).pairs().len() && (#[trigger] old(self).pairs()[i]).0 == key@
                    && final(self).pairs() == old(self).pairs().update(i, (key@, value@)),
            !old(self)@.contains_key(key@) ==> final(self).pairs() == old(self).pairs().push(
                (key@, value@),
            ),
    {
        proof {
            lemma_pairs_map_domain(self.pairs(), key@);
        }
        let ghost before = self.pairs();
        match self.position(&key) {
            Some(i) => {
                proof {
                    lemma_pairs_map_update(before, i as int, value@);
                }
                self.entries.set(i, (key, value));
                assert(self.pairs() == before.update(i as int, (key@, value@)));
            },
            None => {
                self.entries.push((key, value));
                assert(self.pairs().drop_last() == before);
                assert(distinct_keys(self.pairs())) by {
                    assert forall|a: int, b: int| 0 <= a < b < self.pairs().len() implies (
                    #[trigger] self.pairs()[a]).0 != (#[trigger] self.pairs()[b]).0 by {
                        assert(self.pairs()[a] == before[a]);
                        if b < before.len() {
                            assert(self.pairs()[b] == before[b]);
                        }
                    }
                }
            },
        }
    }

    /// The description of `key`, if the table has one.
    pub fn get(&self, key: &str) -> (found: Option<&String>)
        requires
            self.wf(),
        ensures
            match found {
                Some(value) => self@.contains_pair(key@, value@),
                None => !self@.contains_key(key@),
            },
    {
        let key = String::from_str(key);
        match self.position(&key) {
            Some(i) => {
                proof {
                    lemma_pairs_map_value(self.pairs(), i as int);
                }
                Some(&self.entries[i].1)
            },
            None => {
                proof {
                    lemma_pairs_map_domain(self.pairs(), key@);
                }
                None
            },
        }
    }

    /// The number of entries.
    pub fn len(&self) -> (n: usize)
        requires
            self.wf(),
        ensures
            n == self@.dom().len(),
            n == self.pairs().len(),
    {
        proof {
            lemma_pairs_map_len(self.pairs());
        }
        self.entries.len()
    }

    /// The entry at `index`: an identifier of the table with its description.
    pub fn entry(&self, index: usize) -> (pair: (&String, &String))
        requires
            self.wf(),
            index < self.pairs().len(),
        ensures
            (pair.0@, pair.1@) == self.pairs()[index as int],
            self@.contains_pair(pair.0@, pair.1@),
    {
        proof {
            lemma_pairs_map_value(self.pairs(), index as int);
        }
        (&self.entries[index].0, &self.entries[index].1)
    }
}

} // verus!
