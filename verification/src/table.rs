//! Tables of header names and values in which no name occurs twice.

use vstd::prelude::*;
use crate::text::{same_text, text_pairs};

verus! {

/// What a list of pairs holds when a later pair replaces an earlier one of the
/// same name.
pub open spec fn collected(pairs: Seq<(Seq<char>, Seq<char>)>) -> Map<Seq<char>, Seq<char>>
    decreases pairs.len(),
{
    if pairs.len() == 0 {
        Map::empty()
    } else {
        collected(pairs.drop_last()).insert(pairs.last().0, pairs.last().1)
    }
}

/// No name occurs twice.
pub open spec fn distinct_names(pairs: Seq<(Seq<char>, Seq<char>)>) -> bool {
    forall|i: int, j: int|
        0 <= i < j < pairs.len() ==> (#[trigger] pairs[i]).0 != (#[trigger] pairs[j]).0
}

/// A table from header names to values.
pub struct HeaderTable {
    pairs: Vec<(String, String)>,
}

impl View for HeaderTable {
    type V = Map<Seq<char>, Seq<char>>;

    open spec fn view(&self) -> Map<Seq<char>, Seq<char>> {
        collected(self.entries())
    }
}

proof fn lemma_collected_member(pairs: Seq<(Seq<char>, Seq<char>)>, name: Seq<char>)
    ensures
        collected(pairs).contains_key(name) <==> exists|i: int|
            0 <= i < pairs.len() && (#[trigger] pairs[i]).0 == name,
    decreases pairs.len(),
{
    if pairs.len() > 0 {
        let front = pairs.drop_last();
        lemma_collected_member(front, name);
        if collected(front).contains_key(name) {
            let i = choose|i: int| 0 <= i < front.len() && (#[trigger] front[i]).0 == name;
            assert(pairs[i].0 == name);
        }
        if exists|i: int| 0 <= i < pairs.len() && (#[trigger] pairs[i]).0 == name {
            let i = choose|i: int| 0 <= i < pairs.len() && (#[trigger] pairs[i]).0 == name;
            if i < front.len() {
                assert(front[i].0 == name);
            }
        }
        if pairs.last().0 == name {
            assert(pairs[pairs.len() - 1].0 == name);
        }
    }
}

proof fn lemma_collected_value(pairs: Seq<(Seq<char>, Seq<char>)>, i: int)
    requires
        distinct_names(pairs),
        0 <= i < pairs.len(),
    ensures
        collected(pairs).contains_key(pairs[i].0),
        collected(pairs)[pairs[i].0] == pairs[i].1,
    decreases pairs.len(),
{
    if i < pairs.len() - 1 {
        let front = pairs.drop_last();
        assert(distinct_names(front)) by {
            assert forall|a: int, b: int| 0 <= a < b < front.len() implies (#[trigger] front[a]).0 != (
            #[trigger] front[b]).0 by {
                assert(front[a] == pairs[a] && front[b] == pairs[b]);
            }
        }
        lemma_collected_value(front, i);
        assert(pairs[i].0 != pairs[pairs.len() - 1].0);
    }
}

proof fn lemma_collected_update(pairs: Seq<(Seq<char>, Seq<char>)>, i: int, value: Seq<char>)
    requires
        distinct_names(pairs),
        0 <= i < pairs.len(),
    ensures
        collected(pairs.update(i, (pairs[i].0, value))) =~= collected(pairs).insert(
            pairs[i].0,
            value,
        ),
        distinct_names(pairs.update(i, (pairs[i].0, value))),
    decreases pairs.len(),
{
    let next = pairs.update(i, (pairs[i].0, value));
    let front = pairs.drop_last();
    assert forall|a: int, b: int| 0 <= a < b < next.len() implies (#[trigger] next[a]).0 != (
    #[trigger] next[b]).0 by {
        assert(next[a].0 == pairs[a].0 && next[b].0 == pairs[b].0);
    }
    if i < pairs.len() - 1 {
        assert(distinct_names(front)) by {
            assert forall|a: int, b: int| 0 <= a < b < front.len() implies (#[trigger] front[a]).0 != (
            #[trigger] front[b]).0 by {
                assert(front[a] == pairs[a] && front[b] == pairs[b]);
            }
        }
        lemma_collected_update(front, i, value);
        assert(next.drop_last() =~= front.update(i, (pairs[i].0, value)));
        assert(pairs[i].0 != pairs[pairs.len() - 1].0);
    } else {
        assert(next.drop_last() =~= front);
    }
}

impl HeaderTable {
    /// The pairs of the table in the order in which they are walked.
    pub closed spec fn entries(&self) -> Seq<(Seq<char>, Seq<char>)> {
        text_pairs(self.pairs@)
    }

    #[verifier::type_invariant]
    spec fn names_are_distinct(self) -> bool {
        distinct_names(self.entries())
    }

    /// An empty table.
    pub fn new() -> (table: HeaderTable)
        ensures
            table@ == Map::<Seq<char>, Seq<char>>::empty(),
            table.entries() == Seq::<(Seq<char>, Seq<char>)>::empty(),
    {
        let pairs: Vec<(String, String)> = Vec::new();
        assert(text_pairs(pairs@) =~= Seq::empty());
        HeaderTable { pairs }
    }

    /// How many names the table holds; none of them occurs twice.
    pub fn len(&self) -> (n: usize)
        ensures
            n == self.entries().len(),
            distinct_names(self.entries()),
    {
        proof {
            use_type_invariant(self);
        }
        self.pairs.len()
    }

    /// The pair at a position of the walk.
    pub fn entry(&self, i: usize) -> (pair: (&str, &str))
        requires
            i < self.entries().len(),
        ensures
            (pair.0@, pair.1@) == self.entries()[i as int],
    {
        (self.pairs[i].0.as_str(), self.pairs[i].1.as_str())
    }

    fn position(&self, name: &str) -> (at: Option<usize>)
        ensures
            match at {
                Some(i) => i < self.entries().len() && self.entries()[i as int].0 == name@,
                None => forall|i: int|
                    0 <= i < self.entries().len() ==> (#[trigger] self.entries()[i]).0 != name@,
            },
    {
        let mut i: usize = 0;
        while i < self.pairs.len()
            invariant
                i <= self.pairs@.len(),
                forall|j: int| 0 <= j < i ==> (#[trigger] self.entries()[j]).0 != name@,
            decreases self.pairs@.len() - i,
        {
            if same_text(self.pairs[i].0.as_str(), name) {
                return Some(i);
            }
            i = i + 1;
        }
        None
    }

    /// The value under a name.
    pub fn get(&self, name: &str) -> (value: Option<&str>)
        ensures
            match value {
                Some(v) => self@.contains_key(name@) && self@[name@] == v@,
                None => !self@.contains_key(name@),
            },
    {
        proof {
            use_type_invariant(self);
            lemma_collected_member(self.entries(), name@);
        }
        match self.position(name) {
            Some(i) => {
                proof {
                    lemma_collected_value(self.entries(), i as int);
                }
                Some(self.pairs[i].1.as_str())
            },
            None => None,
        }
    }

    /// Puts a value under a name, in place of the value that was there.
    pub fn insert(&mut self, name: String, value: String)
        ensures
            final(self)@ == old(self)@.insert(name@, value@),
    {
        proof {
            use_type_invariant(&*self);
        }
        let ghost before = self.entries();
        let at = self.position(name.as_str());
        let mut pairs: Vec<(String, String)> = Vec::new();
        std::mem::swap(&mut pairs, &mut self.pairs);
        match at {
            Some(i) => {
                proof {
                    lemma_collected_update(before, i as int, value@);
                }
                pairs.set(i, (name, value));
                assert(text_pairs(pairs@) =~= before.update(i as int, (name@, value@)));
            },
            None => {
                pairs.push((name, value));
                assert(text_pairs(pairs@) =~= before.push((name@, value@)));
                assert(text_pairs(pairs@).drop_last() =~= before);
            },
        }
        self.pairs = pairs;
    }

    /// Takes over every pair of another table, in place of those of the same
    /// name.
    pub fn extend(&mut self, other: &HeaderTable)
        ensures
            final(self)@ == old(self)@.union_prefer_right(other@),
            distinct_names(final(self).entries()),
    {
        let mut i: usize = 0;
        assert(self@ =~= old(self)@.union_prefer_right(collected(other.entries().take(0))));
        while i < other.pairs.len()
            invariant
                i <= other.pairs@.len(),
                self@ == old(self)@.union_prefer_right(collected(other.entries().take(i as int))),
            decreases other.pairs@.len() - i,
        {
            let name = other.pairs[i].0.clone();
            let value = other.pairs[i].1.clone();
            proof {
                assert(other.entries().take(i + 1).drop_last() =~= other.entries().take(i as int));
            }
            self.insert(name, value);
            assert(self@ =~= old(self)@.union_prefer_right(
                collected(other.entries().take(i + 1)),
            ));
            i = i + 1;
        }
        assert(other.entries().take(i as int) =~= other.entries());
        proof {
            use_type_invariant(&*self);
        }
    }

    /// Collects pairs into a table, a later pair in place of an earlier one of
    /// the same name.
    pub fn collect(pairs: &[(String, String)]) -> (table: HeaderTable)
        ensures
            table@ == collected(text_pairs(pairs@)),
    {
        let mut table = HeaderTable::new();
        let mut i: usize = 0;
        assert(text_pairs(pairs@).take(0) =~= Seq::empty());
        while i < pairs.len()
            invariant
                i <= pairs@.len(),
                table@ == collected(text_pairs(pairs@).take(i as int)),
            decreases pairs@.len() - i,
        {
            assert(text_pairs(pairs@).take(i + 1).drop_last() =~= text_pairs(pairs@).take(i as int));
            table.insert(pairs[i].0.clone(), pairs[i].1.clone());
            i = i + 1;
        }
        assert(text_pairs(pairs@).take(i as int) =~= text_pairs(pairs@));
        table
    }
}

impl Clone for HeaderTable {
    fn clone(&self) -> (copy: HeaderTable)
        ensures
            copy@ == self@,
            copy.entries() == self.entries(),
    {
        proof {
            use_type_invariant(self);
        }
        let mut pairs: Vec<(String, String)> = Vec::new();
        let mut i: usize = 0;
        while i < self.pairs.len()
            invariant
                i <= self.pairs@.len(),
                text_pairs(pairs@) == self.entries().take(i as int),
            decreases self.pairs@.len() - i,
        {
            let ghost before = text_pairs(pairs@);
            pairs.push((self.pairs[i].0.clone(), self.pairs[i].1.clone()));
            assert(text_pairs(pairs@) =~= before.push(self.entries()[i as int]));
            i = i + 1;
            assert(text_pairs(pairs@) =~= self.entries().take(i as int));
        }
        assert(self.entries().take(i as int) =~= self.entries());
        HeaderTable { pairs }
    }
}

/// A list of pairs gives a name the value of the last pair of that name, and
/// holds no other names.
pub proof fn law_last_pairs_win(pairs: Seq<(Seq<char>, Seq<char>)>, name: Seq<char>)
    ensures
        collected(pairs).contains_key(name) <==> exists|i: int|
            0 <= i < pairs.len() && (#[trigger] pairs[i]).0 == name,
        forall|i: int|
            0 <= i < pairs.len() && (#[trigger] pairs[i]).0 == name && (forall|j: int|
                i < j < pairs.len() ==> (#[trigger] pairs[j]).0 != name) ==> collected(pairs)[name]
                == pairs[i].1,
    decreases pairs.len(),
{
    lemma_collected_member(pairs, name);
    if pairs.len() > 0 {
        let front = pairs.drop_last();
        law_last_pairs_win(front, name);
        assert forall|i: int|
            0 <= i < pairs.len() && (#[trigger] pairs[i]).0 == name && (forall|j: int|
                i < j < pairs.len() ==> (#[trigger] pairs[j]).0 != name) implies collected(
            pairs,
        )[name] == pairs[i].1 by {
            if i < front.len() {
                assert(pairs[pairs.len() - 1].0 != name);
                assert(front[i].0 == name);
                assert forall|j: int| i < j < front.len() implies (#[trigger] front[j]).0 != name by {
                    assert(pairs[j].0 != name);
                }
                lemma_collected_member(front, name);
            }
        }
    }
}

} // verus!
