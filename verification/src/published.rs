//! The Published-Output Map: the process's record of the last markup block
//! written per workspace ordinal, used by the synchronizer to suppress
//! redundant writes. Owned by the session manager; mutated only during a
//! refresh pass.

use vstd::prelude::*;

verus! {

/// No two entries share an ordinal.
pub open spec fn keys_distinct(s: Seq<(i32, String)>) -> bool {
    forall|i: int, j: int| 0 <= i < j < s.len() ==> s[i].0 != s[j].0
}

/// The mapping an entry sequence represents: each ordinal to the markup last
/// recorded for it, later entries taking precedence.
pub open spec fn map_of(s: Seq<(i32, String)>) -> Map<int, Seq<char>>
    decreases s.len(),
{
    if s.len() == 0 {
        Map::empty()
    } else {
        map_of(s.drop_last()).insert(s.last().0 as int, s.last().1@)
    }
}

proof fn lemma_map_of_contains(s: Seq<(i32, String)>, n: int)
    ensures
        map_of(s).contains_key(n) <==> (exists|j: int| 0 <= j < s.len() && s[j].0 == n),
    decreases s.len(),
{
    if s.len() > 0 {
        lemma_map_of_contains(s.drop_last(), n);
        if map_of(s).contains_key(n) {
            if n != s.last().0 as int {
                let j = choose|j: int|
                    0 <= j < s.drop_last().len() && s.drop_last()[j].0 == n;
                assert(s[j].0 == n);
            } else {
                assert(s[s.len() - 1].0 == n);
            }
        }
        if exists|j: int| 0 <= j < s.len() && s[j].0 == n {
            let j = choose|j: int| 0 <= j < s.len() && s[j].0 == n;
            if j < s.len() - 1 {
                assert(s.drop_last()[j].0 == n);
            }
        }
    }
}

proof fn lemma_map_of_get(s: Seq<(i32, String)>, j: int)
    requires
        keys_distinct(s),
        0 <= j < s.len(),
    ensures
        map_of(s).contains_key(s[j].0 as int),
        map_of(s)[s[j].0 as int] == s[j].1@,
    decreases s.len(),
{
    if j < s.len() - 1 {
        lemma_map_of_get(s.drop_last(), j);
        assert(s.drop_last()[j] == s[j]);
    }
}

proof fn lemma_map_of_remove(s: Seq<(i32, String)>, j: int)
    requires
        keys_distinct(s),
        0 <= j < s.len(),
    ensures
        map_of(s.remove(j)) == map_of(s).remove(s[j].0 as int),
    decreases s.len(),
{
    let k = s[j].0 as int;
    if j == s.len() - 1 {
        lemma_map_of_contains(s.drop_last(), k);
        assert(s.remove(j) =~= s.drop_last());
        assert(map_of(s.remove(j)) =~= map_of(s).remove(k));
    } else {
        lemma_map_of_remove(s.drop_last(), j);
        assert(s.remove(j).drop_last() =~= s.drop_last().remove(j));
        assert(s.remove(j).last() == s.last());
        assert(map_of(s.remove(j)) == map_of(s.drop_last().remove(j)).insert(
            s.last().0 as int,
            s.last().1@,
        ));
        assert(map_of(s.remove(j)) =~= map_of(s).remove(k));
    }
}

/// The record of the markup last published for each workspace ordinal.
pub struct PublishedOutputs {
    entries: Vec<(i32, String)>,
}

impl View for PublishedOutputs {
    type V = Map<int, Seq<char>>;

    closed spec fn view(&self) -> Map<int, Seq<char>> {
        map_of(self.entries@)
    }
}

impl PublishedOutputs {
    /// Validity of the record: one entry per ordinal. Established by [`Self::new`]
    /// and preserved by every method.
    pub closed spec fn wf(&self) -> bool {
        keys_distinct(self.entries@)
    }

    /// An empty record: nothing published yet.
    pub fn new() -> (published: Self)
        ensures
            published.wf(),
            published@ == Map::<int, Seq<char>>::empty(),
    {
        PublishedOutputs { entries: Vec::new() }
    }

    fn position(&self, num: i32) -> (found: Option<usize>)
        ensures
            match found {
                Some(j) => j < self.entries@.len() && self.entries@[j as int].0 == num,
                None => forall|j: int|
                    0 <= j < self.entries@.len() ==> self.entries@[j].0 != num,
            },
    {
        let mut j: usize = 0;
        while j < self.entries.len()
            invariant
                0 <= j <= self.entries@.len(),
                forall|k: int| 0 <= k < j ==> self.entries@[k].0 != num,
            decreases self.entries@.len() - j,
        {
            if self.entries[j].0 == num {
                return Some(j);
            }
            j += 1;
        }
        None
    }

    /// The markup last published for `num`, if any was.
    pub fn get<'a>(&'a self, num: i32) -> (found: Option<&'a String>)
        requires
            self.wf(),
        ensures
            match found {
                Some(text) => self@.contains_key(num as int) && text@ == self@[num as int],
                None => !self@.contains_key(num as int),
            },
    {
        proof {
            lemma_map_of_contains(self.entries@, num as int);
        }
        match self.position(num) {
            Some(j) => {
                proof {
                    lemma_map_of_get(self.entries@, j as int);
                }
                Some(&self.entries[j].1)
            },
            None => None,
        }
    }

    /// Records `text` as the markup now published for `num`.
    pub fn set(&mut self, num: i32, text: String)
        requires
            old(self).wf(),
        ensures
            final(self).wf(),
            final(self)@ == old(self)@.insert(num as int, text@),
    {
        let ghost s0 = self.entries@;
        match self.position(num) {
            Some(j) => {
                proof {
                    lemma_map_of_remove(s0, j as int);
                }
                self.entries.remove(j);
                proof {
                    assert(keys_distinct(self.entries@));
                    assert(forall|k: int|
                        0 <= k < self.entries@.len() ==> #[trigger] self.entries@[k].0 != num)
                        by {
                        assert(forall|k: int|
                            0 <= k < self.entries@.len() ==> (self.entries@[k] == s0[k]
                                || self.entries@[k] == s0[k + 1]));
                    }
                }
            },
            None => {},
        }
        let ghost s1 = self.entries@;
        self.entries.push((num, text));
        proof {
            assert(self.entries@.drop_last() =~= s1);
            assert(self.entries@.last() == (num, text));
            assert(map_of(self.entries@) =~= old(self)@.insert(num as int, text@));
        }
    }

    /// Forgets everything: after an output-directory reset, nothing counts
    /// as published any more.
    pub fn clear(&mut self)
        ensures
            final(self).wf(),
            final(self)@ == Map::<int, Seq<char>>::empty(),
    {
        self.entries = Vec::new();
    }

    /// Forgets the record for `num`; a no-op when nothing is recorded.
    pub fn remove(&mut self, num: i32)
        requires
            old(self).wf(),
        ensures
            final(self).wf(),
            final(self)@ == old(self)@.remove(num as int),
    {
        proof {
            lemma_map_of_contains(self.entries@, num as int);
        }
        let ghost s0 = self.entries@;
        match self.position(num) {
            Some(j) => {
                proof {
                    lemma_map_of_remove(s0, j as int);
                }
                self.entries.remove(j);
            },
            None => {
                proof {
                    assert(map_of(s0) =~= map_of(s0).remove(num as int));
                }
            },
        }
    }
}

} // verus!
