//! Small verified containers keyed by tunnel identifier: an association
//! list viewed as a `Map`, and an identifier set viewed as a `Set`.  The
//! registry and the guard state are built on them.

use vstd::prelude::*;

verus! {

/// The map denoted by an entry list, later entries winning.
pub open spec fn map_of<T>(s: Seq<(i32, T)>) -> Map<i32, T>
    decreases s.len(),
{
    if s.len() == 0 {
        Map::empty()
    } else {
        map_of(s.drop_last()).insert(s.last().0, s.last().1)
    }
}

/// No key occurs twice in the entry list.
pub open spec fn unique_keys<T>(s: Seq<(i32, T)>) -> bool {
    forall|i: int, j: int| 0 <= i < j < s.len() ==> (#[trigger] s[i]).0 != (#[trigger] s[j]).0
}

pub proof fn lemma_map_of_contains<T>(s: Seq<(i32, T)>, k: i32)
    ensures
        map_of(s).contains_key(k) <==> exists|i: int| 0 <= i < s.len() && (#[trigger] s[i]).0 == k,
    decreases s.len(),
{
    if s.len() > 0 {
        lemma_map_of_contains(s.drop_last(), k);
        if s.last().0 == k {
            assert((s[s.len() - 1]).0 == k);
        } else if map_of(s).contains_key(k) {
            let i = choose|i: int| 0 <= i < s.drop_last().len() && (#[trigger] s.drop_last()[i]).0
                == k;
            assert((s[i]).0 == k);
        } else {
            if exists|i: int| 0 <= i < s.len() && (#[trigger] s[i]).0 == k {
                let i = choose|i: int| 0 <= i < s.len() && (#[trigger] s[i]).0 == k;
                assert(i < s.len() - 1);
                assert((s.drop_last()[i]).0 == k);
            }
        }
    }
}

pub proof fn lemma_map_of_index<T>(s: Seq<(i32, T)>, i: int)
    requires
        unique_keys(s),
        0 <= i < s.len(),
    ensures
        map_of(s).contains_key(s[i].0),
        map_of(s)[s[i].0] == s[i].1,
    decreases s.len(),
{
    if i == s.len() - 1 {
        lemma_map_of_contains(s, s[i].0);
    } else {
        assert(unique_keys(s.drop_last()));
        assert(s.drop_last()[i] == s[i]);
        lemma_map_of_index(s.drop_last(), i);
        assert(s[i].0 != s.last().0);
    }
}

pub proof fn lemma_map_of_remove<T>(s: Seq<(i32, T)>, i: int)
    requires
        unique_keys(s),
        0 <= i < s.len(),
    ensures
        map_of(s.remove(i)) == map_of(s).remove(s[i].0),
    decreases s.len(),
{
    let k = s[i].0;
    if i == s.len() - 1 {
        assert(s.remove(i) =~= s.drop_last());
        lemma_map_of_contains(s.drop_last(), k);
        if map_of(s.drop_last()).contains_key(k) {
            let j = choose|j: int| 0 <= j < s.drop_last().len() && (#[trigger] s.drop_last()[j]).0
                == k;
            assert((s[j]).0 == k);
            assert(false);
        }
        assert(map_of(s.drop_last()).remove(k) =~= map_of(s.drop_last()));
        assert(map_of(s).remove(k) =~= map_of(s.drop_last()));
    } else {
        assert(unique_keys(s.drop_last()));
        assert(s.drop_last()[i] == s[i]);
        lemma_map_of_remove(s.drop_last(), i);
        assert(s.remove(i).drop_last() =~= s.drop_last().remove(i));
        assert(s.remove(i).last() == s.last());
        assert(map_of(s.remove(i)) == map_of(s.drop_last().remove(i)).insert(
            s.last().0,
            s.last().1,
        ));
        assert(s[i].0 != s.last().0);
        assert(map_of(s.drop_last()).remove(k).insert(s.last().0, s.last().1) =~= map_of(
            s.drop_last(),
        ).insert(s.last().0, s.last().1).remove(k));
    }
}

/// An association list from tunnel identifier to a value, keys unique.
pub struct IdMap<T> {
    entries: Vec<(i32, T)>,
}

impl<T> IdMap<T> {
    /// The entry list itself, for contracts that speak of order.
    pub closed spec fn entries_view(&self) -> Seq<(i32, T)> {
        self.entries@
    }

    /// Keys are unique.
    pub open spec fn wf(&self) -> bool {
        unique_keys(self.entries_view())
    }

    /// The number of entries.
    pub open spec fn spec_len(&self) -> int {
        self.entries_view().len() as int
    }

    pub fn new() -> (r: IdMap<T>)
        ensures
            r.wf(),
            r@ == Map::<i32, T>::empty(),
            r.entries_view() == Seq::<(i32, T)>::empty(),
    {
        IdMap { entries: Vec::new() }
    }

    fn find_index(&self, id: i32) -> (r: Option<usize>)
        ensures
            match r {
                Some(i) => i < self.entries_view().len() && self.entries_view()[i as int].0 == id,
                None => forall|i: int|
                    0 <= i < self.entries_view().len() ==> (#[trigger] self.entries_view()[i]).0
                        != id,
            },
    {
        let mut i: usize = 0;
        while i < self.entries.len()
            invariant
                i <= self.entries@.len(),
                forall|j: int| 0 <= j < i ==> (#[trigger] self.entries@[j]).0 != id,
            decreases self.entries@.len() - i,
        {
            if self.entries[i].0 == id {
                return Some(i);
            }
            i = i + 1;
        }
        None
    }

    /// Whether an entry for `id` exists.
    pub fn contains_id(&self, id: i32) -> (r: bool)
        ensures
            r == self@.contains_key(id),
    {
        proof {
            lemma_map_of_contains(self.entries_view(), id);
        }
        match self.find_index(id) {
            Some(_) => true,
            None => false,
        }
    }

    /// The number of entries.
    pub fn len(&self) -> (r: usize)
        ensures
            r == self.spec_len(),
    {
        self.entries.len()
    }

    /// The identifier of the entry at position `i`.
    pub fn key_at(&self, i: usize) -> (r: i32)
        requires
            i < self.spec_len(),
        ensures
            r == self.entries_view()[i as int].0,
    {
        self.entries[i].0
    }

    /// The value of the entry at position `i`.
    pub fn value_at(&self, i: usize) -> (r: &T)
        requires
            self.wf(),
            i < self.spec_len(),
        ensures
            *r == self.entries_view()[i as int].1,
            self@.contains_key(self.entries_view()[i as int].0),
            self@[self.entries_view()[i as int].0] == *r,
    {
        proof {
            lemma_map_of_index(self.entries_view(), i as int);
        }
        &self.entries[i].1
    }

    /// Inserts an entry unless the identifier is already present.
    pub fn try_insert(&mut self, id: i32, value: T) -> (r: bool)
        requires
            old(self).wf(),
        ensures
            final(self).wf(),
            r == !old(self)@.contains_key(id),
            r ==> final(self)@ == old(self)@.insert(id, value),
            !r ==> final(self)@ == old(self)@ && final(self).entries_view() == old(
                self).entries_view(),
    {
        proof {
            lemma_map_of_contains(self.entries_view(), id);
        }
        match self.find_index(id) {
            Some(_) => false,
            None => {
                self.entries.push((id, value));
                proof {
                    assert(self.entries@.drop_last() =~= old(self).entries_view());
                }
                true
            },
        }
    }

    /// Inserts an entry, replacing any entry with the same identifier.
    pub fn insert(&mut self, id: i32, value: T)
        requires
            old(self).wf(),
        ensures
            final(self).wf(),
            final(self)@ == old(self)@.insert(id, value),
    {
        proof {
            lemma_map_of_contains(self.entries_view(), id);
        }
        match self.find_index(id) {
            Some(i) => {
                proof {
                    lemma_map_of_remove(self.entries_view(), i as int);
                }
                let _ = self.entries.remove(i);
                let ghost mid = self.entries@;
                self.entries.push((id, value));
                proof {
                    assert(forall|a: int, b: int|
                        0 <= a < b < mid.len() ==> (#[trigger] mid[a]).0 != (#[trigger] mid[b]).0);
                    lemma_map_of_contains(mid, id);
                    assert(self.entries@.drop_last() =~= mid);
                    assert(map_of(self.entries@) == map_of(mid).insert(id, value));
                    assert(map_of(mid) == map_of(old(self).entries_view()).remove(id));
                    assert(map_of(mid).insert(id, value) =~= map_of(
                        old(self).entries_view(),
                    ).insert(id, value));
                }
            },
            None => {
                self.entries.push((id, value));
                proof {
                    assert(self.entries@.drop_last() =~= old(self).entries_view());
                }
            },
        }
    }

    /// Removes the entry for `id`, returning its value.
    pub fn remove_id(&mut self, id: i32) -> (r: Option<T>)
        requires
            old(self).wf(),
        ensures
            final(self).wf(),
            match r {
                Some(v) => old(self)@.contains_key(id) && v == old(self)@[id] && final(self)@
                    == old(self)@.remove(id),
                None => !old(self)@.contains_key(id) && final(self)@ == old(self)@
                    && final(self).entries_view() == old(self).entries_view(),
            },
    {
        proof {
            lemma_map_of_contains(self.entries_view(), id);
        }
        match self.find_index(id) {
            Some(i) => {
                proof {
                    lemma_map_of_index(self.entries_view(), i as int);
                    lemma_map_of_remove(self.entries_view(), i as int);
                }
                let e = self.entries.remove(i);
                Some(e.1)
            },
            None => None,
        }
    }

    /// Removes every entry.
    pub fn clear(&mut self)
        ensures
            final(self).wf(),
            final(self)@ == Map::<i32, T>::empty(),
            final(self).entries_view() == Seq::<(i32, T)>::empty(),
    {
        self.entries.clear();
    }

    /// The identifiers of all entries, in list order.
    pub fn keys(&self) -> (r: Vec<i32>)
        ensures
            r@.len() == self.entries_view().len(),
            forall|i: int| 0 <= i < r@.len() ==> r@[i] == self.entries_view()[i].0,
    {
        let mut r: Vec<i32> = Vec::new();
        let mut i: usize = 0;
        while i < self.entries.len()
            invariant
                i <= self.entries@.len(),
                r@.len() == i,
                forall|j: int| 0 <= j < i ==> r@[j] == self.entries@[j].0,
            decreases self.entries@.len() - i,
        {
            r.push(self.entries[i].0);
            i = i + 1;
        }
        r
    }
}

/// The map view of an `IdMap` is the map its entry list denotes.
pub proof fn lemma_idmap_view<T>(m: &IdMap<T>)
    ensures
        m@ == map_of(m.entries_view()),
{
}

impl<T> View for IdMap<T> {
    type V = Map<i32, T>;

    closed spec fn view(&self) -> Map<i32, T> {
        map_of(self.entries@)
    }
}

/// A set of tunnel identifiers.
pub struct IdSet {
    ids: Vec<i32>,
}

impl IdSet {
    pub closed spec fn ids_view(&self) -> Seq<i32> {
        self.ids@
    }

    /// No identifier occurs twice.
    pub open spec fn wf(&self) -> bool {
        forall|i: int, j: int|
            0 <= i < j < self.ids_view().len() ==> self.ids_view()[i] != self.ids_view()[j]
    }

    pub fn new() -> (r: IdSet)
        ensures
            r.wf(),
            r@ == Set::<i32>::empty(),
    {
        let r = IdSet { ids: Vec::new() };
        proof {
            assert(r@ =~= Set::<i32>::empty());
        }
        r
    }

    fn find_index(&self, id: i32) -> (r: Option<usize>)
        ensures
            match r {
                Some(i) => i < self.ids_view().len() && self.ids_view()[i as int] == id,
                None => !self.ids_view().contains(id),
            },
    {
        let mut i: usize = 0;
        while i < self.ids.len()
            invariant
                i <= self.ids@.len(),
                forall|j: int| 0 <= j < i ==> self.ids@[j] != id,
            decreases self.ids@.len() - i,
        {
            if self.ids[i] == id {
                return Some(i);
            }
            i = i + 1;
        }
        None
    }

    /// Whether `id` is in the set.
    pub fn contains_id(&self, id: i32) -> (r: bool)
        ensures
            r == self@.contains(id),
    {
        match self.find_index(id) {
            Some(_) => true,
            None => false,
        }
    }

    /// Adds `id` to the set.
    pub fn insert_id(&mut self, id: i32)
        requires
            old(self).wf(),
        ensures
            final(self).wf(),
            final(self)@ == old(self)@.insert(id),
    {
        match self.find_index(id) {
            Some(_) => {
                proof {
                    assert(final(self)@ =~= old(self)@.insert(id));
                }
            },
            None => {
                self.ids.push(id);
                proof {
                    let olds = old(self).ids_view();
                    let news = self.ids@;
                    assert(news =~= olds.push(id));
                    assert(news[olds.len() as int] == id);
                    assert forall|x: i32| news.contains(x) implies olds.contains(x) || x == id by {
                        let j = choose|j: int| 0 <= j < news.len() && news[j] == x;
                        if j < olds.len() {
                            assert(olds[j] == x);
                        }
                    }
                    assert forall|x: i32| olds.contains(x) implies news.contains(x) by {
                        let j = choose|j: int| 0 <= j < olds.len() && olds[j] == x;
                        assert(news[j] == x);
                    }
                    assert(final(self)@ =~= old(self)@.insert(id));
                }
            },
        }
    }

    /// Removes `id` from the set.
    pub fn remove_id(&mut self, id: i32)
        requires
            old(self).wf(),
        ensures
            final(self).wf(),
            final(self)@ == old(self)@.remove(id),
    {
        match self.find_index(id) {
            Some(i) => {
                let _ = self.ids.remove(i);
                proof {
                    let olds = old(self).ids_view();
                    let news = self.ids@;
                    assert(news =~= olds.remove(i as int));
                    assert forall|x: i32| news.contains(x) implies olds.contains(x) && x != id by {
                        let j = choose|j: int| 0 <= j < news.len() && news[j] == x;
                        if j < i {
                            assert(olds[j] == x);
                        } else {
                            assert(olds[j + 1] == x);
                        }
                    }
                    assert forall|x: i32| olds.contains(x) && x != id implies news.contains(x) by {
                        let j = choose|j: int| 0 <= j < olds.len() && olds[j] == x;
                        if j < i {
                            assert(news[j] == x);
                        } else {
                            assert(j > i);
                            assert(news[j - 1] == x);
                        }
                    }
                    assert(final(self)@ =~= old(self)@.remove(id));
                }
            },
            None => {
                proof {
                    assert(final(self)@ =~= old(self)@.remove(id));
                }
            },
        }
    }

    /// Empties the set.
    pub fn clear(&mut self)
        ensures
            final(self).wf(),
            final(self)@ == Set::<i32>::empty(),
    {
        self.ids.clear();
        proof {
            assert(final(self)@ =~= Set::<i32>::empty());
        }
    }
}

impl View for IdSet {
    type V = Set<i32>;

    closed spec fn view(&self) -> Set<i32> {
        Set::new(|k: i32| self.ids@.contains(k))
    }
}

} // verus!
