use vstd::prelude::*;

verus! {

/// A map keyed by names, kept as a list of entries with distinct names.
/// Replacing the value under a name keeps its entry where it stands.
#[derive(Clone)]
pub struct NameMap<V> {
    entries: Vec<(String, V)>,
    model: Ghost<Map<Seq<char>, V>>,
}

impl<V> View for NameMap<V> {
    type V = Map<Seq<char>, V>;

    closed spec fn view(&self) -> Map<Seq<char>, V> {
        self.model@
    }
}

impl<V> NameMap<V> {
    /// The entries, in the order in which their names were first inserted.
    pub closed spec fn entries(&self) -> Seq<(String, V)> {
        self.entries@
    }

    /// The entries as (name, value) pairs, in order.
    pub closed spec fn fields(&self) -> Seq<(Seq<char>, V)> {
        self.entries@.map_values(|e: (String, V)| (e.0@, e.1))
    }

    /// What well-formedness gives callers: distinct names in `fields`, and the
    /// map holding exactly the pairs of `fields`.
    pub proof fn lemma_fields(&self)
        requires
            self.wf(),
        ensures
            forall|i: int, j: int|
                0 <= i < j < self.fields().len() ==> self.fields()[i].0 != self.fields()[j].0,
            forall|i: int|
                0 <= i < self.fields().len() ==> #[trigger] self@.contains_key(self.fields()[i].0)
                    && self@[self.fields()[i].0] == self.fields()[i].1,
            forall|k: Seq<char>|
                #[trigger] self@.contains_key(k) ==> exists|i: int|
                    0 <= i < self.fields().len() && #[trigger] self.fields()[i].0 == k,
    {
        let f = self.fields();
        assert forall|i: int| 0 <= i < f.len() implies #[trigger] self@.contains_key(f[i].0)
            && self@[f[i].0] == f[i].1 by {
            assert(self.model@.contains_key(self.entries@[i].0@));
        }
        assert forall|k: Seq<char>| #[trigger] self@.contains_key(k) implies exists|i: int|
            0 <= i < f.len() && #[trigger] f[i].0 == k by {
            let i = choose|i: int| 0 <= i < self.entries@.len() && #[trigger] self.entries@[i].0@ == k;
            assert(f[i].0 == k);
        }
    }

    pub fn len(&self) -> (r: usize)
        ensures
            r == self.fields().len(),
    {
        self.entries.len()
    }

    /// The name of the entry at position `i`.
    pub fn name_at(&self, i: usize) -> (r: &String)
        requires
            i < self.fields().len(),
        ensures
            r@ == self.fields()[i as int].0,
    {
        &self.entries[i].0
    }

    /// The value of the entry at position `i`.
    pub fn value_at(&self, i: usize) -> (r: &V)
        requires
            i < self.fields().len(),
        ensures
            *r == self.fields()[i as int].1,
    {
        &self.entries[i].1
    }

    /// Entries have distinct names, and the map is exactly what they hold.
    pub closed spec fn wf(&self) -> bool {
        let s = self.entries@;
        &&& forall|i: int, j: int| 0 <= i < j < s.len() ==> s[i].0@ != s[j].0@
        &&& forall|i: int|
            0 <= i < s.len() ==> #[trigger] self.model@.contains_key(s[i].0@) && self.model@[s[i].0@]
                == s[i].1
        &&& forall|k: Seq<char>|
            #[trigger] self.model@.contains_key(k) ==> exists|i: int|
                0 <= i < s.len() && #[trigger] s[i].0@ == k
    }

    pub fn new() -> (r: Self)
        ensures
            r.wf(),
            r@ == Map::<Seq<char>, V>::empty(),
            r.fields() == Seq::<(Seq<char>, V)>::empty(),
    {
        let r = NameMap { entries: Vec::new(), model: Ghost(Map::empty()) };
        assert(r.fields() =~= Seq::<(Seq<char>, V)>::empty());
        r
    }

    /// The position of the entry named `name`, if there is one.
    fn position(&self, name: &String) -> (r: Option<usize>)
        requires
            self.wf(),
        ensures
            match r {
                Some(i) => i < self.entries@.len() && self.entries@[i as int].0@ == name@,
                None => !self@.contains_key(name@),
            },
    {
        let mut i: usize = 0;
        while i < self.entries.len()
            invariant
                self.wf(),
                i <= self.entries@.len(),
                forall|j: int| 0 <= j < i ==> self.entries@[j].0@ != name@,
            decreases self.entries@.len() - i,
        {
            if self.entries[i].0 == *name {
                return Some(i);
            }
            i = i + 1;
        }
        None
    }

    pub fn contains(&self, name: &str) -> (r: bool)
        requires
            self.wf(),
        ensures
            r == self@.contains_key(name@),
    {
        let key = name.to_owned();
        match self.position(&key) {
            Some(i) => true,
            None => false,
        }
    }

    /// The value stored under `name`.
    pub fn get(&self, name: &str) -> (r: Option<&V>)
        requires
            self.wf(),
        ensures
            match r {
                Some(v) => self@.contains_key(name@) && *v == self@[name@],
                None => !self@.contains_key(name@),
            },
    {
        let key = name.to_owned();
        match self.position(&key) {
            Some(i) => {
                assert(self.model@.contains_key(self.entries@[i as int].0@));
                Some(&self.entries[i].1)
            },
            None => None,
        }
    }

    /// Stores `value` under `name`, replacing what was there before.
    pub fn insert(&mut self, name: &str, value: V)
        requires
            old(self).wf(),
        ensures
            final(self).wf(),
            final(self)@ == old(self)@.insert(name@, value),
            old(self)@.contains_key(name@) ==> exists|i: int|
                0 <= i < old(self).fields().len() && old(self).fields()[i].0 == name@
                    && final(self).fields() == old(self).fields().update(i, (name@, value)),
            !old(self)@.contains_key(name@) ==> final(self).fields() == old(self).fields().push(
                (name@, value),
            ),
    {
        let name = name.to_owned();
        let ghost key = name@;
        let ghost s0 = self.entries@;
        let ghost target = self.model@.insert(key, value);
        match self.position(&name) {
            Some(i) => {
                self.entries.set(i, (name, value));
                self.model = Ghost(target);
                let ghost s = self.entries@;
                assert(old(self).model@.contains_key(s0[i as int].0@));
                assert(self.fields() =~= old(self).fields().update(i as int, (key, value)));
                assert forall|a: int, b: int| 0 <= a < b < s.len() implies s[a].0@ != s[b].0@ by {
                    assert(s[a].0@ == s0[a].0@ && s[b].0@ == s0[b].0@);
                }
                assert forall|j: int| 0 <= j < s.len() implies #[trigger] self.model@.contains_key(
                    s[j].0@) && self.model@[s[j].0@] == s[j].1 by {
                    if j != i {
                        assert(old(self).model@.contains_key(s0[j].0@));
                    }
                }
                assert forall|k: Seq<char>| #[trigger] self.model@.contains_key(k) implies exists|
                    j: int,
                | 0 <= j < s.len() && #[trigger] s[j].0@ == k by {
                    if k != key {
                        let j = choose|j: int| 0 <= j < s0.len() && #[trigger] s0[j].0@ == k;
                        assert(s[j].0@ == k);
                    } else {
                        assert(s[i as int].0@ == k);
                    }
                }
            },
            None => {
                self.entries.push((name, value));
                self.model = Ghost(target);
                let ghost s = self.entries@;
                assert(self.fields() =~= old(self).fields().push((key, value)));
                let ghost n = s0.len() as int;
                assert forall|j: int| 0 <= j < s.len() implies #[trigger] self.model@.contains_key(
                    s[j].0@) && self.model@[s[j].0@] == s[j].1 by {
                    if j != n {
                        assert(old(self).model@.contains_key(s0[j].0@));
                    }
                }
                assert forall|k: Seq<char>| #[trigger] self.model@.contains_key(k) implies exists|
                    j: int,
                | 0 <= j < s.len() && #[trigger] s[j].0@ == k by {
                    if k != key {
                        let j = choose|j: int| 0 <= j < s0.len() && #[trigger] s0[j].0@ == k;
                        assert(s[j].0@ == k);
                    } else {
                        assert(s[n].0@ == k);
                    }
                }
                assert forall|a: int, b: int| 0 <= a < b < s.len() implies s[a].0@ != s[b].0@ by {
                    if b == n {
                        assert(old(self).model@.contains_key(s0[a].0@));
                    }
                }
            },
        }
    }

    /// Takes out the entry named `name`, if there is one, and returns its value.
    /// The other entries keep their order.
    pub fn remove(&mut self, name: &str) -> (r: Option<V>)
        requires
            old(self).wf(),
        ensures
            final(self).wf(),
            final(self)@ == old(self)@.remove(name@),
            match r {
                Some(v) => old(self)@.contains_key(name@) && v == old(self)@[name@] && exists|i: int|
                    0 <= i < old(self).fields().len() && old(self).fields()[i].0 == name@
                        && final(self).fields() == old(self).fields().remove(i),
                None => !old(self)@.contains_key(name@) && final(self).fields() == old(
                    self,
                ).fields(),
            },
    {
        let key = name.to_owned();
        match self.position(&key) {
            Some(i) => {
                let ghost s0 = self.entries@;
                proof {
                    assert(self.model@.contains_key(s0[i as int].0@));
                }
                let (_, v) = self.entries.remove(i);
                self.model = Ghost(old(self).model@.remove(key@));
                let ghost s = self.entries@;
                assert(s =~= s0.remove(i as int));
                assert(self.fields() =~= old(self).fields().remove(i as int));
                assert forall|a: int, b: int| 0 <= a < b < s.len() implies s[a].0@ != s[b].0@ by {
                    if a < i {
                        if b >= i {
                            assert(s[b] == s0[b + 1]);
                        }
                    } else {
                        assert(s[a] == s0[a + 1] && s[b] == s0[b + 1]);
                    }
                }
                assert forall|j: int| 0 <= j < s.len() implies #[trigger] self.model@.contains_key(
                    s[j].0@) && self.model@[s[j].0@] == s[j].1 by {
                    if j < i {
                        assert(old(self).model@.contains_key(s0[j].0@));
                        assert(s0[j].0@ != s0[i as int].0@);
                    } else {
                        assert(s[j] == s0[j + 1]);
                        assert(old(self).model@.contains_key(s0[j + 1].0@));
                        assert(s0[j + 1].0@ != s0[i as int].0@);
                    }
                }
                assert forall|k: Seq<char>| #[trigger] self.model@.contains_key(k) implies exists|
                    j: int,
                | 0 <= j < s.len() && #[trigger] s[j].0@ == k by {
                    let j = choose|j: int| 0 <= j < s0.len() && #[trigger] s0[j].0@ == k;
                    if j < i {
                        assert(s[j].0@ == k);
                    } else {
                        assert(s[j - 1].0@ == k);
                    }
                }
                Some(v)
            },
            None => {
                assert(self.model@.remove(key@) =~= self.model@);
                None
            },
        }
    }
}

} // verus!
