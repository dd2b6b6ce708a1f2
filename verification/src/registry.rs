use vstd::prelude::*;

verus! {

/// A registry that stores named bridges for runtime lookup: it maps bridge
/// names to bridge type descriptions.
///
/// The entries are kept in a vector of (name, description) pairs in which no
/// name occurs twice.
pub struct BridgeRegistry {
    bridges: Vec<(String, String)>,
    model: Ghost<Map<Seq<char>, Seq<char>>>,
}

impl View for BridgeRegistry {
    type V = Map<Seq<char>, Seq<char>>;

    closed spec fn view(&self) -> Map<Seq<char>, Seq<char>> {
        self.model@
    }
}

impl BridgeRegistry {
    /// The names of the entries, in the order they are stored.
    closed spec fn names(&self) -> Seq<Seq<char>> {
        Seq::new(self.bridges@.len(), |i: int| self.bridges@[i].0@)
    }

    /// No name is stored twice, and the stored pairs are exactly the map.
    pub closed spec fn wf(&self) -> bool {
        let s = self.bridges@;
        &&& forall|i: int, j: int| 0 <= i < j < s.len() ==> s[i].0@ != s[j].0@
        &&& forall|i: int|
            0 <= i < s.len() ==> self.model@.contains_key(#[trigger] s[i].0@) && self.model@[s[i].0@]
                == s[i].1@
        &&& forall|k: Seq<char>|
            #[trigger] self.model@.contains_key(k) ==> exists|i: int| 0 <= i < s.len() && s[i].0@ == k
    }

    /// The index of the entry named `name`, if there is one.
    fn find(&self, name: &str) -> (r: Option<usize>)
        requires
            self.wf(),
        ensures
            r is None <==> !self@.contains_key(name@),
            r matches Some(i) ==> i < self.bridges@.len() && self.bridges@[i as int].0@ == name@,
    {
        let key = name.to_owned();
        let mut i: usize = 0;
        while i < self.bridges.len()
            invariant
                self.wf(),
                key@ == name@,
                i <= self.bridges@.len(),
                forall|j: int| 0 <= j < i ==> self.bridges@[j].0@ != name@,
            decreases self.bridges@.len() - i,
        {
            if self.bridges[i].0 == key {
                return Some(i);
            }
            i = i + 1;
        }
        proof {
            if self@.contains_key(name@) {
                let j = choose|j: int|
                    0 <= j < self.bridges@.len() && self.bridges@[j].0@ == name@;
                assert(self.bridges@[j].0@ == name@);
            }
        }
        None
    }

    pub fn new() -> (r: BridgeRegistry)
        ensures
            r.wf(),
            r@ == Map::<Seq<char>, Seq<char>>::empty(),
    {
        BridgeRegistry { bridges: Vec::new(), model: Ghost(Map::empty()) }
    }

    /// Registers `bridge_type` under `name`, replacing what was registered
    /// under that name before.
    pub fn register(&mut self, name: &str, bridge_type: &str)
        requires
            old(self).wf(),
        ensures
            final(self).wf(),
            final(self)@ == old(self)@.insert(name@, bridge_type@),
    {
        let entry = (name.to_owned(), bridge_type.to_owned());
        let ghost new_model = self.model@.insert(name@, bridge_type@);
        let ghost pos: int;
        match self.find(name) {
            Some(i) => {
                self.bridges.set(i, entry);
                proof {
                    pos = i as int;
                }
            },
            None => {
                self.bridges.push(entry);
                proof {
                    pos = self.bridges@.len() - 1;
                }
            },
        }
        self.model = Ghost(new_model);
        assert(self.bridges@[pos].0@ == name@);
        assert forall|k: Seq<char>| #[trigger] self.model@.contains_key(k) implies exists|i: int|
            0 <= i < self.bridges@.len() && self.bridges@[i].0@ == k by {
            if k == name@ {
                assert(self.bridges@[pos].0@ == k);
            } else {
                assert(old(self).model@.contains_key(k));
                let i = choose|i: int|
                    0 <= i < old(self).bridges@.len() && old(self).bridges@[i].0@ == k;
                assert(self.bridges@[i].0@ == k);
            }
        }
    }

    /// The description registered under `name`, if any.
    pub fn get(&self, name: &str) -> (r: Option<&str>)
        requires
            self.wf(),
        ensures
            r is None <==> !self@.contains_key(name@),
            r matches Some(d) ==> d@ == self@[name@],
    {
        match self.find(name) {
            Some(i) => Some(self.bridges[i].1.as_str()),
            None => None,
        }
    }

    /// Every registered (name, description) pair, each once, in no
    /// particular order.
    pub fn list(&self) -> (r: Vec<(&str, &str)>)
        requires
            self.wf(),
        ensures
            r@.len() == self@.len(),
            forall|i: int|
                0 <= i < r@.len() ==> self@.contains_key(#[trigger] r@[i].0@) && self@[r@[i].0@]
                    == r@[i].1@,
            forall|k: Seq<char>|
                #[trigger] self@.contains_key(k) ==> exists|i: int| 0 <= i < r@.len() && r@[i].0@ == k,
            forall|i: int, j: int| 0 <= i < j < r@.len() ==> r@[i].0@ != r@[j].0@,
    {
        let mut r: Vec<(&str, &str)> = Vec::new();
        for i in 0..self.bridges.len()
            invariant
                self.wf(),
                r@.len() == i,
                forall|j: int|
                    0 <= j < i ==> (#[trigger] r@[j]).0@ == self.bridges@[j].0@ && r@[j].1@
                        == self.bridges@[j].1@,
        {
            r.push((self.bridges[i].0.as_str(), self.bridges[i].1.as_str()));
        }
        proof {
            let names = self.names();
            assert(names.no_duplicates());
            names.unique_seq_to_set();
            assert forall|k: Seq<char>| #[trigger] self@.dom().contains(k) == names.to_set().contains(
                k,
            ) by {
                if self@.dom().contains(k) {
                    let i = choose|i: int|
                        0 <= i < self.bridges@.len() && self.bridges@[i].0@ == k;
                    assert(names[i] == k);
                }
                if names.to_set().contains(k) {
                    let i = choose|i: int| 0 <= i < names.len() && names[i] == k;
                    assert(self.bridges@[i].0@ == k);
                }
            }
            assert(self@.dom() =~= names.to_set());
            assert forall|k: Seq<char>| #[trigger] self@.contains_key(k) implies exists|i: int|
                0 <= i < r@.len() && r@[i].0@ == k by {
                let i = choose|i: int|
                    0 <= i < self.bridges@.len() && self.bridges@[i].0@ == k;
                assert(r@[i].0@ == k);
            }
        }
        r
    }

    /// Removes the entry registered under `name`; says whether there was one.
    pub fn remove(&mut self, name: &str) -> (r: bool)
        requires
            old(self).wf(),
        ensures
            final(self).wf(),
            r == old(self)@.contains_key(name@),
            final(self)@ == old(self)@.remove(name@),
    {
        match self.find(name) {
            Some(i) => {
                let ghost old_s = self.bridges@;
                let _ = self.bridges.remove(i);
                self.model = Ghost(self.model@.remove(name@));
                assert forall|k: Seq<char>| #[trigger] self.model@.contains_key(k) implies exists|
                    j: int,
                | 0 <= j < self.bridges@.len() && self.bridges@[j].0@ == k by {
                    let j = choose|j: int| 0 <= j < old_s.len() && old_s[j].0@ == k;
                    if j < i {
                        assert(self.bridges@[j].0@ == k);
                    } else {
                        assert(self.bridges@[j - 1].0@ == k);
                    }
                }
                true
            },
            None => {
                assert(self@ =~= old(self)@.remove(name@));
                false
            },
        }
    }
}

impl Default for BridgeRegistry {
    fn default() -> (r: BridgeRegistry)
        ensures
            r.wf(),
            r@ == Map::<Seq<char>, Seq<char>>::empty(),
    {
        Self::new()
    }
}

/// What is registered under a name is what `get` finds under it afterwards,
/// and registering under one name leaves every other name as it was.
pub proof fn lemma_register_then_get(
    m: Map<Seq<char>, Seq<char>>,
    name: Seq<char>,
    bridge_type: Seq<char>,
    other: Seq<char>,
)
    requires
        other != name,
    ensures
        m.insert(name, bridge_type).contains_key(name),
        m.insert(name, bridge_type)[name] == bridge_type,
        m.insert(name, bridge_type).contains_key(other) == m.contains_key(other),
        m.contains_key(other) ==> m.insert(name, bridge_type)[other] == m[other],
{
}

/// After a name is removed, `get` finds nothing under it and removing it
/// again reports that nothing was there; other names are untouched.
pub proof fn lemma_remove_then_get(m: Map<Seq<char>, Seq<char>>, name: Seq<char>, other: Seq<char>)
    requires
        other != name,
    ensures
        !m.remove(name).contains_key(name),
        m.remove(name).remove(name) == m.remove(name),
        m.remove(name).contains_key(other) == m.contains_key(other),
        m.contains_key(other) ==> m.remove(name)[other] == m[other],
{
    assert(m.remove(name).remove(name) =~= m.remove(name));
}

} // verus!
