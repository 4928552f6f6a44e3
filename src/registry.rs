use vstd::prelude::*;

verus! {

/// Materials registered under names, with a fallback that stands in for
/// any name that was never registered.
///
/// The entries are a `Vec` of name-material pairs with unique names, found
/// by a linear scan, rather than a `HashMap<String, _>`: Verus proves the
/// map semantics below for this representation, while it proves little of
/// a map keyed by `String`. Scenes register a few dozen materials at most.
pub struct MaterialRegistry<M> {
    entries: Vec<(String, M)>,
    base: M,
}

/// No two entries share a name.
pub open spec fn names_unique<M>(entries: Seq<(String, M)>) -> bool {
    forall|i: int, j: int|
        0 <= i < entries.len() && 0 <= j < entries.len() && i != j ==> (#[trigger] entries[i]).0@
            != (#[trigger] entries[j]).0@
}

/// Whether some entry is registered under `name`.
pub open spec fn has_name<M>(entries: Seq<(String, M)>, name: Seq<char>) -> bool {
    exists|i: int| 0 <= i < entries.len() && (#[trigger] entries[i]).0@ == name
}

/// The name-to-material map that a list of entries with unique names holds.
pub open spec fn entries_map<M>(entries: Seq<(String, M)>) -> Map<Seq<char>, M> {
    Map::new(
        |name: Seq<char>| has_name(entries, name),
        |name: Seq<char>|
            entries[choose|i: int| 0 <= i < entries.len() && (#[trigger] entries[i]).0@ == name].1,
    )
}

proof fn lemma_entries_map_at<M>(entries: Seq<(String, M)>, i: int)
    requires
        names_unique(entries),
        0 <= i < entries.len(),
    ensures
        entries_map(entries).contains_key(entries[i].0@),
        entries_map(entries)[entries[i].0@] == entries[i].1,
{
    let name = entries[i].0@;
    assert(has_name(entries, name));
    let j = choose|j: int| 0 <= j < entries.len() && (#[trigger] entries[j]).0@ == name;
    assert(i == j);
}

/// Storing `(name, material)` at position `i` of the entries, either over
/// the entry that had that name or appended after all of them, inserts the
/// pair into the map the entries hold and keeps the names unique.
proof fn lemma_entries_map_store<M>(
    old_entries: Seq<(String, M)>,
    new_entries: Seq<(String, M)>,
    i: int,
    key: Seq<char>,
    material: M,
)
    requires
        names_unique(old_entries),
        0 <= i < new_entries.len(),
        old_entries.len() <= new_entries.len(),
        new_entries[i].0@ == key,
        new_entries[i].1 == material,
        forall|j: int|
            0 <= j < new_entries.len() && j != i ==> j < old_entries.len() && #[trigger] new_entries[j]
                == old_entries[j],
        forall|j: int| 0 <= j < old_entries.len() && j != i ==> (#[trigger] old_entries[j]).0@ != key,
        i < old_entries.len() ==> old_entries[i].0@ == key,
    ensures
        names_unique(new_entries),
        entries_map(new_entries) == entries_map(old_entries).insert(key, material),
{
    assert forall|a: int, b: int|
        0 <= a < new_entries.len() && 0 <= b < new_entries.len() && a != b implies (
        #[trigger] new_entries[a]).0@ != (#[trigger] new_entries[b]).0@ by {
        if a != i && b != i {
            assert(new_entries[a] == old_entries[a] && new_entries[b] == old_entries[b]);
        } else if a == i {
            assert(new_entries[b] == old_entries[b]);
        } else {
            assert(new_entries[a] == old_entries[a]);
        }
    }
    let expected = entries_map(old_entries).insert(key, material);
    assert forall|k: Seq<char>| #![auto] entries_map(new_entries).contains_key(k) == expected.contains_key(k) by {
        if has_name(old_entries, k) && k != key {
            let j = choose|j: int| 0 <= j < old_entries.len() && (#[trigger] old_entries[j]).0@ == k;
            assert(new_entries[j] == old_entries[j]);
            assert(new_entries[j].0@ == k);
        }
        if k == key {
            assert(new_entries[i].0@ == k);
        }
        if has_name(new_entries, k) && k != key {
            let j = choose|j: int| 0 <= j < new_entries.len() && (#[trigger] new_entries[j]).0@ == k;
            assert(new_entries[j] == old_entries[j]);
            assert(old_entries[j].0@ == k);
        }
    }
    assert forall|k: Seq<char>| #[trigger] entries_map(new_entries).contains_key(k) implies entries_map(
        new_entries,
    )[k] == expected[k] by {
        let j = choose|j: int| 0 <= j < new_entries.len() && (#[trigger] new_entries[j]).0@ == k;
        lemma_entries_map_at(new_entries, j);
        if j != i {
            assert(new_entries[j] == old_entries[j]);
            lemma_entries_map_at(old_entries, j);
        }
    }
    assert(entries_map(new_entries) =~= expected);
}

impl<M> MaterialRegistry<M> {
    /// The registered materials, by name.
    pub closed spec fn view(self) -> Map<Seq<char>, M> {
        entries_map(self.entries@)
    }

    /// The material that unregistered names resolve to.
    pub closed spec fn base_spec(self) -> M {
        self.base
    }

    pub closed spec fn wf(self) -> bool {
        names_unique(self.entries@)
    }

    /// What `name` resolves to: its registered material, or the fallback.
    pub open spec fn resolve(self, name: Seq<char>) -> M {
        if self.view().contains_key(name) {
            self.view()[name]
        } else {
            self.base_spec()
        }
    }

    /// An empty registry whose unregistered names resolve to `base`.
    pub fn new(base: M) -> (r: MaterialRegistry<M>)
        ensures
            r.wf(),
            r.view() == Map::<Seq<char>, M>::empty(),
            r.base_spec() == base,
    {
        let r = MaterialRegistry { entries: Vec::new(), base };
        assert(r.view() =~= Map::<Seq<char>, M>::empty());
        r
    }

    /// Registers `material` under `name`, replacing any material that was
    /// registered under that name before.
    pub fn add_material(&mut self, name: String, material: M)
        requires
            old(self).wf(),
        ensures
            final(self).wf(),
            final(self).view() == old(self).view().insert(name@, material),
            final(self).base_spec() == old(self).base_spec(),
    {
        let ghost old_entries = self.entries@;
        let mut i: usize = 0;
        while i < self.entries.len()
            invariant
                self.entries@ == old_entries,
                old(self).entries@ == old_entries,
                self.base == old(self).base,
                names_unique(old_entries),
                i <= old_entries.len(),
                forall|j: int| 0 <= j < i ==> (#[trigger] old_entries[j]).0@ != name@,
            decreases old_entries.len() - i,
        {
            if self.entries[i].0 == name {
                let ghost key = name@;
                self.entries.set(i, (name, material));
                proof {
                    assert forall|j: int| 0 <= j < old_entries.len() && j != i implies (
                    #[trigger] old_entries[j]).0@ != key by {
                        assert(old_entries[i as int].0@ == key);
                    }
                    lemma_entries_map_store(old_entries, self.entries@, i as int, key, material);
                }
                return;
            }
            i = i + 1;
        }
        let ghost key = name@;
        self.entries.push((name, material));
        proof {
            lemma_entries_map_store(old_entries, self.entries@, old_entries.len() as int, key, material);
        }
    }

    /// The material registered under `material`, or the fallback material
    /// when none is.
    pub fn get_material(&self, material: &String) -> (r: &M)
        requires
            self.wf(),
        ensures
            *r == self.resolve(material@),
    {
        let mut i: usize = 0;
        while i < self.entries.len()
            invariant
                names_unique(self.entries@),
                i <= self.entries@.len(),
                forall|j: int| 0 <= j < i ==> (#[trigger] self.entries@[j]).0@ != material@,
            decreases self.entries@.len() - i,
        {
            if self.entries[i].0 == *material {
                proof {
                    lemma_entries_map_at(self.entries@, i as int);
                }
                return &self.entries[i].1;
            }
            i = i + 1;
        }
        &self.base
    }
}

} // verus!
