use vstd::prelude::*;
use crate::value::{Value, ValueV, copy_value};

verus! {

/// The model of a list of named entries: each name maps to the value of its
/// last entry.
pub open spec fn entries_map(s: Seq<(String, Value)>) -> Map<Seq<char>, ValueV>
    decreases s.len(),
{
    if s.len() == 0 {
        Map::empty()
    } else {
        entries_map(s.drop_last()).insert(s.last().0@, s.last().1@)
    }
}

/// No two entries have the same name.
pub open spec fn distinct_names(s: Seq<(String, Value)>) -> bool {
    forall|i: int, j: int| 0 <= i < s.len() && 0 <= j < s.len() && i != j ==> #[trigger] s[i].0@ != #[trigger] s[j].0@
}

/// The global variables of a program, by name.
///
/// They are held as a list of entries with distinct names, whose model is
/// the map from names to values, so that `get` and `insert` are proved
/// against that map. (A `HashMap` keyed by `String` comes with no account of
/// its contents to prove them against.)
pub struct Globals {
    entries: Vec<(String, Value)>,
}

impl View for Globals {
    type V = Map<Seq<char>, ValueV>;

    closed spec fn view(&self) -> Map<Seq<char>, ValueV> {
        entries_map(self.entries@)
    }
}

proof fn lemma_absent(s: Seq<(String, Value)>, k: Seq<char>)
    requires
        forall|i: int| 0 <= i < s.len() ==> #[trigger] s[i].0@ != k,
    ensures
        !entries_map(s).contains_key(k),
    decreases s.len(),
{
    if s.len() > 0 {
        lemma_absent(s.drop_last(), k);
    }
}

proof fn lemma_present(s: Seq<(String, Value)>, i: int)
    requires
        distinct_names(s),
        0 <= i < s.len(),
    ensures
        entries_map(s).contains_key(s[i].0@),
        entries_map(s)[s[i].0@] == s[i].1@,
    decreases s.len(),
{
    if i < s.len() - 1 {
        let p = s.drop_last();
        assert(p[i] == s[i]);
        lemma_present(p, i);
    }
}

proof fn lemma_replace(s: Seq<(String, Value)>, i: int, e: (String, Value))
    requires
        distinct_names(s),
        0 <= i < s.len(),
        e.0@ == s[i].0@,
    ensures
        entries_map(s.update(i, e)) == entries_map(s).insert(e.0@, e.1@),
    decreases s.len(),
{
    let t = s.update(i, e);
    if i == s.len() - 1 {
        assert(t.drop_last() =~= s.drop_last());
        assert(entries_map(t) =~= entries_map(s).insert(e.0@, e.1@));
    } else {
        let p = s.drop_last();
        assert(t.drop_last() =~= p.update(i, e));
        lemma_replace(p, i, e);
        assert(s.last().0@ != e.0@);
        assert(entries_map(t) =~= entries_map(s).insert(e.0@, e.1@));
    }
}

impl Globals {
    #[verifier::type_invariant]
    spec fn names_distinct(&self) -> bool {
        distinct_names(self.entries@)
    }

    /// No globals.
    pub fn new() -> (g: Globals)
        ensures
            g@ == Map::<Seq<char>, ValueV>::empty(),
    {
        let g = Globals { entries: Vec::new() };
        assert(g@ =~= Map::<Seq<char>, ValueV>::empty());
        g
    }

    fn position(&self, name: &String) -> (r: Option<usize>)
        ensures
            r matches Some(i) ==> i < self.entries@.len() && self.entries@[i as int].0@ == name@,
            r is None ==> forall|j: int| 0 <= j < self.entries@.len() ==> #[trigger] self.entries@[j].0@ != name@,
    {
        let n = self.entries.len();
        let mut i: usize = 0;
        while i < n
            invariant
                n == self.entries@.len(),
                i <= n,
                forall|j: int| 0 <= j < i ==> #[trigger] self.entries@[j].0@ != name@,
            decreases n - i,
        {
            if self.entries[i].0 == *name {
                return Some(i);
            }
            i = i + 1;
        }
        None
    }

    /// The value of a global, copied, if it has one.
    pub fn get(&self, name: &String) -> (r: Option<Value>)
        ensures
            r is None <==> !self@.contains_key(name@),
            r matches Some(v) ==> v@ == self@[name@],
    {
        proof {
            use_type_invariant(self);
        }
        match self.position(name) {
            Some(i) => {
                proof {
                    lemma_present(self.entries@, i as int);
                }
                Some(copy_value(&self.entries[i].1))
            },
            None => {
                proof {
                    lemma_absent(self.entries@, name@);
                }
                None
            },
        }
    }

    /// Sets a global, adding it where it had no value.
    pub fn insert(&mut self, name: String, value: Value)
        ensures
            final(self)@ == old(self)@.insert(name@, value@),
    {
        proof {
            use_type_invariant(&*self);
        }
        let ghost s = self.entries@;
        let pos = self.position(&name);
        let mut entries: Vec<(String, Value)> = Vec::new();
        std::mem::swap(&mut entries, &mut self.entries);
        assert(entries@ == s);
        match pos {
            Some(i) => {
                let ghost e = (name, value);
                proof {
                    lemma_replace(s, i as int, e);
                }
                entries.set(i, (name, value));
                proof {
                    assert(entries@ == s.update(i as int, e));
                    assert forall|a: int, b: int|
                        0 <= a < entries@.len() && 0 <= b < entries@.len() && a != b
                        implies #[trigger] entries@[a].0@ != #[trigger] entries@[b].0@ by {
                        assert(s[a].0@ != s[b].0@);
                    }
                }
            },
            None => {
                entries.push((name, value));
                proof {
                    assert(entries@.drop_last() =~= s);
                    assert forall|a: int, b: int|
                        0 <= a < entries@.len() && 0 <= b < entries@.len() && a != b
                        implies #[trigger] entries@[a].0@ != #[trigger] entries@[b].0@ by {
                        if a < s.len() && b < s.len() {
                            assert(entries@[a] == s[a]);
                            assert(entries@[b] == s[b]);
                        } else if a < s.len() {
                            assert(entries@[a] == s[a]);
                        } else {
                            assert(entries@[b] == s[b]);
                        }
                    }
                }
            },
        }
        self.entries = entries;
    }
}

} // verus!
