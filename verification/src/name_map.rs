//! An insertion-ordered map from names to values.

use indexmap::IndexMap;
use vstd::prelude::*;

verus! {

/// `indexmap::IndexMap`, a hash map that keeps the order of insertion.
/// Nothing is known of a value of it but what the functions below say.
#[verifier::external_type_specification]
#[verifier::external_body]
#[verifier::reject_recursive_types(K)]
#[verifier::reject_recursive_types(V)]
#[verifier::reject_recursive_types(S)]
pub struct ExIndexMap<K, V, S>(IndexMap<K, V, S>);

/// What an `IndexMap` from names to positions holds: for each key, by its
/// characters, the value stored under it.
pub uninterp spec fn index_contents(m: IndexMap<String, usize>) -> Map<Seq<char>, usize>;

/// `IndexMap::new`: the result holds no entry.
#[verifier::external_body]
fn index_new() -> (r: IndexMap<String, usize>)
    ensures
        index_contents(r) =~= Map::empty(),
{
    IndexMap::new()
}

/// `IndexMap::get`: the value stored under `key`, or `None` where the map has
/// no such key.
#[verifier::external_body]
fn index_get(m: &IndexMap<String, usize>, key: &str) -> (r: Option<usize>)
    ensures
        r == (if index_contents(*m).contains_key(key@) {
            Some(index_contents(*m)[key@])
        } else {
            None
        }),
{
    m.get(key).copied()
}

/// `IndexMap::insert`: afterwards `key` leads to `value`, and every other key
/// to what it led to before.
#[verifier::external_body]
fn index_insert(m: &mut IndexMap<String, usize>, key: String, value: usize)
    ensures
        index_contents(*final(m)) == index_contents(*old(m)).insert(key@, value),
{
    m.insert(key, value);
}

/// The position of the first entry of `s` at or after `start` that is named
/// `name`.
pub open spec fn position_from<V>(s: Seq<(Seq<char>, V)>, name: Seq<char>, start: int) -> Option<
    int,
>
    decreases s.len() - start,
{
    if start < 0 || start >= s.len() {
        None
    } else if s[start].0 == name {
        Some(start)
    } else {
        position_from(s, name, start + 1)
    }
}

/// The position of the first entry of `s` named `name`.
pub open spec fn position<V>(s: Seq<(Seq<char>, V)>, name: Seq<char>) -> Option<int> {
    position_from(s, name, 0)
}

/// The value of the first entry of `s` named `name`.
pub open spec fn lookup<V>(s: Seq<(Seq<char>, V)>, name: Seq<char>) -> Option<V> {
    match position(s, name) {
        Some(i) => Some(s[i].1),
        None => None,
    }
}

/// `s` with `value` under `name`: in place of the old value where `s` has
/// the name, else as a new last entry.
pub open spec fn with_entry<V>(s: Seq<(Seq<char>, V)>, name: Seq<char>, value: V) -> Seq<
    (Seq<char>, V),
> {
    match position(s, name) {
        Some(i) => s.update(i, (name, value)),
        None => s.push((name, value)),
    }
}

/// No two entries of `s` have the same name.
pub open spec fn distinct_names<V>(s: Seq<(Seq<char>, V)>) -> bool {
    forall|i: int, j: int| 0 <= i < j < s.len() ==> (#[trigger] s[i]).0 != (#[trigger] s[j]).0
}

/// `position_from` finds the first entry with the name at or after `start`,
/// and nothing where there is none.
pub proof fn lemma_position_from<V>(s: Seq<(Seq<char>, V)>, name: Seq<char>, start: int)
    requires
        0 <= start,
    ensures
        match position_from(s, name, start) {
            Some(i) => start <= i < s.len() && s[i].0 == name && forall|j: int|
                start <= j < i ==> (#[trigger] s[j]).0 != name,
            None => forall|j: int| start <= j < s.len() ==> (#[trigger] s[j]).0 != name,
        },
    decreases s.len() - start,
{
    if start < s.len() && s[start].0 != name {
        lemma_position_from(s, name, start + 1);
    }
}

/// `position` finds the first entry with the name, and nothing where there
/// is none.
pub proof fn lemma_position<V>(s: Seq<(Seq<char>, V)>, name: Seq<char>)
    ensures
        match position(s, name) {
            Some(i) => 0 <= i < s.len() && s[i].0 == name && forall|j: int|
                0 <= j < i ==> (#[trigger] s[j]).0 != name,
            None => forall|j: int| 0 <= j < s.len() ==> (#[trigger] s[j]).0 != name,
        },
{
    lemma_position_from(s, name, 0);
}

/// An entry named `name` at `i`, with none before it, is what `position`
/// finds.
pub proof fn lemma_position_is<V>(s: Seq<(Seq<char>, V)>, name: Seq<char>, i: int)
    requires
        0 <= i < s.len(),
        s[i].0 == name,
        forall|j: int| 0 <= j < i ==> (#[trigger] s[j]).0 != name,
    ensures
        position(s, name) == Some(i),
{
    lemma_position(s, name);
}

/// Tables with the same names in the same places find a name in the same
/// place.
pub proof fn lemma_position_by_names<V, W>(
    a: Seq<(Seq<char>, V)>,
    b: Seq<(Seq<char>, W)>,
    name: Seq<char>,
    from: int,
)
    requires
        a.len() == b.len(),
        forall|i: int| 0 <= i < a.len() ==> (#[trigger] a[i]).0 == b[i].0,
    ensures
        position_from(a, name, from) == position_from(b, name, from),
    decreases a.len() - from,
{
    if 0 <= from < a.len() {
        assert(a[from].0 == b[from].0);
        if a[from].0 != name {
            lemma_position_by_names(a, b, name, from + 1);
        }
    }
}

/// `IndexMap::clone`: the copy holds what the map holds.
#[verifier::external_body]
fn index_clone(m: &IndexMap<String, usize>) -> (r: IndexMap<String, usize>)
    ensures
        index_contents(r) == index_contents(*m),
{
    m.clone()
}

/// An insertion-ordered map from names to values of `V`. The values stand in
/// the order of their insertion, each beside its name; an `IndexMap` leads
/// from each name to the position of its value.
#[derive(Debug)]
pub struct NameMap<V> {
    index: IndexMap<String, usize>,
    names: Vec<String>,
    values: Vec<V>,
}

impl<V> View for NameMap<V> {
    type V = Seq<(Seq<char>, V)>;

    closed spec fn view(&self) -> Seq<(Seq<char>, V)> {
        Seq::new(self.values@.len(), |i: int| (self.names@[i]@, self.values@[i]))
    }
}

impl<V: Clone> Clone for NameMap<V> {
    /// A map with the same names in the same order, each with a clone of its
    /// value.
    fn clone(&self) -> (r: Self)
        ensures
            r@.len() == self@.len(),
            forall|i: int|
                0 <= i < self@.len() ==> (#[trigger] r@[i]).0 == self@[i].0 && cloned(
                    self@[i].1,
                    r@[i].1,
                ),
    {
        proof {
            use_type_invariant(self);
        }
        let names = self.names.clone();
        let values = self.values.clone();
        assert(names@ =~= self.names@);
        NameMap { index: index_clone(&self.index), names, values }
    }
}

impl<V> NameMap<V> {
    #[verifier::type_invariant]
    spec fn indexed(&self) -> bool {
        &&& self.names@.len() == self.values@.len()
        &&& forall|i: int|
            0 <= i < self.names@.len() ==> index_contents(self.index).contains_key(
                #[trigger] self.names@[i]@,
            ) && index_contents(self.index)[self.names@[i]@] == i
        &&& forall|k: Seq<char>| #[trigger]
            index_contents(self.index).contains_key(k) ==> index_contents(self.index)[k]
                < self.names@.len() && self.names@[index_contents(self.index)[k] as int]@ == k
    }

    /// A value of the map is smaller than the map: a recursion may descend
    /// from a structure that holds the map into the values.
    pub proof fn lemma_value_decreases(&self, i: int)
        requires
            0 <= i < self@.len(),
        ensures
            decreases_to!(*self => self@[i].1),
    {
        broadcast use vstd::std_specs::vec::axiom_vec_index_decreases;

        assert(decreases_to!(self.values => self.values@[i]));
    }

    /// A map without entries.
    pub fn new() -> (r: Self)
        ensures
            r@ == Seq::<(Seq<char>, V)>::empty(),
    {
        let r = NameMap { index: index_new(), names: Vec::new(), values: Vec::new() };
        assert(r@ =~= Seq::<(Seq<char>, V)>::empty());
        r
    }

    /// The number of entries.
    pub fn len(&self) -> (r: usize)
        ensures
            r == self@.len(),
    {
        proof {
            use_type_invariant(self);
        }
        self.names.len()
    }

    /// The position of the entry named `name`.
    pub fn get_index_of(&self, name: &str) -> (r: Option<usize>)
        ensures
            distinct_names(self@),
            match r {
                Some(i) => i < self@.len() && position(self@, name@) == Some(i as int),
                None => position(self@, name@) is None,
            },
    {
        proof {
            use_type_invariant(self);
            lemma_position(self@, name@);
        }
        let r = index_get(&self.index, name);
        proof {
            assert forall|i: int, j: int| 0 <= i < j < self@.len() implies (#[trigger] self@[i]).0
                != (#[trigger] self@[j]).0 by {
                assert(index_contents(self.index)[self.names@[i]@] == i);
                assert(index_contents(self.index)[self.names@[j]@] == j);
            }
            match r {
                Some(i) => {
                    assert(self@[i as int].0 == name@);
                    lemma_position_is(self@, name@, i as int);
                },
                None => {
                    match position(self@, name@) {
                        Some(j) => {
                            assert(index_contents(self.index).contains_key(self.names@[j]@));
                        },
                        None => {},
                    }
                },
            }
        }
        r
    }

    /// The value under `name`.
    pub fn get(&self, name: &str) -> (r: Option<&V>)
        ensures
            match r {
                Some(v) => lookup(self@, name@) == Some(*v),
                None => lookup(self@, name@) is None,
            },
    {
        proof {
            use_type_invariant(self);
        }
        match self.get_index_of(name) {
            Some(i) => Some(&self.values[i]),
            None => None,
        }
    }

    /// The name and the value at position `i`.
    pub fn get_index(&self, i: usize) -> (r: Option<(&String, &V)>)
        ensures
            match r {
                Some((name, v)) => i < self@.len() && self@[i as int] == (name@, *v),
                None => i >= self@.len(),
            },
    {
        proof {
            use_type_invariant(self);
        }
        if i < self.names.len() {
            Some((&self.names[i], &self.values[i]))
        } else {
            None
        }
    }

    /// The value at position `i`.
    pub fn value_at(&self, i: usize) -> (r: &V)
        requires
            i < self@.len(),
        ensures
            *r == self@[i as int].1,
    {
        proof {
            use_type_invariant(self);
        }
        &self.values[i]
    }

    /// The name at position `i`.
    pub fn name_at(&self, i: usize) -> (r: &String)
        requires
            i < self@.len(),
        ensures
            r@ == self@[i as int].0,
    {
        proof {
            use_type_invariant(self);
        }
        &self.names[i]
    }

    /// Puts `value` at position `i`, under the name that stands there, and
    /// returns the value that it replaces.
    pub fn set_at(&mut self, i: usize, value: V) -> (r: V)
        requires
            i < old(self)@.len(),
        ensures
            final(self)@ == old(self)@.update(i as int, (old(self)@[i as int].0, value)),
            r == old(self)@[i as int].1,
    {
        let mut taken = NameMap::new();
        core::mem::swap(self, &mut taken);
        proof {
            use_type_invariant(&taken);
        }
        let NameMap { index, names, values } = taken;
        let mut values = values;
        values.push(value);
        let r = values.swap_remove(i);
        *self = NameMap { index, names, values };
        assert(self@ =~= old(self)@.update(i as int, (old(self)@[i as int].0, value)));
        r
    }

    /// Puts `value` under `name`: in place of the old value, which is
    /// returned, where the map has the name, else as a new last entry.
    pub fn insert(&mut self, name: String, value: V) -> (r: Option<V>)
        ensures
            final(self)@ == with_entry(old(self)@, name@, value),
            r == lookup(old(self)@, name@),
    {
        let found = self.get_index_of(name.as_str());
        let mut taken = NameMap::new();
        core::mem::swap(self, &mut taken);
        proof {
            use_type_invariant(&taken);
        }
        let NameMap { index, names, values } = taken;
        let mut index = index;
        let mut names = names;
        let mut values = values;
        proof {
            lemma_position(old(self)@, name@);
        }
        let r = match found {
            Some(i) => {
                values.push(value);
                let previous = values.swap_remove(i);
                Some(previous)
            },
            None => {
                let at: usize = names.len();
                index_insert(&mut index, name.clone(), at);
                names.push(name);
                values.push(value);
                None
            },
        };
        proof {
            assert forall|k: Seq<char>| #[trigger]
                index_contents(index).contains_key(k) implies index_contents(index)[k]
                < names@.len() && names@[index_contents(index)[k] as int]@ == k by {
                if found is None && k == name@ {
                } else {
                    assert(index_contents(taken.index).contains_key(k));
                }
            }
            assert forall|i: int| 0 <= i < names@.len() implies index_contents(
                index,
            ).contains_key(#[trigger] names@[i]@) && index_contents(index)[names@[i]@] == i by {
                if i < taken.names@.len() {
                    assert(index_contents(taken.index).contains_key(taken.names@[i]@));
                    assert(old(self)@[i].0 == taken.names@[i]@);
                }
            }
        }
        *self = NameMap { index, names, values };
        assert(self@ =~= with_entry(old(self)@, name@, value));
        r
    }
}

} // verus!
