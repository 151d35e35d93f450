//! A table of named entries, in which the last entry of a name counts.

use vstd::prelude::*;

verus! {

/// The place of the last binding of `name` in a list of bindings.
pub open spec fn find<V>(env: Seq<(Seq<char>, V)>, name: Seq<char>) -> Option<int>
    decreases env.len(),
{
    if env.len() == 0 {
        None
    } else if env.last().0 == name {
        Some(env.len() - 1)
    } else {
        find(env.drop_last(), name)
    }
}

/// The bindings with `name` bound to `value`: in place where the name is
/// bound already, at the end otherwise.
pub open spec fn bind<V>(env: Seq<(Seq<char>, V)>, name: Seq<char>, value: V) -> Seq<
    (Seq<char>, V),
> {
    match find(env, name) {
        Some(i) => env.update(i, (name, value)),
        None => env.push((name, value)),
    }
}

/// The bindings without the binding of `name`.
pub open spec fn unbind<V>(env: Seq<(Seq<char>, V)>, name: Seq<char>) -> Seq<(Seq<char>, V)> {
    match find(env, name) {
        Some(i) => env.remove(i),
        None => env,
    }
}

/// What `name` is bound to.
pub open spec fn lookup<V>(env: Seq<(Seq<char>, V)>, name: Seq<char>) -> Option<V> {
    match find(env, name) {
        Some(i) => Some(env[i].1),
        None => None,
    }
}

/// Where `find` finds a name, the name is bound there.
pub proof fn lemma_find_is_bound<V>(env: Seq<(Seq<char>, V)>, name: Seq<char>)
    ensures
        find(env, name) matches Some(i) ==> 0 <= i < env.len() && env[i].0 == name,
    decreases env.len(),
{
    if env.len() > 0 && env.last().0 != name {
        lemma_find_is_bound(env.drop_last(), name);
    }
}

/// A name that has just been bound is found, with its value.
pub proof fn lemma_lookup_after_bind<V>(env: Seq<(Seq<char>, V)>, name: Seq<char>, value: V)
    ensures
        lookup(bind(env, name, value), name) == Some(value),
{
    lemma_find_is_bound(env, name);
    lemma_find_after_update(env, name, name, value);
}

/// Binding a name keeps every name where it was.
proof fn lemma_find_after_update<V>(
    env: Seq<(Seq<char>, V)>,
    name: Seq<char>,
    other: Seq<char>,
    value: V,
)
    ensures
        find(env, name) matches Some(i) ==> find(env.update(i, (name, value)), other) == find(
            env,
            other,
        ),
        find(env, name) is None ==> find(env.push((name, value)), name) == Some(env.len() as int),
    decreases env.len(),
{
    lemma_find_is_bound(env, name);
    match find(env, name) {
        Some(i) => {
            let updated = env.update(i, (name, value));
            if i == env.len() - 1 {
                assert(updated.drop_last() == env.drop_last());
            } else {
                lemma_find_after_update(env.drop_last(), name, other, value);
                assert(updated.drop_last() == env.drop_last().update(i, (name, value)));
            }
        },
        None => {
            assert(env.push((name, value)).last().0 == name);
        },
    }
}

/// A list of named entries in which the last entry of a name counts.
#[derive(Debug)]
pub struct Table<V> {
    pub entries: Vec<(String, V)>,
}

impl<V: View> View for Table<V> {
    type V = Seq<(Seq<char>, V::V)>;

    open spec fn view(&self) -> Seq<(Seq<char>, V::V)> {
        Seq::new(self.entries.len() as nat, |i: int| (self.entries[i].0@, self.entries[i].1@))
    }
}

impl<V: View> Table<V> {
    /// A table with no entry.
    pub fn new() -> (t: Self)
        ensures
            t@ == Seq::<(Seq<char>, V::V)>::empty(),
    {
        let t = Table { entries: Vec::new() };
        assert(t@ =~= Seq::<(Seq<char>, V::V)>::empty());
        t
    }

    /// How many entries the table has.
    pub fn len(&self) -> (n: usize)
        ensures
            n == self@.len(),
    {
        self.entries.len()
    }

    /// The place of the entry that counts for `name`.
    pub fn position(&self, name: &str) -> (r: Option<usize>)
        ensures
            r matches Some(i) ==> find(self@, name@) == Some(i as int) && i < self@.len(),
            r is None ==> find(self@, name@) is None,
    {
        let mut i: usize = self.entries.len();
        assert(self@.take(i as int) == self@);
        while i > 0
            invariant
                i <= self.entries.len(),
                find(self@, name@) == find(self@.take(i as int), name@),
            decreases i,
        {
            i = i - 1;
            assert(self@.take(i + 1).drop_last() == self@.take(i as int));
            if crate::text::same_text(self.entries[i].0.as_str(), name) {
                return Some(i);
            }
        }
        None
    }

    /// The value of the entry at `i`.
    pub fn value_at(&self, i: usize) -> (v: &V)
        requires
            i < self@.len(),
        ensures
            v@ == self@[i as int].1,
    {
        &self.entries[i].1
    }

    /// The name of the entry at `i`.
    pub fn name_at(&self, i: usize) -> (n: &String)
        requires
            i < self@.len(),
        ensures
            n@ == self@[i as int].0,
    {
        &self.entries[i].0
    }

    /// Binds `name` to `value`.
    pub fn bind(&mut self, name: String, value: V)
        ensures
            final(self)@ == bind(old(self)@, name@, value@),
    {
        match self.position(name.as_str()) {
            Some(i) => {
                self.entries.set(i, (name, value));
                assert(self@ =~= old(self)@.update(i as int, (name@, value@)));
            },
            None => {
                self.entries.push((name, value));
                assert(self@ =~= old(self)@.push((name@, value@)));
            },
        }
    }

    /// Removes the entry that counts for `name`; says whether there
    /// was one.
    pub fn unbind(&mut self, name: &str) -> (found: bool)
        ensures
            final(self)@ == unbind(old(self)@, name@),
            found == (find(old(self)@, name@) is Some),
    {
        match self.position(name) {
            Some(i) => {
                let _ = self.entries.remove(i);
                assert(self@ =~= old(self)@.remove(i as int));
                true
            },
            None => false,
        }
    }
}

} // verus!
