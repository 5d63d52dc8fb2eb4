//! Flat name-to-value environments. The interpreter keeps one for
//! variables and one for functions; each is modelled in specifications as
//! a `Map` from the name's characters to the bound value, where a newer
//! binding for a name shadows every older one.

use vstd::prelude::*;

verus! {

/// One name-to-value binding.
pub struct Binding<T> {
    pub name: String,
    pub value: T,
}

/// A flat environment: a list of bindings, newest last.
pub struct Environment<T> {
    pub bindings: Vec<Binding<T>>,
}

impl<T> Environment<T> {
    /// The mapping that a binding list denotes: later entries win.
    pub open spec fn seq_as_map(s: Seq<Binding<T>>) -> Map<Seq<char>, T>
        decreases s.len(),
    {
        if s.len() == 0 {
            Map::empty()
        } else {
            Self::seq_as_map(s.drop_last()).insert(s.last().name@, s.last().value)
        }
    }

    /// The mapping this environment denotes.
    pub open spec fn as_map(&self) -> Map<Seq<char>, T> {
        Self::seq_as_map(self.bindings@)
    }

    proof fn lemma_lookup_found(s: Seq<Binding<T>>, name: Seq<char>, i: int)
        requires
            0 <= i < s.len(),
            s[i].name@ == name,
            forall|j: int| i < j < s.len() ==> s[j].name@ != name,
        ensures
            Self::seq_as_map(s).contains_key(name),
            Self::seq_as_map(s)[name] == s[i].value,
        decreases s.len(),
    {
        if i < s.len() - 1 {
            Self::lemma_lookup_found(s.drop_last(), name, i);
        }
    }

    proof fn lemma_lookup_missing(s: Seq<Binding<T>>, name: Seq<char>)
        requires
            forall|j: int| 0 <= j < s.len() ==> s[j].name@ != name,
        ensures
            !Self::seq_as_map(s).contains_key(name),
        decreases s.len(),
    {
        if s.len() > 0 {
            Self::lemma_lookup_missing(s.drop_last(), name);
        }
    }

    pub fn new() -> (r: Self)
        ensures
            r.as_map() == Map::<Seq<char>, T>::empty(),
    {
        Environment { bindings: Vec::new() }
    }

    /// Looks the name up, returning the newest binding for it, if any.
    pub fn find_binding(&self, name: &String) -> (r: Option<&T>)
        ensures
            match r {
                Option::Some(v) => self.as_map().contains_key(name@) && *v
                    == self.as_map().index(name@),
                Option::None => !self.as_map().contains_key(name@),
            },
    {
        let mut i: usize = self.bindings.len();
        while i > 0
            invariant
                i <= self.bindings@.len(),
                forall|j: int| i <= j < self.bindings@.len() ==> self.bindings@[j].name@ != name@,
            decreases i,
        {
            i = i - 1;
            let b = &self.bindings[i];
            if b.name == *name {
                proof {
                    Self::lemma_lookup_found(self.bindings@, name@, i as int);
                }
                return Option::Some(&b.value);
            }
        }
        proof {
            Self::lemma_lookup_missing(self.bindings@, name@);
        }
        Option::None
    }

    /// Binds the name to the value, shadowing any older binding.
    pub fn insert(&mut self, name: String, value: T)
        ensures
            final(self).as_map() == old(self).as_map().insert(name@, value),
    {
        self.bindings.push(Binding { name, value });
        proof {
            assert(final(self).bindings@.drop_last() =~= old(self).bindings@);
        }
    }
}

impl Environment<i64> {
    /// A copy of this environment, for the call-frame save/restore
    /// discipline of function calls.
    pub fn snapshot(&self) -> (r: Self)
        ensures
            r.bindings@ == self.bindings@,
    {
        let mut bindings: Vec<Binding<i64>> = Vec::new();
        let mut i: usize = 0;
        while i < self.bindings.len()
            invariant
                i <= self.bindings@.len(),
                bindings@.len() == i,
                forall|j: int| 0 <= j < i ==> bindings@[j] == self.bindings@[j],
            decreases self.bindings@.len() - i,
        {
            let b = &self.bindings[i];
            bindings.push(Binding { name: b.name.clone(), value: b.value });
            i = i + 1;
        }
        proof {
            assert(bindings@ =~= self.bindings@);
        }
        Environment { bindings }
    }
}

} // verus!
