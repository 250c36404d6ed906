//! Namespaces and the store that keeps them.
use vstd::prelude::*;
use crate::external::{is_uuid_v4_text, new_uuid_v4_string, nil_uuid_string, nil_uuid_text};
use crate::ident::{default_namespace, default_namespace_name};
use crate::error::DataError;
use crate::storage::Storage;
use crate::store::Store;

verus! {

/// A namespace.
pub struct Namespace {
    /// Identifier of the namespace.
    pub id: String,
    /// Name of the namespace.
    pub name: String,
}

impl Namespace {
    /// Creates a namespace with a fresh identifier.
    pub fn new(name: String) -> (r: Self)
        ensures
            is_uuid_v4_text(r.id@),
            r.name == name,
    {
        let id = new_uuid_v4_string();
        Self { id, name }
    }
}

impl Clone for Namespace {
    fn clone(&self) -> (r: Self)
        ensures
            r == *self,
    {
        Namespace { id: self.id.clone(), name: self.name.clone() }
    }
}

impl Default for Namespace {
    /// The `default` namespace, with the nil identifier.
    fn default() -> (r: Self)
        ensures
            r.id@ == nil_uuid_text(),
            r.name@ == default_namespace_name(),
    {
        Self { id: nil_uuid_string(), name: default_namespace() }
    }
}

impl From<&str> for Namespace {
    /// A namespace named `s`, with a fresh identifier.
    fn from(s: &str) -> (r: Self)
        ensures
            is_uuid_v4_text(r.id@),
            r.name@ == s@,
    {
        Self::new(s.to_owned())
    }
}

impl vstd::std_specs::convert::FromSpecImpl<&str> for Namespace {
    open spec fn obeys_from_spec() -> bool {
        false
    }

    open spec fn from_spec(v: &str) -> Self {
        arbitrary()
    }
}

/// Some namespace of `vals` is named `name`.
pub open spec fn namespace_named(vals: Seq<Namespace>, name: Seq<char>) -> bool {
    exists|i: int| 0 <= i < vals.len() && (#[trigger] vals[i]).name@ == name
}

/// No two namespaces of `vals` share a name.
pub open spec fn namespace_names_distinct(vals: Seq<Namespace>) -> bool {
    forall|i: int, j: int|
        0 <= i < vals.len() && 0 <= j < vals.len() && i != j ==> (#[trigger] vals[i]).name@
            != (#[trigger] vals[j]).name@
}

/// The namespaces of `vals` that are not named `name`.
pub open spec fn namespaces_without(vals: Seq<Namespace>, name: Seq<char>) -> Seq<Namespace> {
    vals.filter(|x: Namespace| x.name@ != name)
}

/// The values after appending `v` to `old`: added at the end unless a
/// namespace of that name is already kept.
pub open spec fn namespace_appended(old: Seq<Namespace>, v: Namespace) -> Seq<Namespace> {
    if namespace_named(old, v.name@) {
        old
    } else {
        old.push(v)
    }
}

/// The values after removing `v` from `old`: every namespace of that name
/// goes, except the `default` namespace, which stays.
pub open spec fn namespace_removed(old: Seq<Namespace>, v: Namespace) -> Seq<Namespace> {
    if v.name@ == default_namespace_name() {
        old
    } else {
        namespaces_without(old, v.name@)
    }
}

/// The store of namespaces.
pub struct NamespaceStore<T: Storage> {
    /// The storage backend.
    pub storage: T,
    /// The namespaces.
    pub values: Vec<Namespace>,
}

impl<T: Storage> NamespaceStore<T> {
    /// Creates an empty store over `storage`.
    pub fn new(storage: T) -> (r: Self)
        ensures
            r.storage == storage,
            r.values@ == Seq::<Namespace>::empty(),
    {
        Self { storage, values: Vec::new() }
    }
}

/// Whether some namespace of `vals` is named like `name`.
fn contains_namespace_named(vals: &Vec<Namespace>, name: &String) -> (r: bool)
    ensures
        r == namespace_named(vals@, name@),
{
    let mut i: usize = 0;
    while i < vals.len()
        invariant
            i <= vals@.len(),
            forall|j: int| 0 <= j < i ==> (#[trigger] vals@[j]).name@ != name@,
        decreases vals@.len() - i,
    {
        if vals[i].name == *name {
            return true;
        }
        i = i + 1;
    }
    false
}

impl<T: Storage> Store for NamespaceStore<T> {
    type Target = Namespace;

    type Storage = T;

    fn get_storage(&self) -> (r: T)
        ensures
            cloned(self.storage, r),
    {
        self.storage.clone()
    }

    fn get_storage_key(&self) -> (r: &str)
        ensures
            r@ == "NamespaceStorage"@,
    {
        "NamespaceStorage"
    }

    fn get_values(&self) -> (r: Vec<Namespace>)
        ensures
            r@ == self.values@,
    {
        let mut r: Vec<Namespace> = Vec::new();
        let mut i: usize = 0;
        while i < self.values.len()
            invariant
                i <= self.values@.len(),
                r@ == self.values@.subrange(0, i as int),
            decreases self.values@.len() - i,
        {
            r.push(self.values[i].clone());
            assert(r@ =~= self.values@.subrange(0, i + 1));
            i = i + 1;
        }
        assert(r@ =~= self.values@);
        r
    }

    fn set_values(&mut self, values: Vec<Namespace>)
        ensures
            final(self).values == values,
            final(self).storage == old(self).storage,
    {
        self.values = values;
    }

    open spec fn append_defined(&self, value: Namespace) -> bool {
        true
    }

    fn append(&mut self, value: Namespace) -> (r: Result<(), DataError>)
        ensures
            r is Ok,
            final(self).values@ == namespace_appended(old(self).values@, value),
            final(self).storage == old(self).storage,
    {
        if !contains_namespace_named(&self.values, &value.name) {
            self.values.push(value);
        }
        Ok(())
    }

    fn remove(&mut self, value: Namespace) -> (r: Result<(), DataError>)
        ensures
            r is Ok,
            final(self).values@ == namespace_removed(old(self).values@, value),
            final(self).storage == old(self).storage,
    {
        let default_name = default_namespace();
        if value.name != default_name {
            let ghost start = self.values@;
            let mut kept: Vec<Namespace> = Vec::new();
            let mut k: usize = 0;
            while k < self.values.len()
                invariant
                    k <= start.len(),
                    self.values@ == start,
                    kept@ == namespaces_without(start.subrange(0, k as int), value.name@),
                decreases start.len() - k,
            {
                let keep = self.values[k].name != value.name;
                if keep {
                    kept.push(self.values[k].clone());
                }
                proof {
                    reveal(Seq::filter);
                    let pre = start.subrange(0, k + 1);
                    assert(pre.drop_last() =~= start.subrange(0, k as int));
                    assert(pre.last() == start[k as int]);
                    assert(kept@ =~= namespaces_without(pre, value.name@));
                }
                k = k + 1;
            }
            assert(start.subrange(0, start.len() as int) =~= start);
            self.values = kept;
        }
        Ok(())
    }
}

} // verus!
