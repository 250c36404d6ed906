//! Configurations: named JSON values grouped by namespace, and the store
//! that keeps them.
use vstd::prelude::*;
use serde_json::Value;
use crate::assoc::{
    assoc_map, has_key, keys_distinct, lemma_assoc_empty, lemma_assoc_lookup, lemma_assoc_push,
    lemma_assoc_prefix, lemma_assoc_remove, lemma_assoc_update,
};
use crate::external::{clone_value, is_uuid_v4_text, new_uuid_v4_string};
use crate::ident::default_namespace;
use crate::registry::namespace_or_default;
use crate::error::DataError;
use crate::storage::Storage;
use crate::store::Store;

verus! {

/// The view of one configuration entry.
pub open spec fn config_entry_view(e: (String, Value)) -> (Seq<char>, Value) {
    (e.0@, e.1)
}

/// The view of a list of configuration entries.
pub open spec fn config_entries_view(s: Seq<(String, Value)>) -> Seq<(Seq<char>, Value)> {
    s.map_values(|e: (String, Value)| config_entry_view(e))
}

/// The map that a list of entries builds when they are set one after the
/// other: where a name occurs twice the later value wins.
pub open spec fn entries_in_order(s: Seq<(Seq<char>, Value)>) -> Map<Seq<char>, Value>
    decreases s.len(),
{
    if s.len() == 0 {
        Map::empty()
    } else {
        entries_in_order(s.drop_last()).insert(s.last().0, s.last().1)
    }
}

/// The configurations of one namespace: values under names.
pub struct Configurator {
    id: String,
    namespace: String,
    configuration: Vec<(String, Value)>,
}

/// What a configurator holds, as plain values.
pub struct ConfiguratorView {
    /// Identifier.
    pub id: Seq<char>,
    /// Namespace.
    pub namespace: Seq<char>,
    /// The configuration values by name.
    pub configuration: Map<Seq<char>, Value>,
}

impl View for Configurator {
    type V = ConfiguratorView;

    closed spec fn view(&self) -> ConfiguratorView {
        ConfiguratorView {
            id: self.id@,
            namespace: self.namespace@,
            configuration: assoc_map(config_entries_view(self.configuration@)),
        }
    }
}

/// Copies a configuration entry.
fn clone_entry(e: &(String, Value)) -> (r: (String, Value))
    ensures
        config_entry_view(r) == config_entry_view(*e),
{
    (e.0.clone(), clone_value(&e.1))
}

impl Configurator {
    #[verifier::type_invariant]
    spec fn inv(&self) -> bool {
        keys_distinct(config_entries_view(self.configuration@))
    }

    /// Creates an empty configurator with a fresh identifier, in the given
    /// namespace or in `default`.
    pub fn new(namespace: Option<String>) -> (r: Configurator)
        ensures
            is_uuid_v4_text(r@.id),
            r@.namespace == namespace_or_default(namespace),
            r@.configuration == Map::<Seq<char>, Value>::empty(),
    {
        let id = new_uuid_v4_string();
        let namespace = match namespace {
            Some(n) => n,
            None => default_namespace(),
        };
        let configuration: Vec<(String, Value)> = Vec::new();
        proof {
            lemma_assoc_empty(config_entries_view(configuration@));
        }
        Configurator { id, namespace, configuration }
    }

    /// Builds a configurator from its parts; where a name occurs twice the
    /// later value wins.
    pub fn from_parts(id: String, namespace: String, entries: Vec<(String, Value)>) -> (r: Configurator)
        ensures
            r@.id == id@,
            r@.namespace == namespace@,
            r@.configuration == entries_in_order(config_entries_view(entries@)),
    {
        let configuration: Vec<(String, Value)> = Vec::new();
        proof {
            lemma_assoc_empty(config_entries_view(configuration@));
        }
        let mut r = Configurator { id, namespace, configuration };
        let mut j: usize = 0;
        while j < entries.len()
            invariant
                j <= entries@.len(),
                r@.id == id@,
                r@.namespace == namespace@,
                r@.configuration == entries_in_order(config_entries_view(entries@.subrange(0, j as int))),
            decreases entries@.len() - j,
        {
            let e = clone_entry(&entries[j]);
            r.set_configuration(e.0, e.1);
            proof {
                let post = config_entries_view(entries@.subrange(0, j + 1));
                assert(post.drop_last() =~= config_entries_view(entries@.subrange(0, j as int)));
                assert(post.last() == config_entry_view(entries@[j as int]));
            }
            j = j + 1;
        }
        proof {
            assert(entries@.subrange(0, entries@.len() as int) =~= entries@);
        }
        r
    }

    /// Identifier of the configurator.
    pub fn get_id(&self) -> (r: &String)
        ensures
            r@ == self@.id,
    {
        &self.id
    }

    /// Namespace of the configurator.
    pub fn get_namespace(&self) -> (r: &String)
        ensures
            r@ == self@.namespace,
    {
        &self.namespace
    }

    /// The configuration entries, one per name.
    pub fn entries(&self) -> (r: Vec<(String, Value)>)
        ensures
            keys_distinct(config_entries_view(r@)),
            assoc_map(config_entries_view(r@)) == self@.configuration,
    {
        proof {
            use_type_invariant(self);
        }
        let mut r: Vec<(String, Value)> = Vec::new();
        let mut i: usize = 0;
        while i < self.configuration.len()
            invariant
                i <= self.configuration@.len(),
                r@.len() == i,
                forall|j: int| 0 <= j < i ==> #[trigger] config_entry_view(r@[j]) == config_entry_view(
                    self.configuration@[j],
                ),
            decreases self.configuration@.len() - i,
        {
            r.push(clone_entry(&self.configuration[i]));
            i = i + 1;
        }
        assert(config_entries_view(r@) =~= config_entries_view(self.configuration@));
        r
    }

    /// Index of the entry named `name`, if any.
    fn find(&self, name: &String) -> (r: Option<usize>)
        ensures
            match r {
                Some(i) => i < self.configuration@.len() && self.configuration@[i as int].0@
                    == name@,
                None => !has_key(config_entries_view(self.configuration@), name@),
            },
    {
        let mut i: usize = 0;
        while i < self.configuration.len()
            invariant
                i <= self.configuration@.len(),
                forall|j: int| 0 <= j < i ==> self.configuration@[j].0@ != name@,
            decreases self.configuration@.len() - i,
        {
            if self.configuration[i].0 == *name {
                return Some(i);
            }
            i = i + 1;
        }
        proof {
            let s = config_entries_view(self.configuration@);
            if has_key(s, name@) {
                let j = choose|j: int| 0 <= j < s.len() && s[j].0 == name@;
                assert(s[j] == config_entry_view(self.configuration@[j]));
            }
        }
        None
    }

    /// Sets the configuration value named `name`.
    pub fn set_configuration(&mut self, name: String, config: Value) -> (r: Result<(), DataError>)
        ensures
            r is Ok,
            final(self)@.id == old(self)@.id,
            final(self)@.namespace == old(self)@.namespace,
            final(self)@.configuration == old(self)@.configuration.insert(name@, config),
    {
        proof {
            use_type_invariant(&*self);
        }
        let ghost old_entries = config_entries_view(self.configuration@);
        let ghost key = name@;
        let mut entries: Vec<(String, Value)> = Vec::new();
        match self.find(&name) {
            Some(i) => {
                std::mem::swap(&mut entries, &mut self.configuration);
                entries.set(i, (name, config));
                proof {
                    lemma_assoc_update(old_entries, i as int, config);
                    assert(config_entries_view(entries@) =~= old_entries.update(
                        i as int,
                        (old_entries[i as int].0, config),
                    ));
                }
            },
            None => {
                std::mem::swap(&mut entries, &mut self.configuration);
                entries.push((name, config));
                proof {
                    lemma_assoc_push(old_entries, key, config);
                    assert(config_entries_view(entries@) =~= old_entries.push((key, config)));
                }
            },
        }
        self.configuration = entries;
        Ok(())
    }

    /// Removes the configuration value named `name`, if any.
    fn remove_configuration(&mut self, name: &String)
        ensures
            final(self)@.id == old(self)@.id,
            final(self)@.namespace == old(self)@.namespace,
            final(self)@.configuration == old(self)@.configuration.remove(name@),
    {
        proof {
            use_type_invariant(&*self);
        }
        let ghost old_entries = config_entries_view(self.configuration@);
        match self.find(name) {
            Some(i) => {
                let mut entries: Vec<(String, Value)> = Vec::new();
                std::mem::swap(&mut entries, &mut self.configuration);
                let _ = entries.remove(i);
                proof {
                    lemma_assoc_remove(old_entries, i as int);
                    assert(config_entries_view(entries@) =~= old_entries.remove(i as int));
                }
                self.configuration = entries;
            },
            None => {
                proof {
                    assert(assoc_map(old_entries) =~= assoc_map(old_entries).remove(name@));
                }
            },
        }
    }

    /// The configuration value named `name`, if any.
    pub fn get_configuration(&mut self, name: String) -> (r: Option<Value>)
        ensures
            final(self)@ == old(self)@,
            r == (if old(self)@.configuration.contains_key(name@) {
                Some(old(self)@.configuration[name@])
            } else {
                None
            }),
    {
        proof {
            use_type_invariant(&*self);
        }
        match self.find(&name) {
            Some(i) => {
                proof {
                    let s = config_entries_view(self.configuration@);
                    lemma_assoc_lookup(s, i as int);
                    assert(s[i as int] == config_entry_view(self.configuration@[i as int]));
                }
                Some(clone_value(&self.configuration[i].1))
            },
            None => None,
        }
    }

    /// Whether a configuration value is named `name`.
    pub fn has_configuration(&mut self, name: String) -> (r: bool)
        ensures
            final(self)@ == old(self)@,
            r == old(self)@.configuration.contains_key(name@),
    {
        proof {
            use_type_invariant(&*self);
        }
        match self.find(&name) {
            Some(i) => {
                proof {
                    let s = config_entries_view(self.configuration@);
                    lemma_assoc_lookup(s, i as int);
                    assert(s[i as int] == config_entry_view(self.configuration@[i as int]));
                }
                true
            },
            None => false,
        }
    }
}

impl Configurator {
    /// Sets every configuration value of `other` here, replacing values of
    /// the same name.
    fn merge_from(&mut self, other: &Configurator)
        ensures
            final(self)@.id == old(self)@.id,
            final(self)@.namespace == old(self)@.namespace,
            final(self)@.configuration == old(self)@.configuration.union_prefer_right(
                other@.configuration,
            ),
    {
        proof {
            use_type_invariant(other);
        }
        let ghost start = self@.configuration;
        let ghost s = config_entries_view(other.configuration@);
        let mut j: usize = 0;
        while j < other.configuration.len()
            invariant
                j <= s.len(),
                s == config_entries_view(other.configuration@),
                keys_distinct(s),
                self@.id == old(self)@.id,
                self@.namespace == old(self)@.namespace,
                self@.configuration == start.union_prefer_right(assoc_map(s.subrange(0, j as int))),
            decreases s.len() - j,
        {
            let e = clone_entry(&other.configuration[j]);
            let ghost before = self@.configuration;
            self.set_configuration(e.0, e.1);
            proof {
                assert(s[j as int] == config_entry_view(other.configuration@[j as int]));
                lemma_assoc_prefix(s, j as int);
                let a = assoc_map(s.subrange(0, j as int));
                assert(self@.configuration =~= start.union_prefer_right(
                    a.insert(s[j as int].0, s[j as int].1),
                ));
            }
            j = j + 1;
        }
        proof {
            assert(s.subrange(0, s.len() as int) =~= s);
        }
    }

    /// Removes every configuration value whose name `other` holds.
    fn remove_names_of(&mut self, other: &Configurator)
        ensures
            final(self)@.id == old(self)@.id,
            final(self)@.namespace == old(self)@.namespace,
            final(self)@.configuration == old(self)@.configuration.remove_keys(
                other@.configuration.dom(),
            ),
    {
        proof {
            use_type_invariant(other);
        }
        let ghost start = self@.configuration;
        let ghost s = config_entries_view(other.configuration@);
        let mut j: usize = 0;
        while j < other.configuration.len()
            invariant
                j <= s.len(),
                s == config_entries_view(other.configuration@),
                keys_distinct(s),
                self@.id == old(self)@.id,
                self@.namespace == old(self)@.namespace,
                self@.configuration == start.remove_keys(assoc_map(s.subrange(0, j as int)).dom()),
            decreases s.len() - j,
        {
            self.remove_configuration(&other.configuration[j].0);
            proof {
                assert(s[j as int] == config_entry_view(other.configuration@[j as int]));
                lemma_assoc_prefix(s, j as int);
                let a = assoc_map(s.subrange(0, j as int));
                assert(assoc_map(s.subrange(0, j + 1)).dom() =~= a.dom().insert(s[j as int].0));
                assert(self@.configuration =~= start.remove_keys(a.dom().insert(s[j as int].0)));
            }
            j = j + 1;
        }
        proof {
            assert(s.subrange(0, s.len() as int) =~= s);
        }
    }
}

impl Clone for Configurator {
    fn clone(&self) -> (r: Self)
        ensures
            r@ == self@,
    {
        proof {
            use_type_invariant(self);
        }
        let mut entries: Vec<(String, Value)> = Vec::new();
        let mut i: usize = 0;
        while i < self.configuration.len()
            invariant
                i <= self.configuration@.len(),
                entries@.len() == i,
                forall|j: int| 0 <= j < i ==> #[trigger] config_entry_view(entries@[j]) == config_entry_view(
                    self.configuration@[j],
                ),
            decreases self.configuration@.len() - i,
        {
            entries.push(clone_entry(&self.configuration[i]));
            i = i + 1;
        }
        assert(config_entries_view(entries@) =~= config_entries_view(self.configuration@));
        Configurator { id: self.id.clone(), namespace: self.namespace.clone(), configuration: entries }
    }
}

/// The views of a list of configurators.
pub open spec fn configurators_view(s: Seq<Configurator>) -> Seq<ConfiguratorView> {
    s.map_values(|c: Configurator| c@)
}

/// No configurator of `vals` is for namespace `ns`.
pub open spec fn no_configurator_for(vals: Seq<ConfiguratorView>, ns: Seq<char>) -> bool {
    forall|j: int| 0 <= j < vals.len() ==> (#[trigger] vals[j]).namespace != ns
}

/// `i` is the first configurator of `vals` for namespace `ns`.
pub open spec fn is_first_configurator_for(vals: Seq<ConfiguratorView>, ns: Seq<char>, i: int) -> bool {
    &&& 0 <= i < vals.len()
    &&& vals[i].namespace == ns
    &&& forall|j: int| 0 <= j < i ==> (#[trigger] vals[j]).namespace != ns
}

/// `new` is `old` where configurator `i` alone now holds `configuration`.
pub open spec fn only_configurator_changed(
    old: Seq<ConfiguratorView>,
    new: Seq<ConfiguratorView>,
    i: int,
    configuration: Map<Seq<char>, Value>,
) -> bool {
    &&& new.len() == old.len()
    &&& forall|j: int| 0 <= j < old.len() && j != i ==> #[trigger] new[j] == old[j]
    &&& new[i] == ConfiguratorView { configuration, ..old[i] }
}

/// The values after appending `v` to `old`: a new namespace is added at
/// the end; for a known namespace the first configurator takes every value
/// of `v`, replacing values of the same name.
pub open spec fn configurator_appended(
    old: Seq<ConfiguratorView>,
    new: Seq<ConfiguratorView>,
    v: ConfiguratorView,
) -> bool {
    if no_configurator_for(old, v.namespace) {
        new == old.push(v)
    } else {
        exists|i: int|
            #![trigger old[i]]
            is_first_configurator_for(old, v.namespace, i) && only_configurator_changed(
                old,
                new,
                i,
                old[i].configuration.union_prefer_right(v.configuration),
            )
    }
}

/// The values after removing `v` from `old`: nothing changes for an
/// unknown namespace; otherwise the first configurator of the namespace
/// loses every value whose name `v` holds.
pub open spec fn configurator_removed(
    old: Seq<ConfiguratorView>,
    new: Seq<ConfiguratorView>,
    v: ConfiguratorView,
) -> bool {
    if no_configurator_for(old, v.namespace) {
        new == old
    } else {
        exists|i: int|
            #![trigger old[i]]
            is_first_configurator_for(old, v.namespace, i) && only_configurator_changed(
                old,
                new,
                i,
                old[i].configuration.remove_keys(v.configuration.dom()),
            )
    }
}

/// The first configurator of `vals` for namespace `ns`, if any.
pub open spec fn first_configurator_for(vals: Seq<ConfiguratorView>, ns: Seq<char>) -> Option<ConfiguratorView> {
    if no_configurator_for(vals, ns) {
        None
    } else {
        Some(vals[choose|i: int| is_first_configurator_for(vals, ns, i)])
    }
}

/// The value of configuration `name` in namespace `ns`, if the first
/// configurator of the namespace holds one.
pub open spec fn configuration_value(vals: Seq<ConfiguratorView>, ns: Seq<char>, name: Seq<char>) -> Option<Value> {
    match first_configurator_for(vals, ns) {
        Some(c) => if c.configuration.contains_key(name) {
            Some(c.configuration[name])
        } else {
            None
        },
        None => None,
    }
}

/// The store of configurators.
pub struct ConfiguratorStore<T: Storage> {
    storage: T,
    values: Vec<Configurator>,
}

impl<T: Storage> View for ConfiguratorStore<T> {
    type V = Seq<ConfiguratorView>;

    closed spec fn view(&self) -> Seq<ConfiguratorView> {
        configurators_view(self.values@)
    }
}

/// Index of the first configurator of `values` for namespace `ns`.
fn find_configurator(values: &Vec<Configurator>, ns: &String) -> (r: Option<usize>)
    ensures
        match r {
            Some(i) => is_first_configurator_for(configurators_view(values@), ns@, i as int),
            None => no_configurator_for(configurators_view(values@), ns@),
        },
{
    let ghost vs = configurators_view(values@);
    let mut i: usize = 0;
    while i < values.len()
        invariant
            i <= values@.len(),
            vs == configurators_view(values@),
            forall|j: int| 0 <= j < i ==> (#[trigger] vs[j]).namespace != ns@,
        decreases values@.len() - i,
    {
        if *values[i].get_namespace() == *ns {
            return Some(i);
        }
        i = i + 1;
    }
    None
}

/// The first configurator is unique.
pub proof fn lemma_first_configurator_unique(vals: Seq<ConfiguratorView>, ns: Seq<char>, i: int)
    requires
        is_first_configurator_for(vals, ns, i),
    ensures
        first_configurator_for(vals, ns) == Some(vals[i]),
{
    let k = choose|k: int| is_first_configurator_for(vals, ns, k);
    assert(k == i);
}

impl<T: Storage> ConfiguratorStore<T> {
    /// The storage backend the store keeps.
    pub closed spec fn spec_storage(&self) -> T {
        self.storage
    }

    /// Creates an empty store over `storage`.
    pub fn new(storage: T) -> (r: Self)
        ensures
            r.spec_storage() == storage,
            r@ == Seq::<ConfiguratorView>::empty(),
    {
        let r = Self { storage, values: Vec::new() };
        assert(r@ =~= Seq::<ConfiguratorView>::empty());
        r
    }

    /// A copy of the first configurator for `namespace`, if any.
    pub fn get_configurations_by_namespace(&self, namespace: String) -> (r: Option<Configurator>)
        ensures
            match r {
                Some(c) => first_configurator_for(self@, namespace@) == Some(c@),
                None => first_configurator_for(self@, namespace@) is None,
            },
    {
        match find_configurator(&self.values, &namespace) {
            Some(i) => {
                proof {
                    lemma_first_configurator_unique(self@, namespace@, i as int);
                }
                Some(self.values[i].clone())
            },
            None => None,
        }
    }
}

impl<T: Storage> Store for ConfiguratorStore<T> {
    type Target = Configurator;

    type Storage = T;

    fn get_storage(&self) -> (r: T)
        ensures
            cloned(self.spec_storage(), r),
    {
        self.storage.clone()
    }

    fn get_storage_key(&self) -> (r: &str)
        ensures
            r@ == "ConfiguratorStorage"@,
    {
        "ConfiguratorStorage"
    }

    fn get_values(&self) -> (r: Vec<Configurator>)
        ensures
            configurators_view(r@) == self@,
    {
        let mut r: Vec<Configurator> = Vec::new();
        let mut i: usize = 0;
        while i < self.values.len()
            invariant
                i <= self.values@.len(),
                r@.len() == i,
                forall|j: int| 0 <= j < i ==> (#[trigger] r@[j])@ == self.values@[j]@,
            decreases self.values@.len() - i,
        {
            r.push(self.values[i].clone());
            i = i + 1;
        }
        assert(configurators_view(r@) =~= configurators_view(self.values@));
        r
    }

    fn set_values(&mut self, values: Vec<Configurator>)
        ensures
            final(self)@ == configurators_view(values@),
            final(self).spec_storage() == old(self).spec_storage(),
    {
        self.values = values;
    }

    open spec fn append_defined(&self, value: Configurator) -> bool {
        true
    }

    fn append(&mut self, value: Configurator) -> (r: Result<(), DataError>)
        ensures
            r is Ok,
            configurator_appended(old(self)@, final(self)@, value@),
            final(self).spec_storage() == old(self).spec_storage(),
    {
        let ghost old_vals = self.values@;
        match find_configurator(&self.values, value.get_namespace()) {
            None => {
                self.values.push(value);
                assert(self@ =~= configurators_view(old_vals).push(value@));
            },
            Some(i) => {
                self.values[i].merge_from(&value);
                assert(self.values@ == old_vals.update(i as int, self.values@[i as int]));
                assert(only_configurator_changed(
                    configurators_view(old_vals),
                    self@,
                    i as int,
                    old_vals[i as int]@.configuration.union_prefer_right(value@.configuration),
                ));
            },
        }
        Ok(())
    }

    fn remove(&mut self, value: Configurator) -> (r: Result<(), DataError>)
        ensures
            r is Ok,
            configurator_removed(old(self)@, final(self)@, value@),
            final(self).spec_storage() == old(self).spec_storage(),
    {
        let ghost old_vals = self.values@;
        match find_configurator(&self.values, value.get_namespace()) {
            None => {},
            Some(i) => {
                self.values[i].remove_names_of(&value);
                assert(self.values@ == old_vals.update(i as int, self.values@[i as int]));
                assert(only_configurator_changed(
                    configurators_view(old_vals),
                    self@,
                    i as int,
                    old_vals[i as int]@.configuration.remove_keys(value@.configuration.dom()),
                ));
            },
        }
        Ok(())
    }
}

} // verus!
