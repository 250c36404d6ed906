//! The registry: services grouped by namespace and name, and the store that
//! keeps the registries.
use vstd::prelude::*;
use crate::clock::Clock;
use crate::external::{is_uuid_v4_text, new_uuid_v4_string};
use crate::ident::{default_namespace, default_namespace_name};
use crate::service::{same_service, Service};
use crate::error::DataError;
use crate::storage::Storage;
use crate::store::Store;

verus! {

/// The services registered under one name in one namespace.
pub struct Registry {
    /// Identifier of the registry.
    pub id: String,
    /// Namespace of the registry.
    pub namespace: String,
    /// Name of the registry.
    pub name: String,
    /// The registered services, in the order they came.
    pub services: Vec<Service>,
}

/// What a registry holds, as plain values.
pub struct RegistryView {
    /// Identifier.
    pub id: Seq<char>,
    /// Namespace.
    pub namespace: Seq<char>,
    /// Name.
    pub name: Seq<char>,
    /// Registered services, in order.
    pub services: Seq<Service>,
}

impl View for Registry {
    type V = RegistryView;

    open spec fn view(&self) -> RegistryView {
        RegistryView {
            id: self.id@,
            namespace: self.namespace@,
            name: self.name@,
            services: self.services@,
        }
    }
}

/// The views of a list of registries.
pub open spec fn registries_view(s: Seq<Registry>) -> Seq<RegistryView> {
    s.map_values(|r: Registry| r@)
}

/// The namespace a registry is created in when none is given.
pub open spec fn namespace_or_default(namespace: Option<String>) -> Seq<char> {
    match namespace {
        Some(n) => n@,
        None => default_namespace_name(),
    }
}

/// Two registries stand for the same group when namespace and name agree.
pub open spec fn same_registry(a: RegistryView, b: RegistryView) -> bool {
    a.namespace == b.namespace && a.name == b.name
}

/// No registry of `vals` stands for the group of `v`.
pub open spec fn no_registry_match(vals: Seq<RegistryView>, v: RegistryView) -> bool {
    forall|j: int| 0 <= j < vals.len() ==> !same_registry(#[trigger] vals[j], v)
}

/// `i` is the first registry of `vals` that stands for the group of `v`.
pub open spec fn is_first_registry_match(vals: Seq<RegistryView>, v: RegistryView, i: int) -> bool {
    &&& 0 <= i < vals.len()
    &&& same_registry(vals[i], v)
    &&& forall|j: int| 0 <= j < i ==> !same_registry(#[trigger] vals[j], v)
}

/// Some service of `s` is the same instance as `x`.
pub open spec fn service_in(s: Seq<Service>, x: Service) -> bool {
    exists|k: int| 0 <= k < s.len() && same_service(#[trigger] s[k], x)
}

/// `new` is `old` with the instances named in `incoming` refreshed at time
/// `now`: same length, same host and port everywhere, every named instance
/// carries `now` as its registration time, and every service that no
/// incoming one names is untouched.
pub open spec fn services_refreshed(old: Seq<Service>, new: Seq<Service>, incoming: Seq<Service>, now: i64) -> bool {
    &&& new.len() == old.len()
    &&& forall|k: int| 0 <= k < old.len() ==> (#[trigger] new[k]).host == old[k].host && new[k].port == old[k].port
    &&& forall|k: int| 0 <= k < old.len() && service_in(incoming, old[k]) ==> (#[trigger] new[k]).reg_time == now
    &&& forall|k: int| 0 <= k < old.len() && !service_in(incoming, old[k]) ==> #[trigger] new[k] == old[k]
}

/// The services of a group after a registry bringing `incoming` joins it:
/// if its first incoming service is already registered, the registered
/// instances that `incoming` names are refreshed at one reading of the
/// clock (not negative); otherwise that first incoming service is added.
pub open spec fn group_services_appended(old: Seq<Service>, new: Seq<Service>, incoming: Seq<Service>) -> bool {
    if service_in(old, incoming[0]) {
        exists|now: i64| now >= 0 && #[trigger] services_refreshed(old, new, incoming, now)
    } else {
        new == old.push(incoming[0])
    }
}

/// `new` is `old` where registry `i` alone has changed, keeping its
/// identifier, namespace and name.
pub open spec fn only_registry_changed(old: Seq<RegistryView>, new: Seq<RegistryView>, i: int) -> bool {
    &&& new.len() == old.len()
    &&& forall|j: int| 0 <= j < old.len() && j != i ==> #[trigger] new[j] == old[j]
    &&& new[i].id == old[i].id
    &&& new[i].namespace == old[i].namespace
    &&& new[i].name == old[i].name
}

/// When appending `v` to `vals` is defined: a registry that joins an
/// existing group brings at least one service.
pub open spec fn registry_append_defined(vals: Seq<RegistryView>, v: RegistryView) -> bool {
    no_registry_match(vals, v) || v.services.len() > 0
}

/// The values after appending `v` to `old`: a new group is added at the
/// end; for an existing group, if its first incoming service is already
/// registered, the registered instances that `v` names are refreshed,
/// otherwise that first incoming service is added to the group.
pub open spec fn registry_appended(old: Seq<RegistryView>, new: Seq<RegistryView>, v: RegistryView) -> bool {
    if no_registry_match(old, v) {
        new == old.push(v)
    } else {
        exists|i: int|
            #![trigger old[i]]
            {
                &&& is_first_registry_match(old, v, i)
                &&& only_registry_changed(old, new, i)
                &&& group_services_appended(old[i].services, new[i].services, v.services)
            }
    }
}

/// The services of a group after a registry bringing `incoming` joins it
/// at time `now`: if its first incoming service is already registered, the
/// registered instances that `incoming` names are refreshed at `now`;
/// otherwise that first incoming service is added.
pub open spec fn group_services_appended_at(old: Seq<Service>, new: Seq<Service>, incoming: Seq<Service>, now: i64) -> bool {
    if service_in(old, incoming[0]) {
        services_refreshed(old, new, incoming, now)
    } else {
        new == old.push(incoming[0])
    }
}

/// The values after appending `v` to `old` at time `now`: as
/// `registry_appended`, with every refreshed instance stamped `now`.
pub open spec fn registry_appended_at(old: Seq<RegistryView>, new: Seq<RegistryView>, v: RegistryView, now: i64) -> bool {
    if no_registry_match(old, v) {
        new == old.push(v)
    } else {
        exists|i: int|
            #![trigger old[i]]
            {
                &&& is_first_registry_match(old, v, i)
                &&& only_registry_changed(old, new, i)
                &&& group_services_appended_at(old[i].services, new[i].services, v.services, now)
            }
    }
}

/// Appending at a time that is not negative is an append.
pub proof fn lemma_appended_at_is_appended(old: Seq<RegistryView>, new: Seq<RegistryView>, v: RegistryView, now: i64)
    requires
        now >= 0,
        registry_appended_at(old, new, v, now),
    ensures
        registry_appended(old, new, v),
{
    if !no_registry_match(old, v) {
        let i = choose|i: int|
            #![trigger old[i]]
            {
                &&& is_first_registry_match(old, v, i)
                &&& only_registry_changed(old, new, i)
                &&& group_services_appended_at(old[i].services, new[i].services, v.services, now)
            };
        if service_in(old[i].services, v.services[0]) {
            assert(services_refreshed(old[i].services, new[i].services, v.services, now));
        }
        assert(group_services_appended(old[i].services, new[i].services, v.services));
    }
}

/// The services of `s` that no service of `removed` names.
pub open spec fn services_without(s: Seq<Service>, removed: Seq<Service>) -> Seq<Service> {
    s.filter(|x: Service| !service_in(removed, x))
}

/// The values after removing `v` from `old`: nothing changes for an unknown
/// group; otherwise the first registry of the group loses every service
/// that `v` names.
pub open spec fn registry_removed(old: Seq<RegistryView>, new: Seq<RegistryView>, v: RegistryView) -> bool {
    if no_registry_match(old, v) {
        new == old
    } else {
        exists|i: int|
            #![trigger old[i]]
            {
                &&& is_first_registry_match(old, v, i)
                &&& only_registry_changed(old, new, i)
                &&& new[i].services == services_without(old[i].services, v.services)
            }
    }
}

/// Copies a list of services.
pub fn clone_services(v: &Vec<Service>) -> (r: Vec<Service>)
    ensures
        r@ == v@,
{
    let mut r: Vec<Service> = Vec::new();
    let mut i: usize = 0;
    while i < v.len()
        invariant
            i <= v@.len(),
            r@ == v@.subrange(0, i as int),
        decreases v@.len() - i,
    {
        r.push(v[i].clone());
        assert(r@ =~= v@.subrange(0, i + 1));
        i = i + 1;
    }
    assert(r@ =~= v@);
    r
}

/// Whether some service of `s` is the same instance as `x`.
fn contains_service(s: &Vec<Service>, x: &Service) -> (r: bool)
    ensures
        r == service_in(s@, *x),
{
    let mut k: usize = 0;
    while k < s.len()
        invariant
            k <= s@.len(),
            forall|j: int| 0 <= j < k ==> !same_service(#[trigger] s@[j], *x),
        decreases s@.len() - k,
    {
        if s[k] == *x {
            assert(same_service(s@[k as int], *x));
            return true;
        }
        k = k + 1;
    }
    false
}

/// Refreshes at time `now` every service of `services` that some service
/// of `incoming` names.
fn refresh_services(services: &mut Vec<Service>, incoming: &Vec<Service>, now: i64)
    ensures
        services_refreshed(old(services)@, final(services)@, incoming@, now),
{
    let ghost start = services@;
    let mut k: usize = 0;
    while k < services.len()
        invariant
            k <= services@.len(),
            services@.len() == start.len(),
            forall|j: int| 0 <= j < start.len() ==> (#[trigger] services@[j]).host == start[j].host
                && services@[j].port == start[j].port,
            forall|j: int| 0 <= j < start.len() && (k <= j || !service_in(incoming@, start[j]))
                ==> #[trigger] services@[j] == start[j],
            forall|j: int| 0 <= j < k && service_in(incoming@, start[j]) ==> (#[trigger] services@[j]).reg_time == now,
        decreases start.len() - k,
    {
        if contains_service(incoming, &services[k]) {
            services[k].fresh_at(now);
        }
        k = k + 1;
    }
}

/// Index of the first registry of `values` that stands for the group of `value`.
fn find_registry(values: &Vec<Registry>, value: &Registry) -> (r: Option<usize>)
    ensures
        match r {
            Some(i) => is_first_registry_match(registries_view(values@), value@, i as int),
            None => no_registry_match(registries_view(values@), value@),
        },
{
    let ghost vs = registries_view(values@);
    let mut i: usize = 0;
    while i < values.len()
        invariant
            i <= values@.len(),
            vs == registries_view(values@),
            forall|j: int| 0 <= j < i ==> !same_registry(#[trigger] vs[j], value@),
        decreases values@.len() - i,
    {
        if values[i].namespace == value.namespace && values[i].name == value.name {
            return Some(i);
        }
        i = i + 1;
    }
    None
}

impl Clone for Registry {
    fn clone(&self) -> (r: Self)
        ensures
            r@ == self@,
    {
        let services = clone_services(&self.services);
        Registry {
            id: self.id.clone(),
            namespace: self.namespace.clone(),
            name: self.name.clone(),
            services,
        }
    }
}

impl Registry {
    /// Creates an empty registry with a fresh identifier, in the given
    /// namespace or in `default`.
    pub fn new(namespace: Option<String>, name: String) -> (r: Registry)
        ensures
            is_uuid_v4_text(r.id@),
            r.namespace@ == namespace_or_default(namespace),
            r.name == name,
            r.services@ == Seq::<Service>::empty(),
    {
        let id = new_uuid_v4_string();
        let namespace = match namespace {
            Some(n) => n,
            None => default_namespace(),
        };
        Registry { id, namespace, name, services: Vec::new() }
    }

    /// Registers a service: it is added after the others.
    pub fn register_service(&mut self, service: Service) -> (r: Result<(), DataError>)
        ensures
            r is Ok,
            final(self).id == old(self).id,
            final(self).namespace == old(self).namespace,
            final(self).name == old(self).name,
            final(self).services@ == old(self).services@.push(service),
    {
        self.services.push(service);
        Ok(())
    }
}

/// The store of registries.
pub struct RegistryStore<T: Storage> {
    /// The storage backend.
    pub storage: T,
    /// The registries.
    pub values: Vec<Registry>,
    /// The clock that refreshes read.
    pub clock: Clock,
}

impl<T: Storage> View for RegistryStore<T> {
    type V = Seq<RegistryView>;

    open spec fn view(&self) -> Seq<RegistryView> {
        registries_view(self.values@)
    }
}

impl<T: Storage> RegistryStore<T> {
    /// Creates an empty store over `storage`.
    pub fn new(storage: T) -> (r: Self)
        ensures
            r.storage == storage,
            r@ == Seq::<RegistryView>::empty(),
            r.clock.readings() == Seq::<i64>::empty(),
    {
        let r = Self { storage, values: Vec::new(), clock: Clock::new() };
        assert(r@ =~= Seq::<RegistryView>::empty());
        r
    }

    /// Appends `value` at time `now`: a registry of a new group is added at
    /// the end; for an existing group, if its first incoming service is
    /// already registered, every registered instance that `value` names is
    /// refreshed with registration time `now`, otherwise that first
    /// incoming service joins the group.
    pub fn append_at(&mut self, value: Registry, now: i64) -> (r: Result<(), DataError>)
        requires
            registry_append_defined(old(self)@, value@),
        ensures
            r is Ok,
            registry_appended_at(old(self)@, final(self)@, value@, now),
            final(self).storage == old(self).storage,
            final(self).clock == old(self).clock,
    {
        let ghost old_vals = self.values@;
        match find_registry(&self.values, &value) {
            None => {
                self.values.push(value);
                assert(self@ =~= registries_view(old_vals).push(value@));
            },
            Some(i) => {
                let item = &mut self.values[i];
                if contains_service(&item.services, &value.services[0]) {
                    refresh_services(&mut item.services, &value.services, now);
                } else {
                    item.services.push(value.services[0].clone());
                }
                assert(self.values@ == old_vals.update(i as int, self.values@[i as int]));
                assert(only_registry_changed(registries_view(old_vals), self@, i as int));
            },
        }
        Ok(())
    }
}

impl<T: Storage> Store for RegistryStore<T> {
    type Target = Registry;

    type Storage = T;

    fn get_storage(&self) -> (r: T)
        ensures
            cloned(self.storage, r),
    {
        self.storage.clone()
    }

    fn get_storage_key(&self) -> (r: &str)
        ensures
            r@ == "RegistryStorage"@,
    {
        "RegistryStorage"
    }

    fn get_values(&self) -> (r: Vec<Registry>)
        ensures
            registries_view(r@) == self@,
    {
        let mut r: Vec<Registry> = Vec::new();
        let mut i: usize = 0;
        while i < self.values.len()
            invariant
                i <= self.values@.len(),
                r@.len() == i,
                forall|j: int| 0 <= j < i ==> (#[trigger] r@[j])@ == self.values@[j]@,
            decreases self.values@.len() - i,
        {
            let x = self.values[i].clone();
            r.push(x);
            i = i + 1;
        }
        assert(registries_view(r@) =~= registries_view(self.values@));
        r
    }

    fn set_values(&mut self, values: Vec<Registry>)
        ensures
            final(self).values == values,
            final(self).storage == old(self).storage,
    {
        self.values = values;
    }

    open spec fn append_defined(&self, value: Registry) -> bool {
        registry_append_defined(self@, value@)
    }

    fn append(&mut self, value: Registry) -> (r: Result<(), DataError>)
        ensures
            r is Ok,
            registry_appended(old(self)@, final(self)@, value@),
            final(self).storage == old(self).storage,
            final(self).clock.readings().len() == old(self).clock.readings().len() + 1,
            final(self).clock.readings().drop_last() == old(self).clock.readings(),
            registry_appended_at(old(self)@, final(self)@, value@, final(self).clock.readings().last()),
    {
        let ghost before = self.clock.readings();
        let now = self.clock.now();
        let r = self.append_at(value, now);
        proof {
            lemma_appended_at_is_appended(old(self)@, self@, value@, now);
            assert(self.clock.readings().drop_last() =~= before);
        }
        r
    }

    fn remove(&mut self, value: Registry) -> (r: Result<(), DataError>)
        ensures
            r is Ok,
            registry_removed(old(self)@, final(self)@, value@),
            final(self).storage == old(self).storage,
    {
        let ghost old_vals = self.values@;
        match find_registry(&self.values, &value) {
            None => {},
            Some(i) => {
                let item = &mut self.values[i];
                let ghost start = item.services@;
                let mut kept: Vec<Service> = Vec::new();
                let mut k: usize = 0;
                while k < item.services.len()
                    invariant
                        k <= start.len(),
                        item.services@ == start,
                        kept@ == services_without(start.subrange(0, k as int), value.services@),
                    decreases start.len() - k,
                {
                    let present = contains_service(&value.services, &item.services[k]);
                    if !present {
                        kept.push(item.services[k].clone());
                    }
                    proof {
                        reveal(Seq::filter);
                        let pre = start.subrange(0, k + 1);
                        assert(pre.drop_last() =~= start.subrange(0, k as int));
                        assert(pre.last() == start[k as int]);
                        assert(present == service_in(value.services@, start[k as int]));
                        assert(kept@ =~= services_without(pre, value.services@));
                    }
                    k = k + 1;
                }
                assert(start.subrange(0, start.len() as int) =~= start);
                item.services = kept;
                assert(self.values@ == old_vals.update(i as int, self.values@[i as int]));
                assert(only_registry_changed(registries_view(old_vals), self@, i as int));
            },
        }
        Ok(())
    }
}

} // verus!
