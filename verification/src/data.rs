//! The data layer: the three stores together, and how a request from a
//! client is dispatched to them.
use vstd::prelude::*;
use crate::configuration::{
    configurator_appended, configurator_removed, Configurator, ConfiguratorStore,
    ConfiguratorView,
};
use crate::external::is_uuid_v4_text;
use crate::namespace::{namespace_appended, namespace_removed, Namespace, NamespaceStore};
use crate::registry::{
    is_first_registry_match, namespace_or_default, no_registry_match, registries_view,
    registry_appended, registry_removed, clone_services, Registry, RegistryStore, RegistryView,
};
use crate::regs::{ConfigurationReg, LuoshuDataEnum, NamespaceReg, ServiceReg};
use crate::service::Service;
use crate::error::DataError;
use crate::storage::{LuoshuMemStorage, Storage};
use crate::store::Store;

verus! {

/// The namespaces after appending the namespace that `reg` asks for.
pub open spec fn namespace_reg_appended(old: Seq<Namespace>, new: Seq<Namespace>, reg: NamespaceReg) -> bool {
    exists|v: Namespace|
        #![trigger namespace_appended(old, v)]
        v.name == reg.name && is_uuid_v4_text(v.id@) && new == namespace_appended(old, v)
}

/// The namespaces after removing the namespace that `reg` names.
pub open spec fn namespace_reg_removed(old: Seq<Namespace>, new: Seq<Namespace>, reg: NamespaceReg) -> bool {
    exists|v: Namespace|
        #![trigger namespace_removed(old, v)]
        v.name == reg.name && is_uuid_v4_text(v.id@) && new == namespace_removed(old, v)
}

/// The configurator that a configuration request stands for, up to its identifier.
pub open spec fn configurator_of_reg(v: ConfiguratorView, reg: ConfigurationReg) -> bool {
    &&& is_uuid_v4_text(v.id)
    &&& v.namespace == reg.namespace@
    &&& v.configuration == map![reg.name@ => reg.config]
}

/// The configurators after appending what `reg` sets.
pub open spec fn configuration_reg_appended(
    old: Seq<ConfiguratorView>,
    new: Seq<ConfiguratorView>,
    reg: ConfigurationReg,
) -> bool {
    exists|v: ConfiguratorView|
        #![trigger configurator_appended(old, new, v)]
        configurator_of_reg(v, reg) && configurator_appended(old, new, v)
}

/// The configurators after removing what `reg` names.
pub open spec fn configuration_reg_removed(
    old: Seq<ConfiguratorView>,
    new: Seq<ConfiguratorView>,
    reg: ConfigurationReg,
) -> bool {
    exists|v: ConfiguratorView|
        #![trigger configurator_removed(old, new, v)]
        configurator_of_reg(v, reg) && configurator_removed(old, new, v)
}

/// The registry that a service registration stands for, up to its identifier.
pub open spec fn registry_of_reg(v: RegistryView, reg: ServiceReg) -> bool {
    &&& is_uuid_v4_text(v.id)
    &&& v.namespace == reg.namespace@
    &&& v.name == reg.name@
    &&& v.services == seq![reg.service]
}

/// The registries after appending the instance that `reg` registers.
pub open spec fn service_reg_appended(old: Seq<RegistryView>, new: Seq<RegistryView>, reg: ServiceReg) -> bool {
    exists|v: RegistryView|
        #![trigger registry_appended(old, new, v)]
        registry_of_reg(v, reg) && registry_appended(old, new, v)
}

/// The registries after removing the instance that `reg` registers.
pub open spec fn service_reg_removed(old: Seq<RegistryView>, new: Seq<RegistryView>, reg: ServiceReg) -> bool {
    exists|v: RegistryView|
        #![trigger registry_removed(old, new, v)]
        registry_of_reg(v, reg) && registry_removed(old, new, v)
}

/// The services registered under `name` in namespace `ns`: those of the
/// first matching registry, or none.
pub open spec fn services_of(vals: Seq<RegistryView>, ns: Seq<char>, name: Seq<char>) -> Seq<Service> {
    let probe = RegistryView { id: Seq::empty(), namespace: ns, name, services: Seq::empty() };
    if no_registry_match(vals, probe) {
        Seq::empty()
    } else {
        vals[choose|i: int| is_first_registry_match(vals, probe, i)].services
    }
}

/// Appends a namespace request to a namespace store.
pub fn append_namespace_reg<T: Storage>(store: &mut NamespaceStore<T>, reg: &NamespaceReg) -> (r: Result<(), DataError>)
    ensures
        r is Ok,
        namespace_reg_appended(old(store).values@, final(store).values@, *reg),
        final(store).storage == old(store).storage,
{
    let v = Namespace::from(reg);
    let r = store.append(v);
    assert(namespace_appended(old(store).values@, v) == final(store).values@);
    r
}

/// Removes a namespace request from a namespace store.
pub fn remove_namespace_reg<T: Storage>(store: &mut NamespaceStore<T>, reg: &NamespaceReg) -> (r: Result<(), DataError>)
    ensures
        r is Ok,
        namespace_reg_removed(old(store).values@, final(store).values@, *reg),
        final(store).storage == old(store).storage,
{
    let v = Namespace::from(reg);
    let r = store.remove(v);
    assert(namespace_removed(old(store).values@, v) == final(store).values@);
    r
}

/// Appends a configuration request to a configuration store.
pub fn append_configuration_reg<T: Storage>(store: &mut ConfiguratorStore<T>, reg: &ConfigurationReg) -> (r: Result<(), DataError>)
    ensures
        r is Ok,
        configuration_reg_appended(old(store)@, final(store)@, *reg),
        final(store).spec_storage() == old(store).spec_storage(),
{
    let v = Configurator::from(reg);
    let ghost vv = v@;
    let r = store.append(v);
    assert(configurator_appended(old(store)@, final(store)@, vv));
    r
}

/// Removes a configuration request from a configuration store.
pub fn remove_configuration_reg<T: Storage>(store: &mut ConfiguratorStore<T>, reg: &ConfigurationReg) -> (r: Result<(), DataError>)
    ensures
        r is Ok,
        configuration_reg_removed(old(store)@, final(store)@, *reg),
        final(store).spec_storage() == old(store).spec_storage(),
{
    let v = Configurator::from(reg);
    let ghost vv = v@;
    let r = store.remove(v);
    assert(configurator_removed(old(store)@, final(store)@, vv));
    r
}

/// Appends a service registration to a registry store.
pub fn append_service_reg<T: Storage>(store: &mut RegistryStore<T>, reg: &ServiceReg) -> (r: Result<(), DataError>)
    ensures
        r is Ok,
        service_reg_appended(old(store)@, final(store)@, *reg),
        final(store).storage == old(store).storage,
{
    let v = Registry::from(reg);
    let ghost vv = v@;
    assert(vv.services =~= seq![reg.service]);
    let r = store.append(v);
    assert(registry_appended(old(store)@, final(store)@, vv));
    r
}

/// Removes a service registration from a registry store.
pub fn remove_service_reg<T: Storage>(store: &mut RegistryStore<T>, reg: &ServiceReg) -> (r: Result<(), DataError>)
    ensures
        r is Ok,
        service_reg_removed(old(store)@, final(store)@, *reg),
        final(store).storage == old(store).storage,
{
    let v = Registry::from(reg);
    let ghost vv = v@;
    assert(vv.services =~= seq![reg.service]);
    let r = store.remove(v);
    assert(registry_removed(old(store)@, final(store)@, vv));
    r
}

/// The services of the first registry of `store` under `name` in
/// namespace `namespace`, or none.
fn registry_services<T: Storage>(store: &RegistryStore<T>, namespace: &String, name: &String) -> (r: Vec<Service>)
    ensures
        r@ == services_of(store@, namespace@, name@),
{
    let ghost vals = store@;
    let ghost probe = RegistryView { id: Seq::empty(), namespace: namespace@, name: name@, services: Seq::empty() };
    let mut i: usize = 0;
    while i < store.values.len()
        invariant
            i <= store.values@.len(),
            vals == registries_view(store.values@),
            probe == (RegistryView { id: Seq::empty(), namespace: namespace@, name: name@, services: Seq::empty() }),
            forall|j: int| 0 <= j < i ==> !crate::registry::same_registry(#[trigger] vals[j], probe),
        decreases store.values@.len() - i,
    {
        assert(vals[i as int] == store.values@[i as int]@);
        if store.values[i].namespace == *namespace && store.values[i].name == *name {
            proof {
                assert(is_first_registry_match(vals, probe, i as int));
                let k = choose|k: int| is_first_registry_match(vals, probe, k);
                assert(k == i);
            }
            return clone_services(&store.values[i].services);
        }
        i = i + 1;
    }
    Vec::new()
}

/// The data layer of a client: the three stores in memory.
pub struct LuoshuMemData {
    /// Configurations.
    pub configuration_store: ConfiguratorStore<LuoshuMemStorage>,
    /// Namespaces.
    pub namespace_store: NamespaceStore<LuoshuMemStorage>,
    /// Registries.
    pub service_store: RegistryStore<LuoshuMemStorage>,
}

/// Nothing that the client's data layer holds differs.
pub open spec fn mem_unchanged(old: LuoshuMemData, new: LuoshuMemData) -> bool {
    &&& new.namespace_store.values@ == old.namespace_store.values@
    &&& new.configuration_store@ == old.configuration_store@
    &&& new.service_store@ == old.service_store@
}

/// The client's data after appending `value`.
pub open spec fn mem_appended(old: LuoshuMemData, new: LuoshuMemData, value: LuoshuDataEnum) -> bool {
    match value {
        LuoshuDataEnum::Namespace(reg) => {
            &&& namespace_reg_appended(old.namespace_store.values@, new.namespace_store.values@, reg)
            &&& new.configuration_store@ == old.configuration_store@
            &&& new.service_store@ == old.service_store@
        },
        LuoshuDataEnum::Configuration(reg) => {
            &&& configuration_reg_appended(old.configuration_store@, new.configuration_store@, reg)
            &&& new.namespace_store.values@ == old.namespace_store.values@
            &&& new.service_store@ == old.service_store@
        },
        LuoshuDataEnum::Service(reg) => {
            &&& service_reg_appended(old.service_store@, new.service_store@, reg)
            &&& new.namespace_store.values@ == old.namespace_store.values@
            &&& new.configuration_store@ == old.configuration_store@
        },
        LuoshuDataEnum::Subscribe(_) => mem_unchanged(old, new),
    }
}

/// The client's data after removing what `value` names.
pub open spec fn mem_removed(old: LuoshuMemData, new: LuoshuMemData, value: LuoshuDataEnum) -> bool {
    match value {
        LuoshuDataEnum::Namespace(reg) => {
            &&& namespace_reg_removed(old.namespace_store.values@, new.namespace_store.values@, reg)
            &&& new.configuration_store@ == old.configuration_store@
            &&& new.service_store@ == old.service_store@
        },
        LuoshuDataEnum::Configuration(reg) => {
            &&& configuration_reg_removed(old.configuration_store@, new.configuration_store@, reg)
            &&& new.namespace_store.values@ == old.namespace_store.values@
            &&& new.service_store@ == old.service_store@
        },
        LuoshuDataEnum::Service(reg) => {
            &&& service_reg_removed(old.service_store@, new.service_store@, reg)
            &&& new.namespace_store.values@ == old.namespace_store.values@
            &&& new.configuration_store@ == old.configuration_store@
        },
        LuoshuDataEnum::Subscribe(_) => mem_unchanged(old, new),
    }
}

impl LuoshuMemData {
    /// Creates the data layer with three empty stores over empty storage.
    pub fn new() -> (r: Self)
        ensures
            r.configuration_store@ == Seq::<ConfiguratorView>::empty(),
            r.namespace_store.values@ == Seq::<Namespace>::empty(),
            r.service_store@ == Seq::<RegistryView>::empty(),
            r.configuration_store.spec_storage()@ == Map::<Seq<char>, Seq<u8>>::empty(),
            r.namespace_store.storage@ == Map::<Seq<char>, Seq<u8>>::empty(),
            r.service_store.storage@ == Map::<Seq<char>, Seq<u8>>::empty(),
    {
        let storage = LuoshuMemStorage::default();
        let configuration_store = ConfiguratorStore::new(storage.clone());
        let namespace_store = NamespaceStore::new(storage.clone());
        let service_store = RegistryStore::new(storage);
        LuoshuMemData { configuration_store, namespace_store, service_store }
    }

    /// Adds what a request brings to the store it belongs to; a
    /// subscription changes nothing.
    pub fn append(&mut self, value: &LuoshuDataEnum) -> (r: Result<(), DataError>)
        ensures
            r is Ok,
            mem_appended(*old(self), *final(self), *value),
    {
        match value {
            LuoshuDataEnum::Namespace(reg) => append_namespace_reg(&mut self.namespace_store, reg),
            LuoshuDataEnum::Configuration(reg) => append_configuration_reg(&mut self.configuration_store, reg),
            LuoshuDataEnum::Service(reg) => append_service_reg(&mut self.service_store, reg),
            LuoshuDataEnum::Subscribe(_) => Ok(()),
        }
    }

    /// Removes what a request names from the store it belongs to; a
    /// subscription changes nothing.
    pub fn remove(&mut self, value: &LuoshuDataEnum) -> (r: Result<(), DataError>)
        ensures
            r is Ok,
            mem_removed(*old(self), *final(self), *value),
    {
        match value {
            LuoshuDataEnum::Namespace(reg) => remove_namespace_reg(&mut self.namespace_store, reg),
            LuoshuDataEnum::Configuration(reg) => remove_configuration_reg(&mut self.configuration_store, reg),
            LuoshuDataEnum::Service(reg) => remove_service_reg(&mut self.service_store, reg),
            LuoshuDataEnum::Subscribe(_) => Ok(()),
        }
    }

    /// Synchronisation from the server: the client's stores keep what
    /// they hold.
    pub fn sync(&mut self, value: &LuoshuDataEnum) -> (r: Result<(), DataError>)
        ensures
            r is Ok,
            mem_unchanged(*old(self), *final(self)),
    {
        Ok(())
    }

    /// The services registered under `name` in the given namespace, or in
    /// `default`.
    pub fn get_service(&mut self, name: String, namespace: Option<String>) -> (r: Vec<Service>)
        ensures
            mem_unchanged(*old(self), *final(self)),
            r@ == services_of(old(self).service_store@, namespace_or_default(namespace), name@),
    {
        let ns = match namespace {
            Some(n) => n,
            None => crate::ident::default_namespace(),
        };
        registry_services(&self.service_store, &ns, &name)
    }
}

impl Default for LuoshuMemData {
    fn default() -> (r: Self)
        ensures
            r.configuration_store@ == Seq::<ConfiguratorView>::empty(),
            r.namespace_store.values@ == Seq::<Namespace>::empty(),
            r.service_store@ == Seq::<RegistryView>::empty(),
    {
        Self::new()
    }
}

} // verus!
