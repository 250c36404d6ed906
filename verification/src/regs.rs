//! Request bodies: what clients send to register a service, set a
//! configuration or create a namespace, and their conversion into the
//! values that the stores keep.
use vstd::prelude::*;
use serde_json::Value;
use crate::configuration::Configurator;
use crate::external::{clone_value, is_uuid_v4_text};
use crate::namespace::Namespace;
use crate::registry::Registry;
use crate::service::Service;

verus! {

/// Registration of a service instance under a name in a namespace.
pub struct ServiceReg {
    /// Namespace.
    pub namespace: String,
    /// Name of the service.
    pub name: String,
    /// The instance.
    pub service: Service,
}

impl ServiceReg {
    /// Creates a registration.
    pub fn new(namespace: String, name: String, service: Service) -> (r: Self)
        ensures
            r == (ServiceReg { namespace, name, service }),
    {
        Self { namespace, name, service }
    }
}

impl Clone for ServiceReg {
    fn clone(&self) -> (r: Self)
        ensures
            r == *self,
    {
        ServiceReg {
            namespace: self.namespace.clone(),
            name: self.name.clone(),
            service: self.service.clone(),
        }
    }
}

impl From<&ServiceReg> for Registry {
    /// A fresh registry of the registration's namespace and name, holding
    /// its one instance.
    fn from(service_reg: &ServiceReg) -> (r: Self)
        ensures
            is_uuid_v4_text(r.id@),
            r.namespace@ == service_reg.namespace@,
            r.name == service_reg.name,
            r.services@ == seq![service_reg.service],
    {
        let mut registry = Registry::new(Some(service_reg.namespace.clone()), service_reg.name.clone());
        let _ = registry.register_service(service_reg.service.clone());
        assert(registry.services@ =~= seq![service_reg.service]);
        registry
    }
}

impl vstd::std_specs::convert::FromSpecImpl<&ServiceReg> for Registry {
    open spec fn obeys_from_spec() -> bool {
        false
    }

    open spec fn from_spec(v: &ServiceReg) -> Self {
        arbitrary()
    }
}

/// A configuration value to set under a name in a namespace.
pub struct ConfigurationReg {
    /// Namespace.
    pub namespace: String,
    /// Name of the configuration.
    pub name: String,
    /// The value.
    pub config: Value,
}

/// The text `namespace|name` by which subscriptions are keyed.
pub open spec fn subscribe_key(namespace: Seq<char>, name: Seq<char>) -> Seq<char> {
    namespace + seq!['|'] + name
}

/// Joins two texts with `|` between them.
pub fn join_with_bar(namespace: &String, name: &String) -> (r: String)
    ensures
        r@ == subscribe_key(namespace@, name@),
{
    let mut s = namespace.clone();
    s.append("|");
    s.append(name.as_str());
    proof {
        reveal_strlit("|");
    }
    s
}

impl ConfigurationReg {
    /// Creates a configuration request.
    pub fn new(namespace: String, name: String, config: Value) -> (r: Self)
        ensures
            r == (ConfigurationReg { namespace, name, config }),
    {
        Self { namespace, name, config }
    }

    /// The namespace.
    pub fn get_namespace(&self) -> (r: String)
        ensures
            r == self.namespace,
    {
        self.namespace.clone()
    }

    /// The subscription key `namespace|name` of the configuration.
    pub fn get_subscribe_str(&self) -> (r: String)
        ensures
            r@ == subscribe_key(self.namespace@, self.name@),
    {
        join_with_bar(&self.namespace, &self.name)
    }
}

impl Clone for ConfigurationReg {
    fn clone(&self) -> (r: Self)
        ensures
            r == *self,
    {
        ConfigurationReg {
            namespace: self.namespace.clone(),
            name: self.name.clone(),
            config: clone_value(&self.config),
        }
    }
}

impl From<&ConfigurationReg> for Configurator {
    /// A fresh configurator of the request's namespace, holding its one value.
    fn from(configuration_reg: &ConfigurationReg) -> (r: Self)
        ensures
            is_uuid_v4_text(r@.id),
            r@.namespace == configuration_reg.namespace@,
            r@.configuration == map![configuration_reg.name@ => configuration_reg.config],
    {
        let mut configuration = Configurator::new(Some(configuration_reg.namespace.clone()));
        let _ = configuration.set_configuration(
            configuration_reg.name.clone(),
            clone_value(&configuration_reg.config),
        );
        assert(configuration@.configuration =~= map![configuration_reg.name@ => configuration_reg.config]);
        configuration
    }
}

impl vstd::std_specs::convert::FromSpecImpl<&ConfigurationReg> for Configurator {
    open spec fn obeys_from_spec() -> bool {
        false
    }

    open spec fn from_spec(v: &ConfigurationReg) -> Self {
        arbitrary()
    }
}

/// A namespace to create.
pub struct NamespaceReg {
    /// Name of the namespace.
    pub name: String,
}

impl NamespaceReg {
    /// Creates a namespace request.
    pub fn new(name: String) -> (r: Self)
        ensures
            r == (NamespaceReg { name }),
    {
        Self { name }
    }
}

impl Clone for NamespaceReg {
    fn clone(&self) -> (r: Self)
        ensures
            r == *self,
    {
        NamespaceReg { name: self.name.clone() }
    }
}

impl From<&NamespaceReg> for Namespace {
    /// A namespace of the requested name, with a fresh identifier.
    fn from(namespace_reg: &NamespaceReg) -> (r: Self)
        ensures
            is_uuid_v4_text(r.id@),
            r.name == namespace_reg.name,
    {
        Namespace::new(namespace_reg.name.clone())
    }
}

impl vstd::std_specs::convert::FromSpecImpl<&NamespaceReg> for Namespace {
    open spec fn obeys_from_spec() -> bool {
        false
    }

    open spec fn from_spec(v: &NamespaceReg) -> Self {
        arbitrary()
    }
}

/// A request to the data layer.
pub enum LuoshuDataEnum {
    /// A namespace.
    Namespace(NamespaceReg),
    /// A configuration value.
    Configuration(ConfigurationReg),
    /// A service instance.
    Service(ServiceReg),
    /// A subscription key.
    Subscribe(String),
}

impl Clone for LuoshuDataEnum {
    fn clone(&self) -> (r: Self)
        ensures
            r == *self,
    {
        match self {
            LuoshuDataEnum::Namespace(v) => LuoshuDataEnum::Namespace(v.clone()),
            LuoshuDataEnum::Configuration(v) => LuoshuDataEnum::Configuration(v.clone()),
            LuoshuDataEnum::Service(v) => LuoshuDataEnum::Service(v.clone()),
            LuoshuDataEnum::Subscribe(v) => LuoshuDataEnum::Subscribe(v.clone()),
        }
    }
}

impl From<NamespaceReg> for LuoshuDataEnum {
    fn from(namespace: NamespaceReg) -> (r: Self) {
        Self::Namespace(namespace)
    }
}

impl vstd::std_specs::convert::FromSpecImpl<NamespaceReg> for LuoshuDataEnum {
    open spec fn obeys_from_spec() -> bool {
        true
    }

    open spec fn from_spec(v: NamespaceReg) -> Self {
        LuoshuDataEnum::Namespace(v)
    }
}

impl From<ConfigurationReg> for LuoshuDataEnum {
    fn from(configuration: ConfigurationReg) -> (r: Self) {
        Self::Configuration(configuration)
    }
}

impl vstd::std_specs::convert::FromSpecImpl<ConfigurationReg> for LuoshuDataEnum {
    open spec fn obeys_from_spec() -> bool {
        true
    }

    open spec fn from_spec(v: ConfigurationReg) -> Self {
        LuoshuDataEnum::Configuration(v)
    }
}

impl From<ServiceReg> for LuoshuDataEnum {
    fn from(service: ServiceReg) -> (r: Self) {
        Self::Service(service)
    }
}

impl vstd::std_specs::convert::FromSpecImpl<ServiceReg> for LuoshuDataEnum {
    open spec fn obeys_from_spec() -> bool {
        true
    }

    open spec fn from_spec(v: ServiceReg) -> Self {
        LuoshuDataEnum::Service(v)
    }
}

} // verus!
