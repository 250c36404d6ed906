use luoshu::configuration::{Configurator, ConfiguratorStore};
use luoshu::error::DataError;
use luoshu::namespace::{Namespace, NamespaceStore};
use luoshu::registry::{Registry, RegistryStore};
use luoshu::service::Service;
use luoshu::storage::{LuoshuMemStorage, Storage};
use luoshu::store::Store;
use luoshu::util::Connector;
use serde_json::Value;

#[derive(Clone)]
struct DummyStore {}

impl Storage for DummyStore {
    fn save(&mut self, _key: &str, _: &[u8]) -> Result<(), DataError> {
        Ok(())
    }
    fn load(&mut self, _key: &str) -> Option<Vec<u8>> {
        Some(vec![])
    }
}

#[test]
fn storage_test() {
    let mut s = DummyStore {};
    assert!(s.save("k", b"v").is_ok());
    assert_eq!(s.load("k"), Some(vec![]));
}

/// Saves the JSON text of `values` in the store's backend under the
/// store's key, and reads back what the backend then holds there.
fn save_values_json<S: Store>(store: &S, values: Vec<Value>) -> Vec<Value> {
    let text = Value::Array(values).to_string();
    let mut storage = store.get_storage();
    assert!(storage.save(store.get_storage_key(), text.as_bytes()).is_ok());
    let bytes = storage.load(store.get_storage_key()).unwrap();
    match serde_json::from_slice::<Value>(&bytes).unwrap() {
        Value::Array(values) => values,
        _ => panic!("stored text is not a list"),
    }
}

fn object(fields: Vec<(&str, Value)>) -> Value {
    let mut m = serde_json::Map::new();
    for (k, v) in fields {
        m.insert(k.to_string(), v);
    }
    Value::Object(m)
}

fn namespace_json(n: &Namespace) -> Value {
    object(vec![("id", Value::from(n.id.clone())), ("name", Value::from(n.name.clone()))])
}

fn service_json(s: &Service) -> Value {
    object(vec![
        ("host", Value::from(s.host.clone())),
        ("port", Value::from(s.port)),
        ("reg_time", Value::from(s.reg_time)),
    ])
}

fn registry_json(r: &Registry) -> Value {
    object(vec![
        ("id", Value::from(r.id.clone())),
        ("namespace", Value::from(r.namespace.clone())),
        ("name", Value::from(r.name.clone())),
        ("services", Value::Array(r.services.iter().map(service_json).collect())),
    ])
}

fn configurator_json(c: &Configurator) -> Value {
    let mut configuration = serde_json::Map::new();
    for (k, v) in c.entries() {
        configuration.insert(k, v);
    }
    object(vec![
        ("id", Value::from(c.get_id().clone())),
        ("namespace", Value::from(c.get_namespace().clone())),
        ("configuration", Value::Object(configuration)),
    ])
}

#[test]
fn configurator_storage_registry_store_save_test() {
    let storage = LuoshuMemStorage::new();
    let _connector = Connector {};
    let mut store = ConfiguratorStore::new(storage);
    let mut configurator = Configurator::new(None);
    configurator
        .set_configuration("test".into(), Value::String("{\"hello\": \"world\"}".to_string()))
        .ok()
        .unwrap();
    store.append(configurator).ok().unwrap();
    let values = store.get_values();
    let saved = save_values_json(&store, values.iter().map(configurator_json).collect());
    assert_eq!(saved.len(), 1);
    assert_eq!(saved[0]["namespace"], Value::from("default"));
    assert_eq!(saved[0]["configuration"]["test"], Value::String("{\"hello\": \"world\"}".to_string()));
    assert_eq!(values.len(), 1);
    assert_eq!(values[0].get_namespace(), "default");
}

#[test]
fn configurator_storage_registry_store_load_test() {
    let storage = LuoshuMemStorage::new();
    let store = ConfiguratorStore::new(storage);
    let mut storage = store.get_storage();
    assert_eq!(storage.load(store.get_storage_key()), None);
    assert_eq!(store.get_values().len(), 0);
}

#[test]
fn lib_registry_store_save_test() {
    let mut registry = Registry::new(None, "test_registry".into());
    registry.register_service(Service::new("127.0.0.1".into(), 8000)).ok().unwrap();
    let _connector = Connector {};
    let storage = LuoshuMemStorage::new();
    let mut store = RegistryStore::new(storage);
    store.append(registry).ok().unwrap();
    let saved = save_values_json(&store, store.get_values().iter().map(registry_json).collect());
    assert_eq!(saved.len(), 1);
    assert_eq!(saved[0]["name"], Value::from("test_registry"));
    assert_eq!(saved[0]["services"][0]["port"], Value::from(8000));
    assert_eq!(store.values.len(), 1);
    assert_eq!(store.values[0].services.len(), 1);
}

#[test]
fn configurator_store_save_test() {
    let mut configurator = Configurator::new(None);
    configurator
        .set_configuration("test".into(), Value::String("{\"hello\": \"world\"}".into()))
        .ok()
        .unwrap();
    let _connector = Connector {};
    let storage = LuoshuMemStorage::new();
    let mut store = ConfiguratorStore::new(storage);
    store.append(configurator).ok().unwrap();
    let saved = save_values_json(&store, store.get_values().iter().map(configurator_json).collect());
    assert_eq!(saved.len(), 1);
    assert_eq!(store.get_values().len(), 1);
}

#[test]
fn configurator_store_load_test() {
    let _connector = Connector {};
    let storage = LuoshuMemStorage::default();
    let store = ConfiguratorStore::new(storage);
    assert_eq!(store.get_values().len(), 0);
}

#[test]
fn name_space_store_save_test() {
    let storage = LuoshuMemStorage::new();
    let mut store = NamespaceStore::new(storage);
    store.append(Namespace::new("test_name_space".into())).ok().unwrap();
    let saved = save_values_json(&store, store.get_values().iter().map(namespace_json).collect());
    assert_eq!(saved.len(), 1);
    assert_eq!(saved[0]["name"], Value::from("test_name_space"));
    assert_eq!(store.values.len(), 1);
    assert_eq!(store.values[0].name, "test_name_space");
}

#[test]
fn name_space_store_load_test() {
    let storage = LuoshuMemStorage::new();
    let store = NamespaceStore::new(storage);
    let mut storage = store.get_storage();
    assert_eq!(storage.load(store.get_storage_key()), None);
}

#[test]
fn registry_storage_registry_store_save_test() {
    let storage = LuoshuMemStorage::new();
    let _connector = Connector {};
    let mut store = RegistryStore::new(storage);
    let mut registry = Registry::new(None, "test_registry".into());
    registry.register_service(Service::new("127.0.0.1".into(), 8000)).ok().unwrap();
    store.append(registry).ok().unwrap();
    let saved = save_values_json(&store, store.get_values().iter().map(registry_json).collect());
    assert_eq!(saved[0]["services"].as_array().unwrap().len(), 1);
    assert_eq!(store.get_values().len(), 1);
}

#[test]
fn registry_storage_registry_store_load_test() {
    let storage = LuoshuMemStorage::new();
    let store = RegistryStore::new(storage);
    assert_eq!(store.get_values().len(), 0);
}
