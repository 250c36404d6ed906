use luoshu::configuration::{Configurator, ConfiguratorStore};
use luoshu::data::LuoshuMemData;
use luoshu::error::DataError;
use luoshu::frame::{ActionEnum, Frame, Subscribe};
use luoshu::namespace::{Namespace, NamespaceStore};
use luoshu::registry::{Registry, RegistryStore};
use luoshu::regs::{ConfigurationReg, LuoshuDataEnum, NamespaceReg, ServiceReg};
use luoshu::server::{LuoshuSledData, PendingSave};
use luoshu::service::Service;
use luoshu::storage::{LuoshuMemStorage, Storage};
use luoshu::store::Store;
use serde_json::Value;

fn registration(ns: &str, name: &str, host: &str, port: u16) -> Registry {
    let mut r = Registry::new(Some(ns.into()), name.into());
    r.register_service(Service::new(host.into(), port)).ok().unwrap();
    r
}

#[test]
fn mem_storage_reads_back_what_was_saved() {
    let mut s = LuoshuMemStorage::new();
    assert_eq!(s.load("a"), None);
    s.save("a", b"one").ok().unwrap();
    s.save("b", b"two").ok().unwrap();
    assert_eq!(s.load("a"), Some(b"one".to_vec()));
    s.save("a", b"three").ok().unwrap();
    assert_eq!(s.load("a"), Some(b"three".to_vec()));
    assert_eq!(s.load("b"), Some(b"two".to_vec()));
    let mut c = s.clone();
    c.save("b", b"changed").ok().unwrap();
    assert_eq!(s.load("b"), Some(b"two".to_vec()));
    assert_eq!(c.load("b"), Some(b"changed".to_vec()));
}

#[test]
fn namespace_append_is_idempotent_by_name() {
    let mut store = NamespaceStore::new(LuoshuMemStorage::new());
    store.append(Namespace::new("a".into())).ok().unwrap();
    store.append(Namespace::new("a".into())).ok().unwrap();
    store.append(Namespace::new("b".into())).ok().unwrap();
    let names: Vec<String> = store.get_values().into_iter().map(|n| n.name).collect();
    assert_eq!(names, vec!["a".to_string(), "b".to_string()]);
    assert_eq!(store.get_storage_key(), "NamespaceStorage");
}

#[test]
fn namespace_remove_drops_only_that_name_and_never_default() {
    let mut store = NamespaceStore::new(LuoshuMemStorage::new());
    store.append(Namespace::default()).ok().unwrap();
    store.append(Namespace::new("a".into())).ok().unwrap();
    store.append(Namespace::new("b".into())).ok().unwrap();
    store.remove(Namespace::new("a".into())).ok().unwrap();
    let names: Vec<String> = store.values.iter().map(|n| n.name.clone()).collect();
    assert_eq!(names, vec!["default".to_string(), "b".to_string()]);
    store.remove(Namespace::new("default".into())).ok().unwrap();
    assert_eq!(store.values.len(), 2);
    store.remove(Namespace::new("missing".into())).ok().unwrap();
    assert_eq!(store.values.len(), 2);
}

#[test]
fn registry_append_refreshes_known_instances() {
    let mut store = RegistryStore::new(LuoshuMemStorage::new());
    store.append(registration("default", "svc", "127.0.0.1", 8000)).ok().unwrap();
    store.append(registration("default", "svc", "127.0.0.1", 8000)).ok().unwrap();
    assert_eq!(store.values.len(), 1);
    assert_eq!(store.values[0].services.len(), 1);
    store.append(registration("default", "svc", "127.0.0.1", 8001)).ok().unwrap();
    assert_eq!(store.values[0].services.len(), 2);
    assert_eq!(store.values[0].services[1].port, 8001);
    store.append(registration("other", "svc", "127.0.0.1", 8000)).ok().unwrap();
    assert_eq!(store.values.len(), 2);
    assert_eq!(store.get_storage_key(), "RegistryStorage");
}

#[test]
fn registry_remove_drops_named_instances() {
    let mut store = RegistryStore::new(LuoshuMemStorage::new());
    store.append(registration("default", "svc", "127.0.0.1", 8000)).ok().unwrap();
    store.append(registration("default", "svc", "127.0.0.1", 8001)).ok().unwrap();
    store.remove(registration("default", "svc", "127.0.0.1", 8000)).ok().unwrap();
    assert_eq!(store.values[0].services.len(), 1);
    assert_eq!(store.values[0].services[0].port, 8001);
    store.remove(registration("nowhere", "svc", "127.0.0.1", 8001)).ok().unwrap();
    assert_eq!(store.values[0].services.len(), 1);
}

#[test]
fn service_equality_ignores_registration_time() {
    let mut a = Service::new("h".into(), 1);
    let b = Service::new("h".into(), 1);
    a.reg_time = 0;
    assert!(a == b);
    assert!(a != Service::new("h".into(), 2));
    a.fresh();
    assert!(a.reg_time > 0);
    assert_eq!(a.host, "h");
    a.fresh_at(42);
    assert_eq!(a.reg_time, 42);
    assert_eq!(a.port, 1);
}

#[test]
fn registry_refresh_stamps_named_instances_with_one_time() {
    let mut store = RegistryStore::new(LuoshuMemStorage::new());
    store.append(registration("default", "svc", "127.0.0.1", 8000)).ok().unwrap();
    store.append(registration("default", "svc", "127.0.0.1", 8001)).ok().unwrap();
    store.values[0].services[0].reg_time = 1;
    store.values[0].services[1].reg_time = 1;
    store.append(registration("default", "svc", "127.0.0.1", 8000)).ok().unwrap();
    assert!(store.values[0].services[0].reg_time > 1);
    assert_eq!(store.values[0].services[1].reg_time, 1);
}

#[test]
fn configurator_values() {
    let mut c = Configurator::new(Some("ns".into()));
    assert_eq!(c.get_namespace(), "ns");
    assert!(!c.has_configuration("x".into()));
    c.set_configuration("x".into(), Value::Bool(true)).ok().unwrap();
    c.set_configuration("x".into(), Value::Bool(false)).ok().unwrap();
    assert!(c.has_configuration("x".into()));
    assert_eq!(c.get_configuration("x".into()), Some(Value::Bool(false)));
    assert_eq!(c.get_configuration("y".into()), None);
    assert_eq!(c.entries().len(), 1);
    let d = Configurator::from_parts(
        "id".into(),
        "n".into(),
        vec![("k".into(), Value::Bool(true)), ("k".into(), Value::Null)],
    );
    assert_eq!(d.get_id(), "id");
    assert_eq!(d.entries(), vec![("k".to_string(), Value::Null)]);
}

#[test]
fn configuration_store_merges_and_removes_by_namespace() {
    let mut store = ConfiguratorStore::new(LuoshuMemStorage::new());
    let mut a = Configurator::new(None);
    a.set_configuration("x".into(), Value::Bool(true)).ok().unwrap();
    store.append(a).ok().unwrap();
    let mut b = Configurator::new(None);
    b.set_configuration("x".into(), Value::Bool(false)).ok().unwrap();
    b.set_configuration("y".into(), Value::Null).ok().unwrap();
    store.append(b).ok().unwrap();
    assert_eq!(store.get_values().len(), 1);
    let mut got = store.get_configurations_by_namespace("default".into()).unwrap();
    assert_eq!(got.get_configuration("x".into()), Some(Value::Bool(false)));
    assert_eq!(got.get_configuration("y".into()), Some(Value::Null));
    assert!(store.get_configurations_by_namespace("other".into()).is_none());
    let mut c = Configurator::new(None);
    c.set_configuration("x".into(), Value::Null).ok().unwrap();
    store.remove(c).ok().unwrap();
    let mut got = store.get_configurations_by_namespace("default".into()).unwrap();
    assert_eq!(got.get_configuration("x".into()), None);
    assert_eq!(got.get_configuration("y".into()), Some(Value::Null));
    assert_eq!(store.get_storage_key(), "ConfiguratorStorage");
}

#[test]
fn mem_data_dispatches_requests() {
    let mut data = LuoshuMemData::new();
    let reg = ServiceReg::new("default".into(), "svc".into(), Service::new("127.0.0.1".into(), 8000));
    data.append(&LuoshuDataEnum::from(reg.clone())).ok().unwrap();
    let services = data.get_service("svc".into(), None);
    assert_eq!(services.len(), 1);
    assert_eq!(services[0].port, 8000);
    assert!(data.get_service("svc".into(), Some("other".into())).is_empty());
    data.append(&LuoshuDataEnum::from(NamespaceReg::new("n".into()))).ok().unwrap();
    assert_eq!(data.namespace_store.values.len(), 1);
    data.append(&LuoshuDataEnum::from(ConfigurationReg::new("default".into(), "c".into(), Value::Null)))
        .ok()
        .unwrap();
    assert_eq!(data.configuration_store.get_values().len(), 1);
    data.append(&LuoshuDataEnum::Subscribe("x".into())).ok().unwrap();
    data.sync(&LuoshuDataEnum::from(reg.clone())).ok().unwrap();
    data.remove(&LuoshuDataEnum::from(reg)).ok().unwrap();
    assert!(data.get_service("svc".into(), None).is_empty());
    data.remove(&LuoshuDataEnum::from(NamespaceReg::new("n".into()))).ok().unwrap();
    assert!(data.namespace_store.values.is_empty());
}

#[test]
fn server_sends_configuration_to_subscribers() {
    let mut data = LuoshuSledData::new(LuoshuMemStorage::new());
    let (tx, mut rx) = tokio::sync::mpsc::unbounded_channel::<Frame>();
    data.subscribe(Subscribe::new("default".into(), "db".into()), &tx).ok().unwrap();
    assert!(rx.try_recv().is_err());
    let reg = ConfigurationReg::new("default".into(), "db".into(), Value::Bool(true));
    let saved = data.append(&LuoshuDataEnum::from(reg), None).ok().unwrap();
    assert_eq!(saved, PendingSave::Configurations);
    match rx.try_recv().unwrap().data {
        ActionEnum::Sync(LuoshuDataEnum::Configuration(c)) => {
            assert_eq!(c.name, "db");
            assert_eq!(c.config, Value::Bool(true));
        }
        _ => panic!("expected a configuration"),
    }
    let (tx2, mut rx2) = tokio::sync::mpsc::unbounded_channel::<Frame>();
    data.subscribe(Subscribe::new("default".into(), "db".into()), &tx2).ok().unwrap();
    match rx2.try_recv().unwrap().data {
        ActionEnum::Sync(LuoshuDataEnum::Configuration(c)) => assert_eq!(c.config, Value::Bool(true)),
        _ => panic!("expected a configuration"),
    }
    let (tx3, rx3) = tokio::sync::mpsc::unbounded_channel::<Frame>();
    drop(rx3);
    match data.subscribe(Subscribe::new("default".into(), "db".into()), &tx3) {
        Err(DataError::ChannelClosed) => {}
        _ => panic!("expected a closed channel"),
    }
}

#[test]
fn server_forgets_services_of_broken_clients() {
    let mut data = LuoshuSledData::new(LuoshuMemStorage::new());
    assert_eq!(data.ensure_default_namespace(), PendingSave::Namespaces);
    assert_eq!(data.ensure_default_namespace(), PendingSave::Nothing);
    assert_eq!(data.namespace_store.values[0].name, "default");
    let reg = ServiceReg::new("default".into(), "svc".into(), Service::new("10.0.0.1".into(), 9000));
    let saved = data.append(&LuoshuDataEnum::from(reg), Some("10.0.0.1:5555".into())).ok().unwrap();
    assert_eq!(saved, PendingSave::Nothing);
    assert_eq!(data.service_store.values[0].services.len(), 1);
    data.broken("10.0.0.9:1".into()).ok().unwrap();
    assert_eq!(data.service_store.values[0].services.len(), 1);
    data.broken("10.0.0.1:5555".into()).ok().unwrap();
    assert_eq!(data.service_store.values[0].services.len(), 0);
    let ns = data.append(&LuoshuDataEnum::from(NamespaceReg::new("n".into())), None).ok().unwrap();
    assert_eq!(ns, PendingSave::Namespaces);
}

#[test]
fn namespace_remove_undoes_fresh_append() {
    let mut store = NamespaceStore::new(LuoshuMemStorage::new());
    store.append(Namespace::new("a".into())).ok().unwrap();
    store.append(Namespace::new("b".into())).ok().unwrap();
    store.remove(Namespace::new("b".into())).ok().unwrap();
    let names: Vec<String> = store.values.iter().map(|n| n.name.clone()).collect();
    assert_eq!(names, vec!["a".to_string()]);
}

#[test]
fn server_reads_back_configuration_and_forgets_removed_one() {
    let mut data = LuoshuSledData::new(LuoshuMemStorage::new());
    let reg = ConfigurationReg::new("ns".into(), "k".into(), Value::from(3));
    data.append(&LuoshuDataEnum::from(reg.clone()), None).ok().unwrap();
    let mut c = data.configuration_store.get_configurations_by_namespace("ns".into()).unwrap();
    assert_eq!(c.get_configuration("k".into()), Some(Value::from(3)));
    data.remove(&LuoshuDataEnum::from(reg)).ok().unwrap();
    let mut c = data.configuration_store.get_configurations_by_namespace("ns".into()).unwrap();
    assert_eq!(c.get_configuration("k".into()), None);
}

#[test]
fn default_server_data_over_default_storage() {
    let data: LuoshuSledData<LuoshuMemStorage> = LuoshuSledData::default();
    assert!(data.namespace_store.values.is_empty());
    let mem = LuoshuMemData::default();
    assert!(mem.service_store.values.is_empty());
}

#[test]
fn registry_append_at_stamps_refreshed_instances_with_the_given_time() {
    let mut store = RegistryStore::new(LuoshuMemStorage::new());
    store.append_at(registration("default", "svc", "127.0.0.1", 8000), 5).ok().unwrap();
    store.append_at(registration("default", "svc", "127.0.0.1", 8001), 6).ok().unwrap();
    let t0 = store.values[0].services[0].reg_time;
    let t1 = store.values[0].services[1].reg_time;
    store.append_at(registration("default", "svc", "127.0.0.1", 8001), 77).ok().unwrap();
    assert_eq!(store.values[0].services.len(), 2);
    assert_eq!(store.values[0].services[0].reg_time, t0);
    assert_ne!(t1, 77);
    assert_eq!(store.values[0].services[1].reg_time, 77);
}

#[test]
fn mem_storage_keeps_a_key_across_saves_to_others() {
    let mut s = LuoshuMemStorage::new();
    s.save("k", b"v").ok().unwrap();
    s.save("a", b"1").ok().unwrap();
    s.save("b", b"2").ok().unwrap();
    s.save("a", b"3").ok().unwrap();
    assert_eq!(s.load("k"), Some(b"v".to_vec()));
    assert_eq!(s.load("never"), None);
}

#[test]
fn requests_reach_their_stores() {
    let mut services = RegistryStore::new(LuoshuMemStorage::new());
    let reg = ServiceReg::new("default".into(), "svc".into(), Service::new("127.0.0.1".into(), 9000));
    luoshu::data::append_service_reg(&mut services, &reg).ok().unwrap();
    assert_eq!(services.values[0].services[0].port, 9000);
    luoshu::data::remove_service_reg(&mut services, &reg).ok().unwrap();
    assert_eq!(services.values[0].services.len(), 0);
    let mut configs = ConfiguratorStore::new(LuoshuMemStorage::new());
    let creg = ConfigurationReg::new("default".into(), "db".into(), Value::from(4));
    luoshu::data::append_configuration_reg(&mut configs, &creg).ok().unwrap();
    assert_eq!(configs.get_values().len(), 1);
    luoshu::data::remove_configuration_reg(&mut configs, &creg).ok().unwrap();
}

#[test]
fn registry_remove_undoes_append_of_a_new_instance() {
    let mut store = RegistryStore::new(LuoshuMemStorage::new());
    store.append(registration("default", "svc", "127.0.0.1", 8000)).ok().unwrap();
    let before: Vec<(String, u16, i64)> =
        store.values[0].services.iter().map(|s| (s.host.clone(), s.port, s.reg_time)).collect();
    store.append(registration("default", "svc", "127.0.0.1", 8001)).ok().unwrap();
    assert_eq!(store.values[0].services.len(), 2);
    store.remove(registration("default", "svc", "127.0.0.1", 8001)).ok().unwrap();
    let after: Vec<(String, u16, i64)> =
        store.values[0].services.iter().map(|s| (s.host.clone(), s.port, s.reg_time)).collect();
    assert_eq!(store.values.len(), 1);
    assert_eq!(before, after);
}

#[test]
fn configuration_remove_undoes_append_of_new_names() {
    let mut store = ConfiguratorStore::new(LuoshuMemStorage::new());
    let mut first = Configurator::new(Some("ns".into()));
    first.set_configuration("a".into(), Value::from(1)).ok().unwrap();
    store.append(first).ok().unwrap();
    let before = store.get_values()[0].entries();
    let mut second = Configurator::new(Some("ns".into()));
    second.set_configuration("b".into(), Value::from(2)).ok().unwrap();
    store.append(second).ok().unwrap();
    assert_eq!(store.get_values()[0].entries().len(), 2);
    let mut gone = Configurator::new(Some("ns".into()));
    gone.set_configuration("b".into(), Value::from(2)).ok().unwrap();
    store.remove(gone).ok().unwrap();
    assert_eq!(store.get_values().len(), 1);
    assert_eq!(store.get_values()[0].entries(), before);
}

#[test]
fn configurator_namespaces_stay_distinct() {
    let mut store = ConfiguratorStore::new(LuoshuMemStorage::new());
    for ns in ["a", "b", "a", "b", "c"] {
        let mut c = Configurator::new(Some(ns.into()));
        c.set_configuration("k".into(), Value::from(ns)).ok().unwrap();
        store.append(c).ok().unwrap();
    }
    let names: Vec<String> = store.get_values().iter().map(|c| c.get_namespace().clone()).collect();
    assert_eq!(names, vec!["a".to_string(), "b".to_string(), "c".to_string()]);
}

#[test]
fn registry_keys_grow_by_the_appended_group_only() {
    let mut store = RegistryStore::new(LuoshuMemStorage::new());
    store.append(registration("default", "svc", "127.0.0.1", 8000)).ok().unwrap();
    store.append(registration("default", "svc", "127.0.0.1", 8001)).ok().unwrap();
    store.append(registration("other", "svc", "127.0.0.1", 8000)).ok().unwrap();
    let keys: Vec<(String, String)> =
        store.values.iter().map(|r| (r.namespace.clone(), r.name.clone())).collect();
    assert_eq!(keys, vec![("default".to_string(), "svc".to_string()), ("other".to_string(), "svc".to_string())]);
}
