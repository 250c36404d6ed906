use luoshu::data::LuoshuMemData;
use luoshu::dispatch::{follow_frame, follow_frame_callback, serve_frame, subscribe_request};
use luoshu::error::DataError;
use luoshu::frame::{ActionEnum, Frame, Subscribe};
use luoshu::regs::{ConfigurationReg, LuoshuDataEnum, ServiceReg};
use luoshu::server::{LuoshuSledData, PendingSave, SubscriberBook};
use luoshu::service::Service;
use luoshu::storage::LuoshuMemStorage;
use serde_json::Value;

fn up_service() -> Frame {
    Frame {
        data: ActionEnum::Up(LuoshuDataEnum::from(ServiceReg::new(
            "default".into(),
            "svc".into(),
            Service::new("127.0.0.1".into(), 8000),
        ))),
    }
}

#[test]
fn server_answers_ping_with_pong() {
    let mut data = LuoshuSledData::new(LuoshuMemStorage::new());
    let (tx, mut rx) = tokio::sync::mpsc::unbounded_channel::<Frame>();
    let r = serve_frame(&mut data, Frame { data: ActionEnum::Ping }, "c:1".into(), &tx).ok().unwrap();
    assert_eq!(r, PendingSave::Nothing);
    assert!(matches!(rx.try_recv().unwrap().data, ActionEnum::Pong));
}

#[test]
fn server_drops_client_that_cannot_be_answered() {
    let mut data = LuoshuSledData::new(LuoshuMemStorage::new());
    let (tx, rx) = tokio::sync::mpsc::unbounded_channel::<Frame>();
    serve_frame(&mut data, up_service(), "c:1".into(), &tx).ok().unwrap();
    assert_eq!(data.service_store.values[0].services.len(), 1);
    drop(rx);
    serve_frame(&mut data, Frame { data: ActionEnum::Ping }, "c:1".into(), &tx).ok().unwrap();
    assert_eq!(data.service_store.values[0].services.len(), 0);
}

#[test]
fn server_handles_down_sync_subscribe_and_pong() {
    let mut data = LuoshuSledData::new(LuoshuMemStorage::new());
    let (tx, mut rx) = tokio::sync::mpsc::unbounded_channel::<Frame>();
    serve_frame(&mut data, up_service(), "c:1".into(), &tx).ok().unwrap();
    let down = match up_service().data {
        ActionEnum::Up(v) => Frame { data: ActionEnum::Down(v) },
        _ => unreachable!(),
    };
    let r = serve_frame(&mut data, down, "c:1".into(), &tx).ok().unwrap();
    assert_eq!(r, PendingSave::Nothing);
    assert_eq!(data.service_store.values[0].services.len(), 0);
    let sync = Frame { data: ActionEnum::Sync(LuoshuDataEnum::Subscribe("x".into())) };
    assert_eq!(serve_frame(&mut data, sync, "c:1".into(), &tx).ok().unwrap(), PendingSave::Nothing);
    let sub = Frame { data: ActionEnum::Subscribe(Subscribe::new("default".into(), "db".into())) };
    assert_eq!(serve_frame(&mut data, sub, "c:1".into(), &tx).ok().unwrap(), PendingSave::Nothing);
    let set = Frame {
        data: ActionEnum::Up(LuoshuDataEnum::from(ConfigurationReg::new(
            "default".into(),
            "db".into(),
            Value::from("x"),
        ))),
    };
    assert_eq!(serve_frame(&mut data, set, "c:1".into(), &tx).ok().unwrap(), PendingSave::Configurations);
    assert!(matches!(rx.try_recv().unwrap().data, ActionEnum::Sync(LuoshuDataEnum::Configuration(_))));
    let pong = Frame { data: ActionEnum::Pong };
    assert_eq!(serve_frame(&mut data, pong, "c:1".into(), &tx).ok().unwrap(), PendingSave::Nothing);
}

#[test]
fn client_hands_synchronised_configuration_to_subscribers() {
    let mut data = LuoshuMemData::new();
    let mut book: SubscriberBook<ConfigurationReg> = SubscriberBook::new();
    let (tx, mut rx) = tokio::sync::mpsc::unbounded_channel::<ConfigurationReg>();
    assert!(book.add("default|db".into(), tx.clone()));
    assert!(!book.add("default|db".into(), tx));
    let reg = ConfigurationReg::new("default".into(), "db".into(), Value::from(1));
    follow_frame(&mut data, &mut book, Frame { data: ActionEnum::Sync(LuoshuDataEnum::from(reg)) })
        .ok()
        .unwrap();
    assert_eq!(rx.try_recv().unwrap().config, Value::from(1));
    assert_eq!(rx.try_recv().unwrap().config, Value::from(1));
    follow_frame(&mut data, &mut book, up_service()).ok().unwrap();
    assert_eq!(data.get_service("svc".into(), None).len(), 1);
}

#[test]
fn closed_subscribers_are_dropped_exactly() {
    let mut book: SubscriberBook<u8> = SubscriberBook::new();
    let (tx1, rx1) = tokio::sync::mpsc::unbounded_channel::<u8>();
    let (tx2, rx2) = tokio::sync::mpsc::unbounded_channel::<u8>();
    let (tx3, mut rx3) = tokio::sync::mpsc::unbounded_channel::<u8>();
    book.add("k".into(), tx1);
    book.add("k".into(), tx2);
    book.add("k".into(), tx3);
    drop(rx1);
    drop(rx2);
    book.notify(&"k".to_string(), &7);
    assert_eq!(rx3.try_recv().unwrap(), 7);
    book.notify(&"k".to_string(), &8);
    assert_eq!(rx3.try_recv().unwrap(), 8);
    assert!(!book.add("k".into(), tokio::sync::mpsc::unbounded_channel::<u8>().0));
}

#[test]
fn notify_reaches_only_the_subscribers_of_the_key() {
    let mut book: SubscriberBook<u8> = SubscriberBook::new();
    let (tx1, mut rx1) = tokio::sync::mpsc::unbounded_channel::<u8>();
    let (tx2, mut rx2) = tokio::sync::mpsc::unbounded_channel::<u8>();
    book.add("a".into(), tx1);
    book.add("b".into(), tx2);
    book.notify(&"a".to_string(), &1);
    book.notify(&"c".to_string(), &2);
    assert_eq!(rx1.try_recv().unwrap(), 1);
    assert!(rx1.try_recv().is_err());
    assert!(rx2.try_recv().is_err());
}

#[test]
fn subscribing_sends_the_current_value() {
    let mut data = LuoshuSledData::new(LuoshuMemStorage::new());
    let (tx, mut rx) = tokio::sync::mpsc::unbounded_channel::<Frame>();
    let set = LuoshuDataEnum::from(ConfigurationReg::new("default".into(), "db".into(), Value::from(3)));
    data.append(&set, None).ok().unwrap();
    data.subscribe(Subscribe::new("default".into(), "db".into()), &tx).ok().unwrap();
    match rx.try_recv().unwrap().data {
        ActionEnum::Sync(LuoshuDataEnum::Configuration(c)) => {
            assert_eq!(c.namespace, "default");
            assert_eq!(c.name, "db");
            assert_eq!(c.config, Value::from(3));
        },
        _ => panic!("expected the current value"),
    }
    data.subscribe(Subscribe::new("default".into(), "other".into()), &tx).ok().unwrap();
    assert!(rx.try_recv().is_err());
}

#[test]
fn subscribing_over_a_closed_channel_fails_but_stays_registered() {
    let mut data = LuoshuSledData::new(LuoshuMemStorage::new());
    let (tx, rx) = tokio::sync::mpsc::unbounded_channel::<Frame>();
    drop(rx);
    data.subscribe(Subscribe::new("default".into(), "db".into()), &tx).ok().unwrap();
    let set = LuoshuDataEnum::from(ConfigurationReg::new("default".into(), "db".into(), Value::from(3)));
    data.append(&set, None).ok().unwrap();
    let r = data.subscribe(Subscribe::new("default".into(), "db".into()), &tx);
    assert!(matches!(r, Err(DataError::ChannelClosed)));
}

#[test]
fn subscriber_is_told_of_change() {
    let mut data = LuoshuSledData::new(LuoshuMemStorage::new());
    let (tx, mut rx) = tokio::sync::mpsc::unbounded_channel::<Frame>();
    let sub = Frame { data: ActionEnum::Subscribe(Subscribe::new("ns".into(), "db".into())) };
    serve_frame(&mut data, sub, "c:1".into(), &tx).ok().unwrap();
    assert!(rx.try_recv().is_err());
    let set = Frame {
        data: ActionEnum::Up(LuoshuDataEnum::from(ConfigurationReg::new("ns".into(), "db".into(), Value::from(5)))),
    };
    serve_frame(&mut data, set, "c:2".into(), &tx).ok().unwrap();
    match rx.try_recv().unwrap().data {
        ActionEnum::Sync(LuoshuDataEnum::Configuration(c)) => assert_eq!(c.config, Value::from(5)),
        _ => panic!("expected the new value"),
    }
}

#[test]
fn repeated_subscriptions_ask_the_server_once() {
    let mut book: SubscriberBook<ConfigurationReg> = SubscriberBook::new();
    let (tx, mut rx) = tokio::sync::mpsc::unbounded_channel::<ConfigurationReg>();
    let first = subscribe_request(&mut book, "db".into(), None, tx.clone()).unwrap();
    assert_eq!(first.namespace, "default");
    assert_eq!(first.name, "db");
    assert!(subscribe_request(&mut book, "db".into(), None, tx.clone()).is_none());
    assert!(subscribe_request(&mut book, "db".into(), Some("default".into()), tx).is_none());
    let reg = ConfigurationReg::new("default".into(), "db".into(), Value::from(1));
    book.notify(&"default|db".to_string(), &reg);
    for _ in 0..3 {
        assert_eq!(rx.try_recv().unwrap().config, Value::from(1));
    }
    assert!(rx.try_recv().is_err());
    let (tx2, _rx2) = tokio::sync::mpsc::unbounded_channel::<ConfigurationReg>();
    assert!(subscribe_request(&mut book, "db".into(), Some("ns".into()), tx2).is_some());
}

#[test]
fn python_client_hands_synchronised_value_to_callback() {
    let mut data = LuoshuMemData::new();
    let reg = ConfigurationReg::new("default".into(), "db".into(), Value::from(2));
    let sync = Frame { data: ActionEnum::Sync(LuoshuDataEnum::from(reg)) };
    let handed = follow_frame_callback(&mut data, sync).ok().unwrap().unwrap();
    assert_eq!(handed.name, "db");
    assert_eq!(handed.config, Value::from(2));
    assert!(follow_frame_callback(&mut data, up_service()).ok().unwrap().is_none());
    assert_eq!(data.get_service("svc".into(), None).len(), 1);
    assert!(follow_frame_callback(&mut data, Frame { data: ActionEnum::Ping }).ok().unwrap().is_none());
}
