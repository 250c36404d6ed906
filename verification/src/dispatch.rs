//! What the server and a client do with each frame they receive.
use vstd::prelude::*;
use tokio::sync::mpsc::UnboundedSender;
use crate::data::{mem_appended, mem_removed, mem_unchanged, LuoshuMemData};
use crate::error::DataError;
use crate::frame::{ActionEnum, Frame, Subscribe};
use crate::ident::default_namespace;
use crate::registry::namespace_or_default;
use crate::regs::{subscribe_key, ConfigurationReg, LuoshuDataEnum};
use crate::server::{
    clone_is_exact, server_appended, server_ponged, server_removed,
    server_subscribed, server_unchanged, subscriber_added, subscribers_notified,
    LuoshuSledData,
    PendingSave, SubscriberBook,
};
use crate::storage::Storage;

verus! {

/// The result of a step that persists nothing, as the result of a step
/// that may ask for a store to be persisted.
pub open spec fn without_pending(r: Result<PendingSave, DataError>) -> Result<(), DataError> {
    match r {
        Ok(_) => Ok(()),
        Err(e) => Err(e),
    }
}

/// The server handles a frame from `client`, whose channel is `reply`:
/// data comes up or goes down, a subscription is recorded, a ping is
/// answered with a pong (a client that cannot be answered is treated as
/// gone). The result says which store the caller has to persist.
pub fn serve_frame<T: Storage>(
    data: &mut LuoshuSledData<T>,
    frame: Frame,
    client: String,
    reply: &UnboundedSender<Frame>,
) -> (r: Result<PendingSave, DataError>)
    ensures
        match frame.data {
            ActionEnum::Up(v) => server_appended(*old(data), *final(data), v, Some(client), r),
            ActionEnum::Down(v) => r == Ok::<PendingSave, DataError>(PendingSave::Nothing)
                && server_removed(*old(data), *final(data), v),
            ActionEnum::Sync(_) => r == Ok::<PendingSave, DataError>(PendingSave::Nothing)
                && server_unchanged(*old(data), *final(data)),
            ActionEnum::Subscribe(s) => (r is Ok ==> r == Ok::<PendingSave, DataError>(PendingSave::Nothing))
                && server_subscribed(*old(data), *final(data), s, *reply, without_pending(r)),
            ActionEnum::Ping => r == Ok::<PendingSave, DataError>(PendingSave::Nothing)
                && server_ponged(*old(data), *final(data), client@, *reply),
            ActionEnum::Pong => r == Ok::<PendingSave, DataError>(PendingSave::Nothing)
                && server_unchanged(*old(data), *final(data)),
        },
{
    match frame.data {
        ActionEnum::Up(v) => data.append(&v, Some(client)),
        ActionEnum::Down(v) => {
            let _ = data.remove(&v);
            Ok(PendingSave::Nothing)
        },
        ActionEnum::Sync(v) => {
            let _ = data.sync(&v);
            Ok(PendingSave::Nothing)
        },
        ActionEnum::Subscribe(s) => match data.subscribe(s, reply) {
            Ok(()) => Ok(PendingSave::Nothing),
            Err(e) => Err(e),
        },
        ActionEnum::Ping => {
            let _ = data.answer_ping(client, reply);
            Ok(PendingSave::Nothing)
        },
        ActionEnum::Pong => Ok(PendingSave::Nothing),
    }
}

/// Cloning a configuration request gives the same request.
pub proof fn lemma_configuration_clone_exact()
    ensures
        clone_is_exact::<ConfigurationReg>(),
{
    assert forall|a: ConfigurationReg, b: ConfigurationReg| cloned(a, b) implies b == a by {}
}

/// A client handles a frame from the server: data comes up or goes down,
/// and a synchronised configuration value is handed to its subscribers.
pub fn follow_frame(
    data: &mut LuoshuMemData,
    book: &mut SubscriberBook<ConfigurationReg>,
    frame: Frame,
) -> (r: Result<(), DataError>)
    ensures
        r is Ok,
        match frame.data {
            ActionEnum::Up(v) => mem_appended(*old(data), *final(data), v) && *final(book) == *old(book),
            ActionEnum::Down(v) => mem_removed(*old(data), *final(data), v) && *final(book) == *old(book),
            ActionEnum::Sync(v) => mem_unchanged(*old(data), *final(data)) && match v {
                LuoshuDataEnum::Configuration(c) => subscribers_notified(
                    *old(book),
                    *final(book),
                    subscribe_key(c.namespace@, c.name@),
                    c,
                ),
                _ => *final(book) == *old(book),
            },
            _ => mem_unchanged(*old(data), *final(data)) && *final(book) == *old(book),
        },
{
    match frame.data {
        ActionEnum::Up(v) => data.append(&v),
        ActionEnum::Down(v) => data.remove(&v),
        ActionEnum::Sync(v) => {
            match &v {
                LuoshuDataEnum::Configuration(c) => {
                    let key = c.get_subscribe_str();
                    proof {
                        lemma_configuration_clone_exact();
                    }
                    book.notify(&key, c);
                },
                _ => {},
            }
            data.sync(&v)
        },
        _ => Ok(()),
    }
}

/// The Python client handles a frame from the server: data comes up or
/// goes down, and a synchronised configuration value is returned, to be
/// handed to the subscriber callback.
pub fn follow_frame_callback(data: &mut LuoshuMemData, frame: Frame) -> (r: Result<Option<ConfigurationReg>, DataError>)
    ensures
        match frame.data {
            ActionEnum::Up(v) => mem_appended(*old(data), *final(data), v)
                && r == Ok::<Option<ConfigurationReg>, DataError>(None),
            ActionEnum::Down(v) => mem_removed(*old(data), *final(data), v)
                && r == Ok::<Option<ConfigurationReg>, DataError>(None),
            ActionEnum::Sync(v) => mem_unchanged(*old(data), *final(data)) && r == Ok::<
                Option<ConfigurationReg>,
                DataError,
            >(
                match v {
                    LuoshuDataEnum::Configuration(c) => Some(c),
                    _ => None,
                },
            ),
            _ => mem_unchanged(*old(data), *final(data))
                && r == Ok::<Option<ConfigurationReg>, DataError>(None),
        },
{
    match frame.data {
        ActionEnum::Up(v) => match data.append(&v) {
            Ok(()) => Ok(None),
            Err(e) => Err(e),
        },
        ActionEnum::Down(v) => match data.remove(&v) {
            Ok(()) => Ok(None),
            Err(e) => Err(e),
        },
        ActionEnum::Sync(v) => {
            let handed = match &v {
                LuoshuDataEnum::Configuration(c) => Some(c.clone()),
                _ => None,
            };
            match data.sync(&v) {
                Ok(()) => Ok(handed),
                Err(e) => Err(e),
            }
        },
        _ => Ok(None),
    }
}

/// A client subscribes `sender` to the configuration value `name` of
/// `namespace` (the default namespace when none is given): the handle
/// joins the value's subscribers, and the subscription is returned, to be
/// sent to the server, only when the value had no subscriber before.
pub fn subscribe_request<M: Clone>(
    book: &mut SubscriberBook<M>,
    name: String,
    namespace: Option<String>,
    sender: UnboundedSender<M>,
) -> (r: Option<Subscribe>)
    ensures
        final(book)@ == subscriber_added(
            old(book)@,
            subscribe_key(namespace_or_default(namespace), name@),
            sender,
        ),
        final(book).deliveries() == old(book).deliveries(),
        r is Some <==> !old(book)@.contains_key(subscribe_key(namespace_or_default(namespace), name@)),
        r matches Some(s) ==> s.namespace@ == namespace_or_default(namespace) && s.name == name,
{
    let ns = match namespace {
        Some(n) => n,
        None => default_namespace(),
    };
    let subscribe = Subscribe::new(ns, name);
    if book.add(subscribe.to_string(), sender) {
        Some(subscribe)
    } else {
        None
    }
}

} // verus!
