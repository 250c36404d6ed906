//! The data layer of the server: the three stores, the subscribers of each
//! configuration value, and which client registered which service.
use vstd::prelude::*;
use tokio::sync::mpsc::UnboundedSender;
use crate::assoc::{
    assoc_map, find_key, has_key, keys_distinct, lemma_assoc_empty, lemma_assoc_lookup,
    lemma_assoc_push, lemma_assoc_remove, lemma_assoc_update,
};
use crate::configuration::{configuration_value, ConfiguratorStore, ConfiguratorView};
use crate::data::{
    append_configuration_reg, append_namespace_reg, append_service_reg,
    configuration_reg_appended, configuration_reg_removed, namespace_reg_appended,
    namespace_reg_removed, remove_configuration_reg, remove_namespace_reg, remove_service_reg,
    service_reg_appended, service_reg_removed,
};
use crate::error::DataError;
use crate::external::is_uuid_v4_text;
use crate::ident::default_namespace_name;
use crate::external::clone_sender;
use crate::outbox::{Delivery, Outbox};
use crate::frame::{ActionEnum, Frame, Subscribe};
use crate::namespace::{Namespace, NamespaceStore};
use crate::registry::{RegistryStore, RegistryView};
use crate::regs::{subscribe_key, ConfigurationReg, LuoshuDataEnum, ServiceReg};
use crate::storage::Storage;
use crate::store::Store;
use serde_json::Value;

verus! {

/// The handles, in order, of the deliveries that their channel accepted.
pub open spec fn accepted_handles<M>(ds: Seq<Delivery<M>>) -> Seq<UnboundedSender<M>>
    decreases ds.len(),
{
    if ds.len() == 0 {
        Seq::empty()
    } else if ds.last().accepted {
        accepted_handles(ds.drop_last()).push(ds.last().to)
    } else {
        accepted_handles(ds.drop_last())
    }
}

/// Cloning an `M` gives the same value.
pub open spec fn clone_is_exact<M: Clone>() -> bool {
    forall|a: M, b: M| cloned(a, b) ==> b == a
}

/// The view of one entry of a subscriber book.
pub open spec fn subscriber_entry_view<M>(e: (String, Vec<UnboundedSender<M>>)) -> (
    Seq<char>,
    Seq<UnboundedSender<M>>,
) {
    (e.0@, e.1@)
}

/// The subscribers of each configuration value, by subscription key, and
/// the record of every message handed to them.
#[verifier::reject_recursive_types(M)]
pub struct SubscriberBook<M> {
    entries: Vec<(String, Vec<UnboundedSender<M>>)>,
    outbox: Outbox<M>,
}

impl<M> SubscriberBook<M> {
    /// The entries, as plain values.
    pub closed spec fn entries_view(&self) -> Seq<(Seq<char>, Seq<UnboundedSender<M>>)> {
        self.entries@.map_values(|e: (String, Vec<UnboundedSender<M>>)| subscriber_entry_view(e))
    }

    /// Every message handed to a subscriber so far, in order.
    pub closed spec fn deliveries(&self) -> Seq<Delivery<M>> {
        self.outbox.deliveries()
    }

    #[verifier::type_invariant]
    spec fn inv(&self) -> bool {
        keys_distinct(self.entries_view())
    }
}

impl<M> View for SubscriberBook<M> {
    type V = Map<Seq<char>, Seq<UnboundedSender<M>>>;

    closed spec fn view(&self) -> Map<Seq<char>, Seq<UnboundedSender<M>>> {
        assoc_map(self.entries_view())
    }
}

/// The subscribers of `key` in `m`, none if the key is unknown.
pub open spec fn subscribers_of<M>(m: Map<Seq<char>, Seq<UnboundedSender<M>>>, key: Seq<char>) -> Seq<UnboundedSender<M>> {
    if m.contains_key(key) {
        m[key]
    } else {
        Seq::empty()
    }
}

/// The subscribers after `sender` subscribes under `key`: it follows those
/// already there.
pub open spec fn subscriber_added<M>(
    m: Map<Seq<char>, Seq<UnboundedSender<M>>>,
    key: Seq<char>,
    sender: UnboundedSender<M>,
) -> Map<Seq<char>, Seq<UnboundedSender<M>>> {
    m.insert(key, subscribers_of(m, key).push(sender))
}

/// The book after notifying the subscribers of `key` of `message`: each of
/// them, in order, was handed `message` once, and exactly those whose
/// channel did not accept it are dropped.
pub open spec fn subscribers_notified<M>(old: SubscriberBook<M>, new: SubscriberBook<M>, key: Seq<char>, message: M) -> bool {
    let list = subscribers_of(old@, key);
    let n = old.deliveries().len();
    let sent = new.deliveries().subrange(n as int, new.deliveries().len() as int);
    &&& new.deliveries().len() == n + list.len()
    &&& new.deliveries().subrange(0, n as int) == old.deliveries()
    &&& forall|i: int| 0 <= i < list.len() ==> (#[trigger] sent[i]).to == list[i] && sent[i].message == message
    &&& new@ == if old@.contains_key(key) {
        old@.insert(key, accepted_handles(sent))
    } else {
        old@
    }
}

/// Cloning a frame gives the same frame.
pub proof fn lemma_frame_clone_exact()
    ensures
        clone_is_exact::<Frame>(),
{
    assert forall|a: Frame, b: Frame| cloned(a, b) implies b == a by {}
}

impl<M: Clone> SubscriberBook<M> {
    /// An empty book, nothing handed to anyone yet.
    pub fn new() -> (r: Self)
        ensures
            r@ == Map::<Seq<char>, Seq<UnboundedSender<M>>>::empty(),
            r.deliveries() == Seq::<Delivery<M>>::empty(),
    {
        let r = SubscriberBook { entries: Vec::new(), outbox: Outbox::new() };
        proof {
            lemma_assoc_empty(r.entries_view());
        }
        r
    }

    /// Adds a subscriber under `key`, after those already there; the result
    /// says whether `key` had no subscriber before.
    pub fn add(&mut self, key: String, sender: UnboundedSender<M>) -> (r: bool)
        ensures
            r == !old(self)@.contains_key(key@),
            final(self)@ == subscriber_added(old(self)@, key@, sender),
            final(self).deliveries() == old(self).deliveries(),
    {
        proof {
            use_type_invariant(&*self);
        }
        let ghost old_entries = self.entries_view();
        let ghost k = key@;
        let mut entries: Vec<(String, Vec<UnboundedSender<M>>)> = Vec::new();
        let fresh = match find_key(&self.entries, &key) {
            Some(i) => {
                std::mem::swap(&mut entries, &mut self.entries);
                proof {
                    assert(old_entries[i as int] == subscriber_entry_view(entries@[i as int]));
                    lemma_assoc_lookup(old_entries, i as int);
                }
                entries[i].1.push(sender);
                proof {
                    lemma_assoc_update(old_entries, i as int, old_entries[i as int].1.push(sender));
                    assert(entries@.map_values(
                        |e: (String, Vec<UnboundedSender<M>>)| subscriber_entry_view(e),
                    ) =~= old_entries.update(
                        i as int,
                        (old_entries[i as int].0, old_entries[i as int].1.push(sender)),
                    ));
                }
                false
            },
            None => {
                std::mem::swap(&mut entries, &mut self.entries);
                let mut list: Vec<UnboundedSender<M>> = Vec::new();
                list.push(sender);
                entries.push((key, list));
                proof {
                    assert(!has_key(old_entries, k)) by {
                        if has_key(old_entries, k) {
                            let j = choose|j: int| 0 <= j < old_entries.len() && old_entries[j].0 == k;
                            assert(old_entries[j] == subscriber_entry_view(old(self).entries@[j]));
                        }
                    }
                    lemma_assoc_push(old_entries, k, seq![sender]);
                    assert(list@ =~= seq![sender]);
                    assert(seq![sender] =~= Seq::<UnboundedSender<M>>::empty().push(sender));
                    assert(entries@.map_values(
                        |e: (String, Vec<UnboundedSender<M>>)| subscriber_entry_view(e),
                    ) =~= old_entries.push((k, seq![sender])));
                }
                true
            },
        };
        self.entries = entries;
        fresh
    }

    /// Hands `message` to every subscriber of `key`, in order; the
    /// subscribers whose channel does not accept it are dropped.
    pub fn notify(&mut self, key: &String, message: &M)
        requires
            clone_is_exact::<M>(),
        ensures
            subscribers_notified(*old(self), *final(self), key@, *message),
    {
        proof {
            use_type_invariant(&*self);
        }
        let ghost old_entries = self.entries_view();
        let ghost n = self.outbox.deliveries().len();
        match find_key(&self.entries, key) {
            Some(i) => {
                let mut entries: Vec<(String, Vec<UnboundedSender<M>>)> = Vec::new();
                std::mem::swap(&mut entries, &mut self.entries);
                proof {
                    assert(old_entries[i as int] == subscriber_entry_view(entries@[i as int]));
                    lemma_assoc_lookup(old_entries, i as int);
                }
                let mut list: Vec<UnboundedSender<M>> = Vec::new();
                std::mem::swap(&mut list, &mut entries[i].1);
                let ghost start = list@;
                let mut kept: Vec<UnboundedSender<M>> = Vec::new();
                let mut outbox: Outbox<M> = Outbox::new();
                std::mem::swap(&mut outbox, &mut self.outbox);
                proof {
                    assert(outbox.deliveries().subrange(0, n as int) =~= old(self).outbox.deliveries());
                    assert(outbox.deliveries().subrange(n as int, n as int) =~= Seq::<Delivery<M>>::empty());
                }
                let mut j: usize = 0;
                while j < list.len()
                    invariant
                        clone_is_exact::<M>(),
                        list@ == start,
                        j <= start.len(),
                        outbox.deliveries().len() == n + j,
                        outbox.deliveries().subrange(0, n as int) == old(self).outbox.deliveries(),
                        forall|t: int| 0 <= t < j ==> (#[trigger] outbox.deliveries()[n + t]).to == start[t] && outbox.deliveries()[n + t].message == *message,
                        kept@ == accepted_handles(outbox.deliveries().subrange(n as int, n + j)),
                    decreases start.len() - j,
                {
                    let m = message.clone();
                    proof {
                        assert(cloned(*message, m));
                    }
                    let ghost before = outbox.deliveries();
                    let r = outbox.deliver(&list[j], m);
                    if r.is_ok() {
                        kept.push(clone_sender(&list[j]));
                    }
                    proof {
                        let sent = outbox.deliveries().subrange(n as int, n + j + 1);
                        assert(sent.drop_last() =~= before.subrange(n as int, n + j));
                        assert(sent.last() == outbox.deliveries()[n + j]);
                        assert(outbox.deliveries().subrange(0, n as int) =~= before.subrange(0, n as int));
                        assert forall|t: int| 0 <= t < j + 1 implies (#[trigger] outbox.deliveries()[n + t]).to == start[t] && outbox.deliveries()[n + t].message == *message by {
                            if t < j {
                                assert(outbox.deliveries()[n + t] == before[n + t]);
                            }
                        }
                    }
                    j = j + 1;
                }
                let ghost sent = outbox.deliveries().subrange(n as int, outbox.deliveries().len() as int);
                std::mem::swap(&mut kept, &mut entries[i].1);
                proof {
                    assert(sent =~= outbox.deliveries().subrange(n as int, n + start.len() as int));
                    lemma_assoc_update(old_entries, i as int, accepted_handles(sent));
                    assert(entries@.map_values(
                        |e: (String, Vec<UnboundedSender<M>>)| subscriber_entry_view(e),
                    ) =~= old_entries.update(i as int, (old_entries[i as int].0, accepted_handles(sent))));
                }
                self.entries = entries;
                self.outbox = outbox;
                proof {
                    assert(self.deliveries() == self.outbox.deliveries());
                    assert(subscribers_of(old(self)@, key@) == start);
                    assert forall|t: int| 0 <= t < start.len() implies (#[trigger] sent[t]).to == start[t] && sent[t].message == *message by {
                        assert(sent[t] == outbox.deliveries()[n + t]);
                    }
                }
            },
            None => {
                proof {
                    assert(!has_key(old_entries, key@)) by {
                        if has_key(old_entries, key@) {
                            let j = choose|j: int| 0 <= j < old_entries.len() && old_entries[j].0 == key@;
                            assert(old_entries[j] == subscriber_entry_view(self.entries@[j]));
                        }
                    }
                    assert(self.outbox.deliveries().subrange(n as int, n as int) =~= Seq::<Delivery<M>>::empty());
                    assert(self.outbox.deliveries().subrange(0, n as int) =~= self.outbox.deliveries());
                }
            },
        }
    }
}

/// The view of one entry of a service book.
pub open spec fn service_entry_view(e: (String, ServiceReg)) -> (Seq<char>, ServiceReg) {
    (e.0@, e.1)
}

/// Which service each client registered, by client address.
pub struct ServiceBook {
    entries: Vec<(String, ServiceReg)>,
}

impl ServiceBook {
    /// The entries, as plain values.
    pub closed spec fn entries_view(&self) -> Seq<(Seq<char>, ServiceReg)> {
        self.entries@.map_values(|e: (String, ServiceReg)| service_entry_view(e))
    }

    #[verifier::type_invariant]
    spec fn inv(&self) -> bool {
        keys_distinct(self.entries_view())
    }
}

impl View for ServiceBook {
    type V = Map<Seq<char>, ServiceReg>;

    closed spec fn view(&self) -> Map<Seq<char>, ServiceReg> {
        assoc_map(self.entries_view())
    }
}

impl ServiceBook {
    /// An empty book.
    pub fn new() -> (r: Self)
        ensures
            r@ == Map::<Seq<char>, ServiceReg>::empty(),
    {
        let r = ServiceBook { entries: Vec::new() };
        proof {
            lemma_assoc_empty(r.entries_view());
        }
        r
    }

    /// Records that `client` registered `reg`, replacing what it registered before.
    pub fn insert(&mut self, client: String, reg: ServiceReg)
        ensures
            final(self)@ == old(self)@.insert(client@, reg),
    {
        proof {
            use_type_invariant(&*self);
        }
        let ghost old_entries = self.entries_view();
        let ghost k = client@;
        let mut entries: Vec<(String, ServiceReg)> = Vec::new();
        match find_key(&self.entries, &client) {
            Some(i) => {
                std::mem::swap(&mut entries, &mut self.entries);
                entries.set(i, (client, reg));
                proof {
                    assert(old_entries[i as int] == service_entry_view(old(self).entries@[i as int]));
                    lemma_assoc_update(old_entries, i as int, reg);
                    assert(entries@.map_values(|e: (String, ServiceReg)| service_entry_view(e))
                        =~= old_entries.update(i as int, (old_entries[i as int].0, reg)));
                }
            },
            None => {
                std::mem::swap(&mut entries, &mut self.entries);
                entries.push((client, reg));
                proof {
                    assert(!has_key(old_entries, k)) by {
                        if has_key(old_entries, k) {
                            let j = choose|j: int| 0 <= j < old_entries.len() && old_entries[j].0 == k;
                            assert(old_entries[j] == service_entry_view(old(self).entries@[j]));
                        }
                    }
                    lemma_assoc_push(old_entries, k, reg);
                    assert(entries@.map_values(|e: (String, ServiceReg)| service_entry_view(e))
                        =~= old_entries.push((k, reg)));
                }
            },
        }
        self.entries = entries;
    }

    /// Takes out what `client` registered, if anything.
    pub fn take(&mut self, client: &String) -> (r: Option<ServiceReg>)
        ensures
            r == (if old(self)@.contains_key(client@) {
                Some(old(self)@[client@])
            } else {
                None
            }),
            final(self)@ == old(self)@.remove(client@),
    {
        proof {
            use_type_invariant(&*self);
        }
        let ghost old_entries = self.entries_view();
        match find_key(&self.entries, client) {
            Some(i) => {
                let mut entries: Vec<(String, ServiceReg)> = Vec::new();
                std::mem::swap(&mut entries, &mut self.entries);
                let e = entries.remove(i);
                proof {
                    assert(old_entries[i as int] == service_entry_view(e));
                    lemma_assoc_lookup(old_entries, i as int);
                    lemma_assoc_remove(old_entries, i as int);
                    assert(entries@.map_values(|e: (String, ServiceReg)| service_entry_view(e))
                        =~= old_entries.remove(i as int));
                }
                self.entries = entries;
                Some(e.1)
            },
            None => {
                proof {
                    assert(!has_key(old_entries, client@)) by {
                        if has_key(old_entries, client@) {
                            let j = choose|j: int| 0 <= j < old_entries.len() && old_entries[j].0 == client@;
                            assert(old_entries[j] == service_entry_view(self.entries@[j]));
                        }
                    }
                    assert(assoc_map(old_entries) =~= assoc_map(old_entries).remove(client@));
                }
                None
            },
        }
    }
}

/// Which store the caller has to persist after a request.
#[derive(PartialEq, Eq, Structural, Debug)]
pub enum PendingSave {
    /// None.
    Nothing,
    /// The namespace store.
    Namespaces,
    /// The configuration store.
    Configurations,
}

/// The data layer of the server.
pub struct LuoshuSledData<T: Storage> {
    /// Configurations.
    pub configuration_store: ConfiguratorStore<T>,
    /// Namespaces.
    pub namespace_store: NamespaceStore<T>,
    /// Registries.
    pub service_store: RegistryStore<T>,
    /// Subscribers of each configuration value.
    pub config_subscribers: SubscriberBook<Frame>,
    /// Which service each connected client registered.
    pub service_book: ServiceBook,
    /// Sends frames straight back to a client (the current value on a
    /// subscription, a pong).
    pub replies_out: Outbox<Frame>,
}

impl<T: Storage> LuoshuSledData<T> {
    /// Every frame sent straight back to a client, in order.
    pub open spec fn replies(&self) -> Seq<Delivery<Frame>> {
        self.replies_out.deliveries()
    }
}

/// Neither the subscribers nor the service book differ, and nothing was
/// sent to anyone.
pub open spec fn books_unchanged<T: Storage>(old: LuoshuSledData<T>, new: LuoshuSledData<T>) -> bool {
    &&& new.config_subscribers == old.config_subscribers
    &&& new.service_book@ == old.service_book@
    &&& new.replies() == old.replies()
}

/// Only the namespace store may differ.
pub open spec fn only_namespaces_differ<T: Storage>(old: LuoshuSledData<T>, new: LuoshuSledData<T>) -> bool {
    &&& new.configuration_store@ == old.configuration_store@
    &&& new.service_store@ == old.service_store@
    &&& books_unchanged(old, new)
}

/// Only the configuration store and the subscribers may differ.
pub open spec fn only_configurations_differ<T: Storage>(old: LuoshuSledData<T>, new: LuoshuSledData<T>) -> bool {
    &&& new.namespace_store.values@ == old.namespace_store.values@
    &&& new.service_store@ == old.service_store@
    &&& new.service_book@ == old.service_book@
    &&& new.replies() == old.replies()
}

/// Only the registry store and the service book may differ.
pub open spec fn only_services_differ<T: Storage>(old: LuoshuSledData<T>, new: LuoshuSledData<T>) -> bool {
    &&& new.namespace_store.values@ == old.namespace_store.values@
    &&& new.configuration_store@ == old.configuration_store@
    &&& new.config_subscribers == old.config_subscribers
}

/// Nothing that the data layer holds differs, and nothing was sent.
pub open spec fn server_unchanged<T: Storage>(old: LuoshuSledData<T>, new: LuoshuSledData<T>) -> bool {
    &&& new.namespace_store.values@ == old.namespace_store.values@
    &&& new.configuration_store@ == old.configuration_store@
    &&& new.service_store@ == old.service_store@
    &&& books_unchanged(old, new)
}

/// The server's data after appending `value` sent by `client`, and the
/// store the caller has to persist.
pub open spec fn server_appended<T: Storage>(
    old: LuoshuSledData<T>,
    new: LuoshuSledData<T>,
    value: LuoshuDataEnum,
    client: Option<String>,
    r: Result<PendingSave, DataError>,
) -> bool {
    match value {
        LuoshuDataEnum::Namespace(reg) => {
            &&& r == Ok::<PendingSave, DataError>(PendingSave::Namespaces)
            &&& namespace_reg_appended(old.namespace_store.values@, new.namespace_store.values@, reg)
            &&& only_namespaces_differ(old, new)
        },
        LuoshuDataEnum::Configuration(reg) => {
            &&& r == Ok::<PendingSave, DataError>(PendingSave::Configurations)
            &&& configuration_reg_appended(old.configuration_store@, new.configuration_store@, reg)
            &&& subscribers_notified(
                old.config_subscribers,
                new.config_subscribers,
                subscribe_key(reg.namespace@, reg.name@),
                Frame { data: ActionEnum::Sync(LuoshuDataEnum::Configuration(reg)) },
            )
            &&& only_configurations_differ(old, new)
        },
        LuoshuDataEnum::Service(reg) => {
            &&& r == Ok::<PendingSave, DataError>(PendingSave::Nothing)
            &&& service_reg_appended(old.service_store@, new.service_store@, reg)
            &&& new.service_book@ == match client {
                Some(c) => old.service_book@.insert(c@, reg),
                None => old.service_book@,
            }
            &&& only_services_differ(old, new)
        },
        LuoshuDataEnum::Subscribe(_) => {
            &&& r == Ok::<PendingSave, DataError>(PendingSave::Nothing)
            &&& server_unchanged(old, new)
        },
    }
}

/// The server's data after removing what `value` names.
pub open spec fn server_removed<T: Storage>(old: LuoshuSledData<T>, new: LuoshuSledData<T>, value: LuoshuDataEnum) -> bool {
    &&& books_unchanged(old, new)
    &&& match value {
        LuoshuDataEnum::Namespace(reg) => {
            &&& namespace_reg_removed(old.namespace_store.values@, new.namespace_store.values@, reg)
            &&& new.configuration_store@ == old.configuration_store@
            &&& new.service_store@ == old.service_store@
        },
        LuoshuDataEnum::Configuration(reg) => {
            &&& configuration_reg_removed(old.configuration_store@, new.configuration_store@, reg)
            &&& new.namespace_store.values@ == old.namespace_store.values@
            &&& new.service_store@ == old.service_store@
        },
        LuoshuDataEnum::Service(reg) => {
            &&& service_reg_removed(old.service_store@, new.service_store@, reg)
            &&& new.namespace_store.values@ == old.namespace_store.values@
            &&& new.configuration_store@ == old.configuration_store@
        },
        LuoshuDataEnum::Subscribe(_) => server_unchanged(old, new),
    }
}

/// The frame that tells a subscriber of `subscribe` that the value is `config`.
pub open spec fn current_value_frame(subscribe: Subscribe, config: Value) -> Frame {
    Frame {
        data: ActionEnum::Sync(
            LuoshuDataEnum::Configuration(
                ConfigurationReg { namespace: subscribe.namespace, name: subscribe.name, config },
            ),
        ),
    }
}

/// The server's data after subscribing `sender` to a configuration value:
/// the handle follows the value's subscribers and, if the value is set, it
/// is sent to `sender` at once; the result is an error exactly when that
/// send finds the channel closed. The registration stays either way.
pub open spec fn server_subscribed<T: Storage>(
    old: LuoshuSledData<T>,
    new: LuoshuSledData<T>,
    subscribe: Subscribe,
    sender: UnboundedSender<Frame>,
    r: Result<(), DataError>,
) -> bool {
    let key = subscribe_key(subscribe.namespace@, subscribe.name@);
    &&& new.config_subscribers@ == subscriber_added(old.config_subscribers@, key, sender)
    &&& new.config_subscribers.deliveries() == old.config_subscribers.deliveries()
    &&& match configuration_value(old.configuration_store@, subscribe.namespace@, subscribe.name@) {
        Some(v) => {
            &&& new.replies() == old.replies().push(
                Delivery { to: sender, message: current_value_frame(subscribe, v), accepted: r is Ok },
            )
            &&& r is Err ==> r matches Err(DataError::ChannelClosed)
        },
        None => {
            &&& new.replies() == old.replies()
            &&& r is Ok
        },
    }
    &&& new.namespace_store.values@ == old.namespace_store.values@
    &&& new.configuration_store@ == old.configuration_store@
    &&& new.service_store@ == old.service_store@
    &&& new.service_book@ == old.service_book@
}

/// The server's data after the connection to `client` broke: the client
/// leaves the service book, and the service it registered leaves the
/// registry.
pub open spec fn server_broken<T: Storage>(old: LuoshuSledData<T>, new: LuoshuSledData<T>, client: Seq<char>) -> bool {
    &&& new.service_book@ == old.service_book@.remove(client)
    &&& old.service_book@.contains_key(client) ==> service_reg_removed(
        old.service_store@,
        new.service_store@,
        old.service_book@[client],
    )
    &&& !old.service_book@.contains_key(client) ==> new.service_store@ == old.service_store@
    &&& new.namespace_store.values@ == old.namespace_store.values@
    &&& new.configuration_store@ == old.configuration_store@
    &&& new.config_subscribers == old.config_subscribers
}

/// The server's data after `client` pinged over the channel `reply`: a
/// pong was sent to `reply`; if the channel accepted it nothing else
/// changed, else the client is treated as gone.
pub open spec fn server_ponged<T: Storage>(
    old: LuoshuSledData<T>,
    new: LuoshuSledData<T>,
    client: Seq<char>,
    reply: UnboundedSender<Frame>,
) -> bool {
    let sent = new.replies().last();
    &&& new.replies().len() == old.replies().len() + 1
    &&& new.replies().drop_last() == old.replies()
    &&& sent.to == reply
    &&& sent.message == (Frame { data: ActionEnum::Pong })
    &&& sent.accepted ==> {
        &&& new.namespace_store.values@ == old.namespace_store.values@
        &&& new.configuration_store@ == old.configuration_store@
        &&& new.service_store@ == old.service_store@
        &&& new.config_subscribers == old.config_subscribers
        &&& new.service_book@ == old.service_book@
    }
    &&& !sent.accepted ==> server_broken(old, new, client)
}

impl<T: Storage + Default> Default for LuoshuSledData<T> {
    /// The data layer over the default storage backend.
    fn default() -> (r: Self)
        ensures
            r.configuration_store@ == Seq::<ConfiguratorView>::empty(),
            r.namespace_store.values@ == Seq::<Namespace>::empty(),
            r.service_store@ == Seq::<RegistryView>::empty(),
            r.config_subscribers@ == Map::<Seq<char>, Seq<UnboundedSender<Frame>>>::empty(),
            r.config_subscribers.deliveries() == Seq::<Delivery<Frame>>::empty(),
            r.service_book@ == Map::<Seq<char>, ServiceReg>::empty(),
            r.replies() == Seq::<Delivery<Frame>>::empty(),
    {
        Self::new(T::default())
    }
}

impl<T: Storage> LuoshuSledData<T> {
    /// Creates the data layer over `storage`, with empty stores and books.
    pub fn new(storage: T) -> (r: Self)
        ensures
            r.configuration_store@ == Seq::<ConfiguratorView>::empty(),
            r.namespace_store.values@ == Seq::<Namespace>::empty(),
            r.service_store@ == Seq::<RegistryView>::empty(),
            r.config_subscribers@ == Map::<Seq<char>, Seq<UnboundedSender<Frame>>>::empty(),
            r.config_subscribers.deliveries() == Seq::<Delivery<Frame>>::empty(),
            r.service_book@ == Map::<Seq<char>, ServiceReg>::empty(),
            r.replies() == Seq::<Delivery<Frame>>::empty(),
    {
        let configuration_store = ConfiguratorStore::new(storage.clone());
        let namespace_store = NamespaceStore::new(storage.clone());
        let service_store = RegistryStore::new(storage);
        LuoshuSledData {
            configuration_store,
            namespace_store,
            service_store,
            config_subscribers: SubscriberBook::new(),
            service_book: ServiceBook::new(),
            replies_out: Outbox::new(),
        }
    }

    /// At start-up: a server without namespaces gets the `default` one.
    pub fn ensure_default_namespace(&mut self) -> (r: PendingSave)
        ensures
            old(self).namespace_store.values@.len() == 0 ==> {
                &&& r == PendingSave::Namespaces
                &&& final(self).namespace_store.values@.len() == 1
                &&& final(self).namespace_store.values@[0].name@ == default_namespace_name()
                &&& is_uuid_v4_text(final(self).namespace_store.values@[0].id@)
            },
            old(self).namespace_store.values@.len() != 0 ==> {
                &&& r == PendingSave::Nothing
                &&& final(self).namespace_store.values@ == old(self).namespace_store.values@
            },
            final(self).configuration_store@ == old(self).configuration_store@,
            final(self).service_store@ == old(self).service_store@,
            books_unchanged(*old(self), *final(self)),
    {
        if self.namespace_store.values.len() == 0 {
            let ns = Namespace::from("default");
            proof {
                reveal_strlit("default");
                assert(ns.name@ == default_namespace_name());
            }
            let _ = self.namespace_store.append(ns);
            PendingSave::Namespaces
        } else {
            PendingSave::Nothing
        }
    }

    /// Adds what a request brings. A configuration value is first sent to
    /// its subscribers (those whose channel is closed are dropped); a
    /// service is recorded against the client that registered it. The
    /// result says which store the caller has to persist.
    pub fn append(&mut self, value: &LuoshuDataEnum, client: Option<String>) -> (r: Result<PendingSave, DataError>)
        ensures
            server_appended(*old(self), *final(self), *value, client, r),
    {
        match value {
            LuoshuDataEnum::Namespace(reg) => {
                let _ = append_namespace_reg(&mut self.namespace_store, reg);
                Ok(PendingSave::Namespaces)
            },
            LuoshuDataEnum::Configuration(reg) => {
                let subscriber = Subscribe::from(reg);
                let key = subscriber.to_string();
                let frame = Frame { data: ActionEnum::Sync(LuoshuDataEnum::Configuration(reg.clone())) };
                proof {
                    lemma_frame_clone_exact();
                }
                self.config_subscribers.notify(&key, &frame);
                let _ = append_configuration_reg(&mut self.configuration_store, reg);
                Ok(PendingSave::Configurations)
            },
            LuoshuDataEnum::Service(reg) => {
                match client {
                    Some(c) => self.service_book.insert(c, reg.clone()),
                    None => {},
                }
                let _ = append_service_reg(&mut self.service_store, reg);
                Ok(PendingSave::Nothing)
            },
            LuoshuDataEnum::Subscribe(_) => Ok(PendingSave::Nothing),
        }
    }

    /// Removes what a request names from the store it belongs to; a
    /// subscription changes nothing.
    pub fn remove(&mut self, value: &LuoshuDataEnum) -> (r: Result<(), DataError>)
        ensures
            r is Ok,
            server_removed(*old(self), *final(self), *value),
    {
        match value {
            LuoshuDataEnum::Namespace(reg) => remove_namespace_reg(&mut self.namespace_store, reg),
            LuoshuDataEnum::Configuration(reg) => remove_configuration_reg(&mut self.configuration_store, reg),
            LuoshuDataEnum::Service(reg) => remove_service_reg(&mut self.service_store, reg),
            LuoshuDataEnum::Subscribe(_) => Ok(()),
        }
    }

    /// Synchronisation from a client: the server keeps what it holds.
    pub fn sync(&mut self, value: &LuoshuDataEnum) -> (r: Result<(), DataError>)
        ensures
            r is Ok,
            server_unchanged(*old(self), *final(self)),
    {
        Ok(())
    }

    /// Subscribes a client to a configuration value: it is added to the
    /// value's subscribers and, if the value is set, sent it at once. The
    /// result is an error only when that send finds the channel closed.
    pub fn subscribe(&mut self, subscribe: Subscribe, subscriber_sender: &UnboundedSender<Frame>) -> (r: Result<(), DataError>)
        ensures
            server_subscribed(*old(self), *final(self), subscribe, *subscriber_sender, r),
    {
        let key = subscribe.to_string();
        let s = clone_sender(subscriber_sender);
        let _ = self.config_subscribers.add(key, s);
        match self.configuration_store.get_configurations_by_namespace(subscribe.namespace.clone()) {
            Some(mut configurator) => {
                match configurator.get_configuration(subscribe.name.clone()) {
                    Some(config) => {
                        let config_reg = ConfigurationReg::new(subscribe.namespace, subscribe.name, config);
                        let frame = Frame { data: ActionEnum::Sync(LuoshuDataEnum::Configuration(config_reg)) };
                        self.replies_out.deliver(subscriber_sender, frame)
                    },
                    None => Ok(()),
                }
            },
            None => Ok(()),
        }
    }

    /// Answers a ping from `client` with a pong on `reply`; a client that
    /// cannot be answered is treated as gone.
    pub fn answer_ping(&mut self, client: String, reply: &UnboundedSender<Frame>) -> (r: Result<(), DataError>)
        ensures
            r is Ok,
            server_ponged(*old(self), *final(self), client@, *reply),
    {
        let ghost before = self.replies();
        match self.replies_out.deliver(reply, Frame { data: ActionEnum::Pong }) {
            Ok(()) => {},
            Err(_) => {
                let _ = self.broken(client);
            },
        }
        proof {
            assert(self.replies().drop_last() =~= before);
        }
        Ok(())
    }

    /// A client's connection broke: the service it registered, if any, is
    /// removed from the registry and from the book.
    pub fn broken(&mut self, client: String) -> (r: Result<(), DataError>)
        ensures
            r is Ok,
            server_broken(*old(self), *final(self), client@),
            final(self).replies() == old(self).replies(),
    {
        match self.service_book.take(&client) {
            Some(reg) => remove_service_reg(&mut self.service_store, &reg),
            None => Ok(()),
        }
    }
}

} // verus!
