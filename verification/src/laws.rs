//! Properties of the library as a whole: what a read gives back of a write,
//! what each store keeps true, and how the frame codec round-trips.
use vstd::prelude::*;
use crate::configuration::{
    configuration_value, configurator_appended, configurator_removed,
    is_first_configurator_for, lemma_first_configurator_unique, no_configurator_for,
    ConfiguratorView,
};
use crate::data::{configuration_reg_appended, service_reg_appended, service_reg_removed, services_of};
use crate::ident::default_namespace_name;
use crate::namespace::{
    namespace_appended, namespace_named, namespace_names_distinct, namespace_removed,
    namespaces_without, Namespace,
};
use crate::registry::{
    is_first_registry_match, no_registry_match, registry_appended, registry_appended_at,
    registry_removed, same_registry, service_in, services_without, RegistryView,
};
use crate::regs::subscribe_key;
use crate::service::{same_service, Service};
use crate::outbox::Delivery;
use crate::server::{accepted_handles, subscribers_notified, SubscriberBook};
use crate::configuration::{config_entries_view, config_entry_view, entries_in_order};
use serde_json::Value;
use crate::error::DataError;
use crate::frame::{ActionEnum, Frame, Subscribe};
use crate::regs::{ConfigurationReg, LuoshuDataEnum};
use crate::server::{
    server_appended, server_subscribed, subscriber_added, subscribers_of, LuoshuSledData,
    PendingSave,
};
use crate::storage::Storage;
use tokio::sync::mpsc::UnboundedSender;

verus! {

/// Reading a key of the in-memory storage after saving it gives back what
/// was saved; every other key keeps what it held.
pub proof fn law_storage_load_after_save(
    before: Map<Seq<char>, Seq<u8>>,
    key: Seq<char>,
    values: Seq<u8>,
    other: Seq<char>,
)
    ensures
        before.insert(key, values).contains_key(key),
        before.insert(key, values)[key] == values,
        other != key ==> before.insert(key, values).contains_key(other) == before.contains_key(
            other,
        ),
        other != key && before.contains_key(other) ==> before.insert(key, values)[other]
            == before[other],
{
}

/// The in-memory storage after each `(key, bytes)` of `saves`, in order,
/// was saved into `m`.
pub open spec fn saves_applied(m: Map<Seq<char>, Seq<u8>>, saves: Seq<(Seq<char>, Seq<u8>)>) -> Map<Seq<char>, Seq<u8>>
    decreases saves.len(),
{
    if saves.len() == 0 {
        m
    } else {
        saves_applied(m, saves.drop_last()).insert(saves.last().0, saves.last().1)
    }
}

/// No save of `saves` is made under `key`.
pub open spec fn saves_avoid(saves: Seq<(Seq<char>, Seq<u8>)>, key: Seq<char>) -> bool {
    forall|i: int| 0 <= i < saves.len() ==> (#[trigger] saves[i]).0 != key
}

/// Saves under other keys leave what a key holds as it was: after saving
/// `values` under `key` and then any run of saves under other keys, a load
/// of `key` gives `values` back; and a key under which nothing was ever
/// saved into an empty storage loads nothing.
pub proof fn law_storage_load_after_saves(
    before: Map<Seq<char>, Seq<u8>>,
    key: Seq<char>,
    values: Seq<u8>,
    later: Seq<(Seq<char>, Seq<u8>)>,
)
    requires
        saves_avoid(later, key),
    ensures
        saves_applied(before.insert(key, values), later).contains_key(key),
        saves_applied(before.insert(key, values), later)[key] == values,
        !saves_applied(Map::<Seq<char>, Seq<u8>>::empty(), later).contains_key(key),
    decreases later.len(),
{
    if later.len() > 0 {
        let rest = later.drop_last();
        assert(saves_avoid(rest, key)) by {
            assert forall|i: int| 0 <= i < rest.len() implies (#[trigger] rest[i]).0 != key by {
                assert(rest[i] == later[i]);
            }
        }
        assert(later.last() == later[later.len() - 1]);
        law_storage_load_after_saves(before, key, values, rest);
    }
}

/// After appending a namespace, a namespace of that name is kept.
pub proof fn law_namespace_append_adds_name(old: Seq<Namespace>, v: Namespace)
    ensures
        namespace_named(namespace_appended(old, v), v.name@),
{
    if !namespace_named(old, v.name@) {
        let n = old.push(v);
        assert(n[old.len() as int] == v);
    }
}

/// Appending a namespace twice under one name is appending it once.
pub proof fn law_namespace_append_idempotent(old: Seq<Namespace>, v: Namespace, w: Namespace)
    requires
        w.name@ == v.name@,
    ensures
        namespace_appended(namespace_appended(old, v), w) == namespace_appended(old, v),
{
    law_namespace_append_adds_name(old, v);
}

/// Appending keeps the names of the namespaces distinct.
pub proof fn law_namespace_append_keeps_names_distinct(old: Seq<Namespace>, v: Namespace)
    requires
        namespace_names_distinct(old),
    ensures
        namespace_names_distinct(namespace_appended(old, v)),
{
    if !namespace_named(old, v.name@) {
        let n = old.push(v);
        assert forall|i: int, j: int|
            0 <= i < n.len() && 0 <= j < n.len() && i != j implies (#[trigger] n[i]).name@
            != (#[trigger] n[j]).name@ by {
            if i < old.len() && j < old.len() {
                assert(n[i] == old[i] && n[j] == old[j]);
            } else if i < old.len() {
                assert(n[i] == old[i]);
                assert(!(old[i].name@ == v.name@));
            } else {
                assert(n[j] == old[j]);
                assert(!(old[j].name@ == v.name@));
            }
        }
    }
}

/// Filtering keeps what a relation keeps apart apart, and keeps only
/// elements of the list.
proof fn lemma_filter_keeps_apart<A>(s: Seq<A>, p: spec_fn(A) -> bool, rel: spec_fn(A, A) -> bool)
    requires
        forall|i: int, j: int|
            0 <= i < s.len() && 0 <= j < s.len() && i != j ==> !rel(#[trigger] s[i], #[trigger] s[j]),
    ensures
        forall|i: int, j: int|
            0 <= i < s.filter(p).len() && 0 <= j < s.filter(p).len() && i != j ==> !rel(
                #[trigger] s.filter(p)[i],
                #[trigger] s.filter(p)[j],
            ),
        forall|i: int|
            0 <= i < s.filter(p).len() ==> exists|k: int| 0 <= k < s.len() && #[trigger] s.filter(p)[i] == s[k],
    decreases s.len(),
{
    reveal(Seq::filter);
    if s.len() > 0 {
        let d = s.drop_last();
        assert forall|i: int, j: int|
            0 <= i < d.len() && 0 <= j < d.len() && i != j implies !rel(#[trigger] d[i], #[trigger] d[j]) by {
            assert(d[i] == s[i] && d[j] == s[j]);
        }
        lemma_filter_keeps_apart(d, p, rel);
        let fd = d.filter(p);
        let f = s.filter(p);
        let last = s.len() - 1;
        if p(s.last()) {
            assert(f == fd.push(s.last()));
            assert forall|i: int| 0 <= i < f.len() implies exists|k: int| 0 <= k < s.len() && #[trigger] f[i] == s[k] by {
                if i < fd.len() {
                    let k = choose|k: int| 0 <= k < d.len() && fd[i] == d[k];
                    assert(f[i] == s[k]);
                } else {
                    assert(f[i] == s[last]);
                }
            }
            assert forall|i: int, j: int|
                0 <= i < f.len() && 0 <= j < f.len() && i != j implies !rel(#[trigger] f[i], #[trigger] f[j]) by {
                if i < fd.len() && j < fd.len() {
                    assert(f[i] == fd[i] && f[j] == fd[j]);
                } else if i < fd.len() {
                    let k = choose|k: int| 0 <= k < d.len() && fd[i] == d[k];
                    assert(f[i] == s[k] && f[j] == s[last]);
                } else {
                    let k = choose|k: int| 0 <= k < d.len() && fd[j] == d[k];
                    assert(f[j] == s[k] && f[i] == s[last]);
                }
            }
        } else {
            assert(f == fd);
            assert forall|i: int| 0 <= i < f.len() implies exists|k: int| 0 <= k < s.len() && #[trigger] f[i] == s[k] by {
                let k = choose|k: int| 0 <= k < d.len() && fd[i] == d[k];
                assert(f[i] == s[k]);
            }
        }
    }
}

/// Filtering a list whose elements all pass leaves it as it is.
proof fn lemma_filter_all_pass<A>(s: Seq<A>, p: spec_fn(A) -> bool)
    requires
        forall|i: int| 0 <= i < s.len() ==> p(#[trigger] s[i]),
    ensures
        s.filter(p) == s,
    decreases s.len(),
{
    reveal(Seq::filter);
    if s.len() > 0 {
        let d = s.drop_last();
        assert forall|i: int| 0 <= i < d.len() implies p(#[trigger] d[i]) by {
            assert(d[i] == s[i]);
        }
        lemma_filter_all_pass(d, p);
        assert(p(s[s.len() - 1]));
        assert(d.push(s.last()) =~= s);
    }
}

/// Removing keeps the names of the namespaces distinct.
pub proof fn law_namespace_remove_keeps_names_distinct(old: Seq<Namespace>, v: Namespace)
    requires
        namespace_names_distinct(old),
    ensures
        namespace_names_distinct(namespace_removed(old, v)),
{
    if v.name@ != default_namespace_name() {
        let rel = |a: Namespace, b: Namespace| a.name@ == b.name@;
        let pred = |x: Namespace| x.name@ != v.name@;
        assert forall|i: int, j: int|
            0 <= i < old.len() && 0 <= j < old.len() && i != j implies !rel(#[trigger] old[i], #[trigger] old[j]) by {}
        lemma_filter_keeps_apart(old, pred, rel);
        let n = old.filter(pred);
        assert forall|i: int, j: int|
            0 <= i < n.len() && 0 <= j < n.len() && i != j implies (#[trigger] n[i]).name@ != (#[trigger] n[j]).name@ by {
            assert(!rel(n[i], n[j]));
        }
    }
}

/// Removing a namespace that was just appended under a fresh name (other
/// than `default`) undoes the append.
pub proof fn law_namespace_remove_undoes_append(old: Seq<Namespace>, v: Namespace)
    requires
        !namespace_named(old, v.name@),
        v.name@ != default_namespace_name(),
    ensures
        namespace_removed(namespace_appended(old, v), v) == old,
{
    reveal(Seq::filter);
    let pred = |x: Namespace| x.name@ != v.name@;
    let n = old.push(v);
    assert(n.drop_last() =~= old);
    assert forall|i: int| 0 <= i < old.len() implies pred(#[trigger] old[i]) by {
        if !pred(old[i]) {
            assert(old[i].name@ == v.name@);
        }
    }
    lemma_filter_all_pass(old, pred);
}

/// After removing a namespace other than `default`, no namespace of that
/// name is kept.
pub proof fn law_namespace_remove_drops_name(old: Seq<Namespace>, v: Namespace)
    requires
        v.name@ != default_namespace_name(),
    ensures
        !namespace_named(namespace_removed(old, v), v.name@),
{
    let pred = |x: Namespace| x.name@ != v.name@;
    let n = namespaces_without(old, v.name@);
    if namespace_named(n, v.name@) {
        let i = choose|i: int| 0 <= i < n.len() && (#[trigger] n[i]).name@ == v.name@;
        old.lemma_filter_pred(pred, i);
    }
}

/// The `default` namespace survives every removal.
pub proof fn law_default_namespace_survives_remove(old: Seq<Namespace>, v: Namespace)
    requires
        namespace_named(old, default_namespace_name()),
    ensures
        namespace_named(namespace_removed(old, v), default_namespace_name()),
{
    if v.name@ != default_namespace_name() {
        let pred = |x: Namespace| x.name@ != v.name@;
        let i = choose|i: int|
            0 <= i < old.len() && (#[trigger] old[i]).name@ == default_namespace_name();
        old.lemma_filter_contains(pred, i);
        let n = namespaces_without(old, v.name@);
        let j = choose|j: int| 0 <= j < n.len() && n[j] == old[i];
        assert(n[j].name@ == default_namespace_name());
    }
}

/// No two registries stand for the same group.
pub open spec fn registry_groups_distinct(vals: Seq<RegistryView>) -> bool {
    forall|i: int, j: int|
        0 <= i < vals.len() && 0 <= j < vals.len() && i != j ==> !same_registry(
            #[trigger] vals[i],
            #[trigger] vals[j],
        )
}

/// Appending a registry keeps the groups distinct.
pub proof fn law_registry_append_keeps_groups_distinct(
    old: Seq<RegistryView>,
    new: Seq<RegistryView>,
    v: RegistryView,
)
    requires
        registry_groups_distinct(old),
        registry_appended(old, new, v),
    ensures
        registry_groups_distinct(new),
{
    if no_registry_match(old, v) {
        assert forall|i: int, j: int|
            0 <= i < new.len() && 0 <= j < new.len() && i != j implies !same_registry(
            #[trigger] new[i],
            #[trigger] new[j],
        ) by {
            if i < old.len() && j < old.len() {
                assert(new[i] == old[i] && new[j] == old[j]);
            } else if i < old.len() {
                assert(new[i] == old[i] && new[j] == v);
                assert(!same_registry(old[i], v));
            } else {
                assert(new[j] == old[j] && new[i] == v);
                assert(!same_registry(old[j], v));
            }
        }
    } else {
        let k = choose|k: int|
            #![trigger old[k]]
            {
                &&& is_first_registry_match(old, v, k)
                &&& crate::registry::only_registry_changed(old, new, k)
                &&& crate::registry::group_services_appended(old[k].services, new[k].services, v.services)
            };
        assert forall|i: int, j: int|
            0 <= i < new.len() && 0 <= j < new.len() && i != j implies !same_registry(
            #[trigger] new[i],
            #[trigger] new[j],
        ) by {
            assert(!same_registry(old[i], old[j]));
        }
    }
}

/// Removing a registry keeps the groups distinct.
pub proof fn law_registry_remove_keeps_groups_distinct(
    old: Seq<RegistryView>,
    new: Seq<RegistryView>,
    v: RegistryView,
)
    requires
        registry_groups_distinct(old),
        registry_removed(old, new, v),
    ensures
        registry_groups_distinct(new),
{
    if !no_registry_match(old, v) {
        let k = choose|k: int|
            #![trigger old[k]]
            {
                &&& is_first_registry_match(old, v, k)
                &&& crate::registry::only_registry_changed(old, new, k)
                &&& new[k].services == services_without(old[k].services, v.services)
            };
        assert forall|i: int, j: int|
            0 <= i < new.len() && 0 <= j < new.len() && i != j implies !same_registry(
            #[trigger] new[i],
            #[trigger] new[j],
        ) by {
            assert(!same_registry(old[i], old[j]));
        }
    }
}

/// No two services of the list are the same instance.
pub open spec fn services_distinct(s: Seq<crate::service::Service>) -> bool {
    forall|i: int, j: int|
        0 <= i < s.len() && 0 <= j < s.len() && i != j ==> !same_service(#[trigger] s[i], #[trigger] s[j])
}

/// No registry lists the same instance twice.
pub open spec fn registry_services_distinct(vals: Seq<RegistryView>) -> bool {
    forall|i: int| 0 <= i < vals.len() ==> services_distinct(#[trigger] vals[i].services)
}

/// Appending keeps every registry free of repeated instances, when the
/// appended registry is.
pub proof fn law_registry_append_keeps_services_distinct(
    old: Seq<RegistryView>,
    new: Seq<RegistryView>,
    v: RegistryView,
)
    requires
        registry_services_distinct(old),
        services_distinct(v.services),
        registry_appended(old, new, v),
    ensures
        registry_services_distinct(new),
{
    if no_registry_match(old, v) {
        assert forall|i: int| 0 <= i < new.len() implies services_distinct(#[trigger] new[i].services) by {
            if i < old.len() {
                assert(new[i] == old[i]);
            } else {
                assert(new[i] == v);
            }
        }
    } else {
        let k = choose|k: int|
            #![trigger old[k]]
            {
                &&& is_first_registry_match(old, v, k)
                &&& crate::registry::only_registry_changed(old, new, k)
                &&& crate::registry::group_services_appended(old[k].services, new[k].services, v.services)
            };
        let os = old[k].services;
        let ns = new[k].services;
        assert(services_distinct(os));
        if service_in(os, v.services[0]) {
            let now = choose|now: i64| now >= 0 && crate::registry::services_refreshed(os, ns, v.services, now);
            assert forall|a: int, b: int|
                0 <= a < ns.len() && 0 <= b < ns.len() && a != b implies !same_service(#[trigger] ns[a], #[trigger] ns[b]) by {
                assert(ns[a].host == os[a].host && ns[a].port == os[a].port);
                assert(ns[b].host == os[b].host && ns[b].port == os[b].port);
                assert(!same_service(os[a], os[b]));
            }
        } else {
            assert forall|a: int, b: int|
                0 <= a < ns.len() && 0 <= b < ns.len() && a != b implies !same_service(#[trigger] ns[a], #[trigger] ns[b]) by {
                if a < os.len() && b < os.len() {
                    assert(ns[a] == os[a] && ns[b] == os[b]);
                } else if a < os.len() {
                    assert(ns[a] == os[a] && ns[b] == v.services[0]);
                    if same_service(os[a], v.services[0]) {
                        assert(service_in(os, v.services[0]));
                    }
                } else {
                    assert(ns[b] == os[b] && ns[a] == v.services[0]);
                    if same_service(v.services[0], os[b]) {
                        assert(same_service(os[b], v.services[0]));
                        assert(service_in(os, v.services[0]));
                    }
                }
            }
        }
        assert forall|i: int| 0 <= i < new.len() implies services_distinct(#[trigger] new[i].services) by {
            if i != k {
                assert(new[i] == old[i]);
            }
        }
    }
}

/// Removing keeps every registry free of repeated instances.
pub proof fn law_registry_remove_keeps_services_distinct(
    old: Seq<RegistryView>,
    new: Seq<RegistryView>,
    v: RegistryView,
)
    requires
        registry_services_distinct(old),
        registry_removed(old, new, v),
    ensures
        registry_services_distinct(new),
{
    if !no_registry_match(old, v) {
        let k = choose|k: int|
            #![trigger old[k]]
            {
                &&& is_first_registry_match(old, v, k)
                &&& crate::registry::only_registry_changed(old, new, k)
                &&& new[k].services == services_without(old[k].services, v.services)
            };
        let os = old[k].services;
        assert(services_distinct(os));
        let rel = |a: crate::service::Service, b: crate::service::Service| same_service(a, b);
        let pred = |y: crate::service::Service| !service_in(v.services, y);
        assert forall|i: int, j: int|
            0 <= i < os.len() && 0 <= j < os.len() && i != j implies !rel(#[trigger] os[i], #[trigger] os[j]) by {}
        lemma_filter_keeps_apart(os, pred, rel);
        let ns = new[k].services;
        assert forall|a: int, b: int|
            0 <= a < ns.len() && 0 <= b < ns.len() && a != b implies !same_service(#[trigger] ns[a], #[trigger] ns[b]) by {
            assert(!rel(ns[a], ns[b]));
        }
        assert forall|i: int| 0 <= i < new.len() implies services_distinct(#[trigger] new[i].services) by {
            if i != k {
                assert(new[i] == old[i]);
            }
        }
    }
}

/// The probe by which `services_of` finds a group.
spec fn group_probe(ns: Seq<char>, name: Seq<char>) -> RegistryView {
    RegistryView { id: Seq::empty(), namespace: ns, name, services: Seq::empty() }
}

/// The services of the group at its first registry `i`.
proof fn lemma_services_of_at(vals: Seq<RegistryView>, ns: Seq<char>, name: Seq<char>, i: int)
    requires
        is_first_registry_match(vals, group_probe(ns, name), i),
    ensures
        services_of(vals, ns, name) == vals[i].services,
{
    let probe = group_probe(ns, name);
    assert(!no_registry_match(vals, probe));
    let k = choose|k: int| is_first_registry_match(vals, probe, k);
    assert(k == i) by {
        if k < i {
            assert(!same_registry(vals[k], probe));
        } else if i < k {
            assert(!same_registry(vals[i], probe));
        }
    }
}

/// After a registration is appended, the group lists an instance with the
/// host and port of its first service.
pub proof fn law_appended_service_is_registered(old: Seq<RegistryView>, new: Seq<RegistryView>, v: RegistryView)
    requires
        v.services.len() > 0,
        registry_appended(old, new, v),
    ensures
        service_in(services_of(new, v.namespace, v.name), v.services[0]),
{
    let probe = group_probe(v.namespace, v.name);
    assert forall|j: int| 0 <= j < old.len() implies same_registry(#[trigger] old[j], probe) == same_registry(old[j], v) by {}
    if no_registry_match(old, v) {
        let i = old.len() as int;
        assert(new[i] == v);
        assert forall|j: int| 0 <= j < i implies !same_registry(#[trigger] new[j], probe) by {
            assert(new[j] == old[j]);
        }
        lemma_services_of_at(new, v.namespace, v.name, i);
        assert(same_service(new[i].services[0], v.services[0]));
    } else {
        let i = choose|i: int|
            #![trigger old[i]]
            {
                &&& is_first_registry_match(old, v, i)
                &&& crate::registry::only_registry_changed(old, new, i)
                &&& crate::registry::group_services_appended(old[i].services, new[i].services, v.services)
            };
        assert forall|j: int| 0 <= j < i implies !same_registry(#[trigger] new[j], probe) by {
            assert(new[j] == old[j]);
            assert(!same_registry(old[j], v));
        }
        assert(same_registry(new[i], probe));
        lemma_services_of_at(new, v.namespace, v.name, i);
        if service_in(old[i].services, v.services[0]) {
            let now = choose|now: i64| now >= 0 && crate::registry::services_refreshed(old[i].services, new[i].services, v.services, now);
            let k = choose|k: int|
                0 <= k < old[i].services.len() && same_service(#[trigger] old[i].services[k], v.services[0]);
            assert(new[i].services[k].host == old[i].services[k].host);
            assert(same_service(new[i].services[k], v.services[0]));
        } else {
            let k = old[i].services.len() as int;
            assert(new[i].services[k] == v.services[0]);
            assert(same_service(new[i].services[k], v.services[0]));
        }
    }
}

/// After a registration is removed, its group lists no instance that the
/// registration named.
pub proof fn law_removed_services_are_gone(
    old: Seq<RegistryView>,
    new: Seq<RegistryView>,
    v: RegistryView,
    x: crate::service::Service,
)
    requires
        registry_removed(old, new, v),
        service_in(v.services, x),
    ensures
        !service_in(services_of(new, v.namespace, v.name), x),
{
    let probe = group_probe(v.namespace, v.name);
    assert forall|j: int| 0 <= j < old.len() implies same_registry(#[trigger] old[j], probe) == same_registry(old[j], v) by {}
    if no_registry_match(old, v) {
        assert(no_registry_match(new, probe));
    } else {
        let i = choose|i: int|
            #![trigger old[i]]
            {
                &&& is_first_registry_match(old, v, i)
                &&& crate::registry::only_registry_changed(old, new, i)
                &&& new[i].services == services_without(old[i].services, v.services)
            };
        assert forall|j: int| 0 <= j < i implies !same_registry(#[trigger] new[j], probe) by {
            assert(new[j] == old[j]);
            assert(!same_registry(old[j], v));
        }
        assert(same_registry(new[i], probe));
        lemma_services_of_at(new, v.namespace, v.name, i);
        let kept = services_without(old[i].services, v.services);
        if service_in(kept, x) {
            let k = choose|k: int| 0 <= k < kept.len() && same_service(#[trigger] kept[k], x);
            old[i].services.lemma_filter_pred(|y: crate::service::Service| !service_in(v.services, y), k);
            let m = choose|m: int| 0 <= m < v.services.len() && same_service(#[trigger] v.services[m], x);
            assert(same_service(v.services[m], kept[k]));
        }
    }
}

/// A configuration read after an append gives back the appended value.
pub proof fn law_configuration_read_after_append(
    old: Seq<ConfiguratorView>,
    new: Seq<ConfiguratorView>,
    v: ConfiguratorView,
    name: Seq<char>,
)
    requires
        configurator_appended(old, new, v),
        v.configuration.contains_key(name),
    ensures
        configuration_value(new, v.namespace, name) == Some(v.configuration[name]),
{
    if no_configurator_for(old, v.namespace) {
        let i = old.len() as int;
        assert(new[i] == v);
        assert(is_first_configurator_for(new, v.namespace, i));
        lemma_first_configurator_unique(new, v.namespace, i);
    } else {
        let i = choose|i: int|
            #![trigger old[i]]
            is_first_configurator_for(old, v.namespace, i) && crate::configuration::only_configurator_changed(
                old,
                new,
                i,
                old[i].configuration.union_prefer_right(v.configuration),
            );
        assert forall|j: int| 0 <= j < i implies (#[trigger] new[j]).namespace != v.namespace by {
            assert(new[j] == old[j]);
        }
        assert(is_first_configurator_for(new, v.namespace, i));
        lemma_first_configurator_unique(new, v.namespace, i);
    }
}

/// After a configuration is removed, reading it gives nothing.
pub proof fn law_configuration_gone_after_remove(
    old: Seq<ConfiguratorView>,
    new: Seq<ConfiguratorView>,
    v: ConfiguratorView,
    name: Seq<char>,
)
    requires
        configurator_removed(old, new, v),
        v.configuration.contains_key(name),
    ensures
        configuration_value(new, v.namespace, name) is None,
{
    if !no_configurator_for(old, v.namespace) {
        let i = choose|i: int|
            #![trigger old[i]]
            is_first_configurator_for(old, v.namespace, i) && crate::configuration::only_configurator_changed(
                old,
                new,
                i,
                old[i].configuration.remove_keys(v.configuration.dom()),
            );
        assert forall|j: int| 0 <= j < i implies (#[trigger] new[j]).namespace != v.namespace by {
            assert(new[j] == old[j]);
        }
        assert(is_first_configurator_for(new, v.namespace, i));
        lemma_first_configurator_unique(new, v.namespace, i);
    }
}

/// A service registered through the data layer is listed under its name.
pub proof fn law_registered_instance_visible(
    old: Seq<RegistryView>,
    new: Seq<RegistryView>,
    reg: crate::regs::ServiceReg,
)
    requires
        service_reg_appended(old, new, reg),
    ensures
        service_in(services_of(new, reg.namespace@, reg.name@), reg.service),
{
    let v = choose|v: RegistryView|
        #![trigger registry_appended(old, new, v)]
        crate::data::registry_of_reg(v, reg) && registry_appended(old, new, v);
    law_appended_service_is_registered(old, new, v);
}

/// A service removed through the data layer (a client leaving, or a
/// request to go offline) is no longer listed under its name.
pub proof fn law_removed_instance_gone(
    old: Seq<RegistryView>,
    new: Seq<RegistryView>,
    reg: crate::regs::ServiceReg,
)
    requires
        service_reg_removed(old, new, reg),
    ensures
        !service_in(services_of(new, reg.namespace@, reg.name@), reg.service),
{
    let v = choose|v: RegistryView|
        #![trigger registry_removed(old, new, v)]
        crate::data::registry_of_reg(v, reg) && registry_removed(old, new, v);
    assert(same_service(v.services[0], reg.service));
    law_removed_services_are_gone(old, new, v, reg.service);
}

/// A configuration value set through the data layer is read back.
pub proof fn law_configuration_reg_read_after_write(
    old: Seq<ConfiguratorView>,
    new: Seq<ConfiguratorView>,
    reg: crate::regs::ConfigurationReg,
)
    requires
        configuration_reg_appended(old, new, reg),
    ensures
        configuration_value(new, reg.namespace@, reg.name@) == Some(reg.config),
{
    let v = choose|v: ConfiguratorView|
        #![trigger configurator_appended(old, new, v)]
        crate::data::configurator_of_reg(v, reg) && configurator_appended(old, new, v);
    law_configuration_read_after_append(old, new, v, reg.name@);
}

/// The subscription that a configuration request stands for is keyed as
/// the request's own subscription key.
pub proof fn law_subscription_key_of_configuration(config: crate::regs::ConfigurationReg)
    ensures
        ({
            let s = <crate::frame::Subscribe as vstd::std_specs::convert::FromSpec<
                &crate::regs::ConfigurationReg,
            >>::from_spec(&config);
            subscribe_key(s.namespace@, s.name@) == subscribe_key(config.namespace@, config.name@)
        }),
{
}

/// The subscribers of `key` after each handle of `senders`, in order,
/// subscribed to it.
pub open spec fn subscribers_added<M>(
    m: Map<Seq<char>, Seq<UnboundedSender<M>>>,
    key: Seq<char>,
    senders: Seq<UnboundedSender<M>>,
) -> Map<Seq<char>, Seq<UnboundedSender<M>>>
    decreases senders.len(),
{
    if senders.len() == 0 {
        m
    } else {
        subscriber_added(subscribers_added(m, key, senders.drop_last()), key, senders.last())
    }
}

/// Subscribing handles one after another to a value that had no
/// subscriber: after the first `t` of them (`t` at least one) the value's
/// subscribers are exactly those `t` handles in order, and every other
/// value keeps its subscribers. So only the first subscription finds the
/// value without subscribers, and it alone is sent on to the server.
pub proof fn law_repeated_subscriptions<M>(
    m: Map<Seq<char>, Seq<UnboundedSender<M>>>,
    key: Seq<char>,
    senders: Seq<UnboundedSender<M>>,
    t: int,
)
    requires
        !m.contains_key(key),
        1 <= t <= senders.len(),
    ensures
        subscribers_added(m, key, senders.take(t)) == m.insert(key, senders.take(t)),
        forall|u: int| 1 <= u <= t ==> #[trigger] subscribers_added(m, key, senders.take(u)).contains_key(key),
    decreases t,
{
    let pre = senders.take(t);
    assert(pre.drop_last() =~= senders.take(t - 1));
    assert(subscribers_added(m, key, pre) == subscriber_added(
        subscribers_added(m, key, senders.take(t - 1)),
        key,
        pre.last(),
    ));
    if t == 1 {
        assert(senders.take(0) =~= Seq::<UnboundedSender<M>>::empty());
        assert(subscribers_added(m, key, senders.take(0)) == m);
        assert(Seq::<UnboundedSender<M>>::empty().push(pre.last()) =~= pre);
    } else {
        law_repeated_subscriptions(m, key, senders, t - 1);
        assert(senders.take(t - 1).push(pre.last()) =~= pre);
        assert(m.insert(key, senders.take(t - 1)).insert(key, pre) =~= m.insert(key, pre));
    }
    assert(subscribers_added(m, key, pre).contains_key(key));
}

/// A client that subscribed to a configuration value is told when the
/// value is next set: among the messages handed out while it is set, one
/// goes to the client's handle and carries the new value.
pub proof fn law_subscriber_told_of_change<T: Storage>(
    d0: LuoshuSledData<T>,
    d1: LuoshuSledData<T>,
    d2: LuoshuSledData<T>,
    subscribe: Subscribe,
    sender: UnboundedSender<Frame>,
    r1: Result<(), DataError>,
    reg: ConfigurationReg,
    client: Option<String>,
    r2: Result<PendingSave, DataError>,
)
    requires
        server_subscribed(d0, d1, subscribe, sender, r1),
        server_appended(d1, d2, LuoshuDataEnum::Configuration(reg), client, r2),
        reg.namespace@ == subscribe.namespace@,
        reg.name@ == subscribe.name@,
    ensures
        exists|i: int|
            d1.config_subscribers.deliveries().len() <= i < d2.config_subscribers.deliveries().len()
                && (#[trigger] d2.config_subscribers.deliveries()[i]).to == sender
                && d2.config_subscribers.deliveries()[i].message == (Frame {
                    data: ActionEnum::Sync(LuoshuDataEnum::Configuration(reg)),
                }),
{
    let key = subscribe_key(subscribe.namespace@, subscribe.name@);
    let list = subscribers_of(d1.config_subscribers@, key);
    let n = d1.config_subscribers.deliveries().len();
    let sent = d2.config_subscribers.deliveries().subrange(n as int, d2.config_subscribers.deliveries().len() as int);
    assert(list == subscribers_of(d0.config_subscribers@, key).push(sender));
    let t = list.len() - 1;
    assert(sent[t].to == list[t]);
    assert(sent[t] == d2.config_subscribers.deliveries()[n + t]);
}

/// The (namespace, name) keys of the registries of `vals`.
pub open spec fn registry_keys(vals: Seq<RegistryView>) -> Set<(Seq<char>, Seq<char>)> {
    Set::new(
        |k: (Seq<char>, Seq<char>)|
            exists|i: int| 0 <= i < vals.len() && (#[trigger] vals[i]).namespace == k.0 && vals[i].name == k.1,
    )
}

/// Appending a registry adds its group's key to the keys of the store and
/// no other: the keys afterwards are the keys before plus the key of `v`.
pub proof fn law_registry_append_adds_key(old: Seq<RegistryView>, new: Seq<RegistryView>, v: RegistryView)
    requires
        registry_appended(old, new, v),
    ensures
        registry_keys(new) == registry_keys(old).insert((v.namespace, v.name)),
{
    let vk = (v.namespace, v.name);
    if no_registry_match(old, v) {
        assert forall|k: (Seq<char>, Seq<char>)| #[trigger] registry_keys(new).contains(k) implies registry_keys(old).insert(vk).contains(k) by {
            let i = choose|i: int| 0 <= i < new.len() && (#[trigger] new[i]).namespace == k.0 && new[i].name == k.1;
            if i < old.len() {
                assert(new[i] == old[i]);
            }
        }
        assert forall|k: (Seq<char>, Seq<char>)| #[trigger] registry_keys(old).insert(vk).contains(k) implies registry_keys(new).contains(k) by {
            if k == vk {
                assert(new[old.len() as int] == v);
            } else {
                let i = choose|i: int| 0 <= i < old.len() && (#[trigger] old[i]).namespace == k.0 && old[i].name == k.1;
                assert(new[i] == old[i]);
            }
        }
    } else {
        let i0 = choose|i: int|
            #![trigger old[i]]
            {
                &&& is_first_registry_match(old, v, i)
                &&& crate::registry::only_registry_changed(old, new, i)
                &&& crate::registry::group_services_appended(old[i].services, new[i].services, v.services)
            };
        assert forall|k: (Seq<char>, Seq<char>)| #[trigger] registry_keys(new).contains(k) implies registry_keys(old).insert(vk).contains(k) by {
            let i = choose|i: int| 0 <= i < new.len() && (#[trigger] new[i]).namespace == k.0 && new[i].name == k.1;
            assert(old[i].namespace == k.0 && old[i].name == k.1);
        }
        assert forall|k: (Seq<char>, Seq<char>)| #[trigger] registry_keys(old).insert(vk).contains(k) implies registry_keys(new).contains(k) by {
            if k == vk {
                assert(new[i0].namespace == k.0 && new[i0].name == k.1);
            } else {
                let i = choose|i: int| 0 <= i < old.len() && (#[trigger] old[i]).namespace == k.0 && old[i].name == k.1;
                assert(new[i].namespace == k.0 && new[i].name == k.1);
            }
        }
    }
    assert(registry_keys(new) =~= registry_keys(old).insert(vk));
}

/// Filtering out services that nothing in the list is the same instance
/// as leaves the list as it was.
proof fn lemma_services_without_none(s: Seq<Service>, removed: Seq<Service>)
    requires
        forall|k: int| 0 <= k < s.len() ==> !service_in(removed, #[trigger] s[k]),
    ensures
        services_without(s, removed) == s,
    decreases s.len(),
{
    reveal(Seq::filter);
    if s.len() > 0 {
        let rest = s.drop_last();
        assert forall|k: int| 0 <= k < rest.len() implies !service_in(removed, #[trigger] rest[k]) by {
            assert(rest[k] == s[k]);
        }
        lemma_services_without_none(rest, removed);
        assert(!service_in(removed, s[s.len() - 1]));
        assert(rest.push(s.last()) =~= s);
    }
}

/// Two first registries of one group are the same one.
proof fn lemma_first_registry_match_unique(vals: Seq<RegistryView>, v: RegistryView, i: int, j: int)
    requires
        is_first_registry_match(vals, v, i),
        is_first_registry_match(vals, v, j),
    ensures
        i == j,
{
    if i < j {
        assert(!same_registry(vals[i], v));
    } else if j < i {
        assert(!same_registry(vals[j], v));
    }
}

/// Registering one new instance with a group that already exists and then
/// removing that registration gives the store back as it was.
pub proof fn law_registry_remove_undoes_append(
    s: Seq<RegistryView>,
    m: Seq<RegistryView>,
    n: Seq<RegistryView>,
    r: RegistryView,
    i: int,
)
    requires
        is_first_registry_match(s, r, i),
        r.services.len() == 1,
        !service_in(s[i].services, r.services[0]),
        registry_appended(s, m, r),
        registry_removed(m, n, r),
    ensures
        n == s,
{
    let x = r.services[0];
    let a = choose|a: int|
        #![trigger s[a]]
        {
            &&& is_first_registry_match(s, r, a)
            &&& crate::registry::only_registry_changed(s, m, a)
            &&& crate::registry::group_services_appended(s[a].services, m[a].services, r.services)
        };
    lemma_first_registry_match_unique(s, r, a, i);
    assert(m[i].services == s[i].services.push(x));
    assert(is_first_registry_match(m, r, i)) by {
        assert forall|j: int| 0 <= j < i implies !same_registry(#[trigger] m[j], r) by {
            assert(m[j] == s[j]);
        }
    }
    let b = choose|b: int|
        #![trigger m[b]]
        {
            &&& is_first_registry_match(m, r, b)
            &&& crate::registry::only_registry_changed(m, n, b)
            &&& n[b].services == services_without(m[b].services, r.services)
        };
    lemma_first_registry_match_unique(m, r, b, i);
    let old_s = s[i].services;
    assert forall|k: int| 0 <= k < old_s.len() implies !service_in(r.services, #[trigger] old_s[k]) by {
        if service_in(r.services, old_s[k]) {
            let q = choose|q: int| 0 <= q < r.services.len() && same_service(#[trigger] r.services[q], old_s[k]);
            assert(same_service(old_s[k], x));
        }
    }
    lemma_services_without_none(old_s, r.services);
    reveal(Seq::filter);
    assert(old_s.push(x).drop_last() =~= old_s);
    assert(service_in(r.services, x)) by {
        assert(same_service(r.services[0], x));
    }
    assert(services_without(old_s.push(x), r.services) == services_without(old_s, r.services));
    assert(n[i].services == old_s);
    assert(n[i] == s[i]);
    assert forall|j: int| 0 <= j < s.len() implies #[trigger] n[j] == s[j] by {
        if j != i {
            assert(n[j] == m[j]);
            assert(m[j] == s[j]);
        }
    }
    assert(n =~= s);
}

/// Setting values under names that a known namespace does not hold yet,
/// and then removing those names, gives the store back as it was.
pub proof fn law_configuration_remove_undoes_append(
    s: Seq<ConfiguratorView>,
    m: Seq<ConfiguratorView>,
    n: Seq<ConfiguratorView>,
    v: ConfiguratorView,
    i: int,
)
    requires
        is_first_configurator_for(s, v.namespace, i),
        v.configuration.dom().disjoint(s[i].configuration.dom()),
        configurator_appended(s, m, v),
        configurator_removed(m, n, v),
    ensures
        n == s,
{
    let a = choose|a: int|
        #![trigger s[a]]
        is_first_configurator_for(s, v.namespace, a) && crate::configuration::only_configurator_changed(
            s,
            m,
            a,
            s[a].configuration.union_prefer_right(v.configuration),
        );
    lemma_first_configurator_unique(s, v.namespace, a);
    lemma_first_configurator_unique(s, v.namespace, i);
    assert(a == i) by {
        if a < i {
            assert(s[a].namespace != v.namespace);
        } else if i < a {
            assert(s[i].namespace != v.namespace);
        }
    }
    assert(is_first_configurator_for(m, v.namespace, i)) by {
        assert forall|j: int| 0 <= j < i implies (#[trigger] m[j]).namespace != v.namespace by {
            assert(m[j] == s[j]);
        }
    }
    let b = choose|b: int|
        #![trigger m[b]]
        is_first_configurator_for(m, v.namespace, b) && crate::configuration::only_configurator_changed(
            m,
            n,
            b,
            m[b].configuration.remove_keys(v.configuration.dom()),
        );
    assert(b == i) by {
        if b < i {
            assert(m[b].namespace != v.namespace);
        } else if i < b {
            assert(m[i].namespace != v.namespace);
        }
    }
    let c = s[i].configuration;
    assert(c.union_prefer_right(v.configuration).remove_keys(v.configuration.dom()) =~= c);
    assert(n[i] == s[i]);
    assert forall|j: int| 0 <= j < s.len() implies #[trigger] n[j] == s[j] by {
        if j != i {
            assert(n[j] == m[j]);
            assert(m[j] == s[j]);
        }
    }
    assert(n =~= s);
}

/// No two configurators of `vals` are for the same namespace.
pub open spec fn configurator_namespaces_distinct(vals: Seq<ConfiguratorView>) -> bool {
    forall|i: int, j: int|
        0 <= i < vals.len() && 0 <= j < vals.len() && i != j ==> (#[trigger] vals[i]).namespace != (#[trigger] vals[j]).namespace
}

/// The namespaces that the configurators of `vals` are for.
pub open spec fn configurator_namespaces(vals: Seq<ConfiguratorView>) -> Set<Seq<char>> {
    Set::new(|ns: Seq<char>| exists|i: int| 0 <= i < vals.len() && (#[trigger] vals[i]).namespace == ns)
}

/// Appending a configurator keeps the namespaces of the store distinct,
/// and the namespaces afterwards are those before plus that of `v`.
pub proof fn law_configurator_append_keeps_namespaces_distinct(
    old: Seq<ConfiguratorView>,
    new: Seq<ConfiguratorView>,
    v: ConfiguratorView,
)
    requires
        configurator_namespaces_distinct(old),
        configurator_appended(old, new, v),
    ensures
        configurator_namespaces_distinct(new),
        configurator_namespaces(new) == configurator_namespaces(old).insert(v.namespace),
{
    if no_configurator_for(old, v.namespace) {
        assert forall|i: int, j: int|
            0 <= i < new.len() && 0 <= j < new.len() && i != j implies (#[trigger] new[i]).namespace != (#[trigger] new[j]).namespace by {
            if i < old.len() && j < old.len() {
                assert(new[i] == old[i] && new[j] == old[j]);
            } else if i < old.len() {
                assert(new[i] == old[i] && new[j] == v);
            } else {
                assert(new[j] == old[j] && new[i] == v);
            }
        }
        assert forall|ns: Seq<char>| #[trigger] configurator_namespaces(new).contains(ns) implies configurator_namespaces(old).insert(v.namespace).contains(ns) by {
            let i = choose|i: int| 0 <= i < new.len() && (#[trigger] new[i]).namespace == ns;
            if i < old.len() {
                assert(new[i] == old[i]);
            }
        }
        assert forall|ns: Seq<char>| #[trigger] configurator_namespaces(old).insert(v.namespace).contains(ns) implies configurator_namespaces(new).contains(ns) by {
            if ns == v.namespace {
                assert(new[old.len() as int] == v);
            } else {
                let i = choose|i: int| 0 <= i < old.len() && (#[trigger] old[i]).namespace == ns;
                assert(new[i] == old[i]);
            }
        }
    } else {
        let a = choose|a: int|
            #![trigger old[a]]
            is_first_configurator_for(old, v.namespace, a) && crate::configuration::only_configurator_changed(
                old,
                new,
                a,
                old[a].configuration.union_prefer_right(v.configuration),
            );
        assert forall|i: int| 0 <= i < new.len() implies (#[trigger] new[i]).namespace == old[i].namespace by {
            if i != a {
                assert(new[i] == old[i]);
            }
        }
        assert forall|i: int, j: int|
            0 <= i < new.len() && 0 <= j < new.len() && i != j implies (#[trigger] new[i]).namespace != (#[trigger] new[j]).namespace by {
            assert(old[i].namespace != old[j].namespace);
        }
        assert forall|ns: Seq<char>| #[trigger] configurator_namespaces(new).contains(ns) implies configurator_namespaces(old).insert(v.namespace).contains(ns) by {
            let i = choose|i: int| 0 <= i < new.len() && (#[trigger] new[i]).namespace == ns;
            assert(old[i].namespace == ns);
        }
        assert forall|ns: Seq<char>| #[trigger] configurator_namespaces(old).insert(v.namespace).contains(ns) implies configurator_namespaces(new).contains(ns) by {
            if ns == v.namespace {
                assert(new[a].namespace == ns);
            } else {
                let i = choose|i: int| 0 <= i < old.len() && (#[trigger] old[i]).namespace == ns;
                assert(new[i].namespace == ns);
            }
        }
    }
    assert(configurator_namespaces(new) =~= configurator_namespaces(old).insert(v.namespace));
}

/// Services on different hosts, or on different ports, are different
/// instances.
pub proof fn law_instances_differ_by_host_or_port(a: Service, b: Service)
    requires
        a.host@ != b.host@ || a.port != b.port,
    ensures
        !same_service(a, b),
{
}

/// Registering an instance whose host or port differs from every instance
/// of its group adds it to the group, after those already there; for a
/// group not yet known the group is that one instance.
pub proof fn law_new_instance_joins_group(old: Seq<RegistryView>, new: Seq<RegistryView>, v: RegistryView)
    requires
        v.services.len() == 1,
        registry_appended(old, new, v),
        forall|k: int|
            0 <= k < services_of(old, v.namespace, v.name).len() ==> (#[trigger] services_of(
                old,
                v.namespace,
                v.name,
            )[k]).host@ != v.services[0].host@ || services_of(old, v.namespace, v.name)[k].port
                != v.services[0].port,
    ensures
        services_of(new, v.namespace, v.name) == services_of(old, v.namespace, v.name).push(v.services[0]),
{
    let probe = group_probe(v.namespace, v.name);
    assert forall|j: int| 0 <= j < old.len() implies same_registry(#[trigger] old[j], probe) == same_registry(old[j], v) by {}
    if no_registry_match(old, v) {
        let i = old.len() as int;
        assert(new[i] == v);
        assert forall|j: int| 0 <= j < i implies !same_registry(#[trigger] new[j], probe) by {
            assert(new[j] == old[j]);
        }
        lemma_services_of_at(new, v.namespace, v.name, i);
        assert(no_registry_match(old, probe));
        assert(services_of(old, v.namespace, v.name) == Seq::<Service>::empty());
        assert(Seq::<Service>::empty().push(v.services[0]) =~= v.services);
    } else {
        let i = choose|i: int|
            #![trigger old[i]]
            {
                &&& is_first_registry_match(old, v, i)
                &&& crate::registry::only_registry_changed(old, new, i)
                &&& crate::registry::group_services_appended(old[i].services, new[i].services, v.services)
            };
        assert forall|j: int| 0 <= j < i implies !same_registry(#[trigger] new[j], probe) by {
            assert(new[j] == old[j]);
            assert(!same_registry(old[j], v));
        }
        assert(same_registry(new[i], probe));
        lemma_services_of_at(new, v.namespace, v.name, i);
        lemma_services_of_at(old, v.namespace, v.name, i);
        let os = old[i].services;
        assert(!service_in(os, v.services[0])) by {
            if service_in(os, v.services[0]) {
                let k = choose|k: int| 0 <= k < os.len() && same_service(#[trigger] os[k], v.services[0]);
                assert(os[k] == services_of(old, v.namespace, v.name)[k]);
            }
        }
    }
}

/// The handles of the deliveries that their channel accepted, in order:
/// the accepted deliveries, each taken by its handle.
pub open spec fn accepted_in_order<M>(ds: Seq<Delivery<M>>) -> Seq<UnboundedSender<M>> {
    ds.filter(|d: Delivery<M>| d.accepted).map_values(|d: Delivery<M>| d.to)
}

/// What a notification keeps of the subscribers is, in order, the handle
/// of every delivery that its channel accepted; when every delivery was
/// accepted, all of them.
pub proof fn law_accepted_handles_in_order<M>(ds: Seq<Delivery<M>>)
    ensures
        accepted_handles(ds) == accepted_in_order(ds),
        (forall|i: int| 0 <= i < ds.len() ==> (#[trigger] ds[i]).accepted) ==> accepted_handles(ds)
            == ds.map_values(|d: Delivery<M>| d.to),
    decreases ds.len(),
{
    reveal(Seq::filter);
    if ds.len() > 0 {
        let rest = ds.drop_last();
        law_accepted_handles_in_order(rest);
        if ds.last().accepted {
            assert(accepted_in_order(ds) =~= accepted_in_order(rest).push(ds.last().to));
        } else {
            assert(accepted_in_order(ds) =~= accepted_in_order(rest));
        }
        if forall|i: int| 0 <= i < ds.len() ==> (#[trigger] ds[i]).accepted {
            assert forall|i: int| 0 <= i < rest.len() implies (#[trigger] rest[i]).accepted by {
                assert(rest[i] == ds[i]);
            }
            assert(ds[ds.len() - 1].accepted);
            assert(ds.map_values(|d: Delivery<M>| d.to) =~= rest.map_values(|d: Delivery<M>| d.to).push(ds.last().to));
        }
    } else {
        assert(accepted_in_order(ds) =~= Seq::<UnboundedSender<M>>::empty());
        assert(ds.map_values(|d: Delivery<M>| d.to) =~= Seq::<UnboundedSender<M>>::empty());
    }
}

/// Notifying the subscribers of a value keeps, in order, exactly those
/// whose channel accepted the message: when every channel is open, every
/// subscriber stays, and each subscriber that stays was handed the message.
pub proof fn law_notify_keeps_open_subscribers<M>(
    old: SubscriberBook<M>,
    new: SubscriberBook<M>,
    key: Seq<char>,
    message: M,
)
    requires
        subscribers_notified(old, new, key, message),
        old@.contains_key(key),
    ensures
        ({
            let n = old.deliveries().len();
            let sent = new.deliveries().subrange(n as int, new.deliveries().len() as int);
            &&& new@.contains_key(key)
            &&& new@[key] == accepted_in_order(sent)
            &&& (forall|i: int| 0 <= i < sent.len() ==> (#[trigger] sent[i]).accepted) ==> new@[key] == old@[key]
        }),
{
    let n = old.deliveries().len();
    let sent = new.deliveries().subrange(n as int, new.deliveries().len() as int);
    let list = old@[key];
    law_accepted_handles_in_order(sent);
    assert(sent.map_values(|d: Delivery<M>| d.to) =~= list);
}

/// A configuration built from a list of entries holds the value of every
/// entry that no later entry of the same name overrides.
pub proof fn law_entries_each_last_value_kept(entries: Seq<(String, Value)>, i: int)
    requires
        0 <= i < entries.len(),
        forall|j: int| i < j < entries.len() ==> (#[trigger] entries[j]).0@ != entries[i].0@,
    ensures
        entries_in_order(config_entries_view(entries)).contains_key(entries[i].0@),
        entries_in_order(config_entries_view(entries))[entries[i].0@] == entries[i].1,
    decreases entries.len(),
{
    let s = config_entries_view(entries);
    assert(s[i] == config_entry_view(entries[i]));
    let last = entries.len() - 1;
    assert(s.last() == config_entry_view(entries[last]));
    if i < last {
        let rest = entries.drop_last();
        assert(config_entries_view(rest) =~= s.drop_last());
        assert forall|j: int| i < j < rest.len() implies (#[trigger] rest[j]).0@ != rest[i].0@ by {
            assert(rest[j] == entries[j]);
        }
        law_entries_each_last_value_kept(rest, i);
        assert(entries[last].0@ != entries[i].0@);
    }
}

/// A configuration built from a list of entries holds a name exactly when
/// some entry has that name.
pub proof fn law_entries_names_kept(entries: Seq<(String, Value)>, name: Seq<char>)
    ensures
        entries_in_order(config_entries_view(entries)).contains_key(name) <==> exists|i: int|
            0 <= i < entries.len() && (#[trigger] entries[i]).0@ == name,
    decreases entries.len(),
{
    let s = config_entries_view(entries);
    if entries.len() > 0 {
        let last = entries.len() - 1;
        let rest = entries.drop_last();
        assert(config_entries_view(rest) =~= s.drop_last());
        assert(s.last() == config_entry_view(entries[last]));
        law_entries_names_kept(rest, name);
        if exists|i: int| 0 <= i < rest.len() && (#[trigger] rest[i]).0@ == name {
            let i = choose|i: int| 0 <= i < rest.len() && (#[trigger] rest[i]).0@ == name;
            assert(entries[i] == rest[i]);
        }
        if exists|i: int| 0 <= i < entries.len() && (#[trigger] entries[i]).0@ == name {
            let i = choose|i: int| 0 <= i < entries.len() && (#[trigger] entries[i]).0@ == name;
            if i < last {
                assert(rest[i] == entries[i]);
            }
        }
    }
}

/// Re-registering a known instance at time `t` refreshes it: every
/// registered instance of the group that the registration names keeps its
/// host and port and now carries `t` as its registration time. A
/// registry store appends at the reading its clock gave during the call.
pub proof fn law_refresh_carries_clock_reading(
    old: Seq<RegistryView>,
    new: Seq<RegistryView>,
    v: RegistryView,
    t: i64,
    i: int,
    k: int,
)
    requires
        registry_appended_at(old, new, v, t),
        is_first_registry_match(old, v, i),
        v.services.len() > 0,
        service_in(old[i].services, v.services[0]),
        0 <= k < old[i].services.len(),
        service_in(v.services, old[i].services[k]),
    ensures
        new[i].services.len() == old[i].services.len(),
        new[i].services[k].reg_time == t,
        new[i].services[k].host == old[i].services[k].host,
        new[i].services[k].port == old[i].services[k].port,
{
    let a = choose|a: int|
        #![trigger old[a]]
        {
            &&& is_first_registry_match(old, v, a)
            &&& crate::registry::only_registry_changed(old, new, a)
            &&& crate::registry::group_services_appended_at(old[a].services, new[a].services, v.services, t)
        };
    lemma_first_registry_match_unique(old, v, a, i);
}

} // verus!
