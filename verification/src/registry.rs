//! The registry: a catalogue of services under leases, looked up by name or
//! by glob pattern, with watches that are told of new registrations.
//!
//! Time is a count of milliseconds on a monotonic clock that the caller
//! reads; every operation that depends on time takes the reading as `now`.
//! The services are kept in a `dashmap::DashMap`, which the registry owns
//! and changes only while it is held exclusively. Sending to watchers is
//! left to the caller: a registration hands back the notifications that are
//! due.

use crate::error::{ErrorView, WindError};
use crate::pattern::{glob_matches, glob_valid, ServicePattern};
use crate::protocol::fresh_id;
use crate::schema::{Schema, SchemaView};
use crate::text::{join, same_text};
use crate::types::{ServiceInfo, ServiceInfoView};
use vstd::prelude::*;

verus! {

/// `dashmap::DashMap`, a hash map. The proofs see nothing inside it.
#[verifier::external_type_specification]
#[verifier::external_body]
#[verifier::reject_recursive_types(K)]
#[verifier::reject_recursive_types(V)]
#[verifier::reject_recursive_types(S)]
pub struct ExDashMap<K, V, S>(dashmap::DashMap<K, V, S>);

/// A registered service with its lease.
#[derive(Debug)]
pub struct ServiceEntry {
    pub info: ServiceInfo,
    pub registered_at: u64,
    pub expires_at: u64,
    pub last_heartbeat: u64,
}

/// The model of a [`ServiceEntry`].
pub struct EntryView {
    pub info: ServiceInfoView,
    pub registered_at: u64,
    pub expires_at: u64,
    pub last_heartbeat: u64,
}

/// When a lease of `ttl_ms` milliseconds that is granted at `now` ends: at
/// `now + ttl_ms`, or with the clock where that lies beyond its range.
pub open spec fn lease_end(now: u64, ttl_ms: u64) -> u64 {
    if now + ttl_ms > u64::MAX {
        u64::MAX
    } else {
        (now + ttl_ms) as u64
    }
}

fn end_of_lease(now: u64, ttl_ms: u64) -> (r: u64)
    ensures
        r == lease_end(now, ttl_ms),
{
    if ttl_ms > u64::MAX - now {
        u64::MAX
    } else {
        now + ttl_ms
    }
}

impl EntryView {
    /// The entry of a service registered at `now` with a lease of `ttl_ms`.
    pub open spec fn registered(info: ServiceInfoView, ttl_ms: u64, now: u64) -> EntryView {
        EntryView {
            info,
            registered_at: now,
            expires_at: lease_end(now, ttl_ms),
            last_heartbeat: now,
        }
    }

    /// The entry after a heartbeat at `now` that grants a lease of `ttl_ms`.
    pub open spec fn renewed(self, ttl_ms: u64, now: u64) -> EntryView {
        EntryView { expires_at: lease_end(now, ttl_ms), last_heartbeat: now, ..self }
    }

    /// A lease has expired once the clock has passed its end.
    pub open spec fn expired(self, now: u64) -> bool {
        now > self.expires_at
    }
}

impl View for ServiceEntry {
    type V = EntryView;

    open spec fn view(&self) -> EntryView {
        EntryView {
            info: self.info@,
            registered_at: self.registered_at,
            expires_at: self.expires_at,
            last_heartbeat: self.last_heartbeat,
        }
    }
}

impl Clone for ServiceEntry {
    fn clone(&self) -> (r: ServiceEntry)
        ensures
            r@ == self@,
    {
        ServiceEntry {
            info: self.info.clone(),
            registered_at: self.registered_at,
            expires_at: self.expires_at,
            last_heartbeat: self.last_heartbeat,
        }
    }
}

impl ServiceEntry {
    /// The entry of a service registered at `now` with a lease of `ttl_ms`
    /// milliseconds.
    pub fn new(info: ServiceInfo, ttl_ms: u64, now: u64) -> (r: ServiceEntry)
        ensures
            r@ == EntryView::registered(info@, ttl_ms, now),
            now + ttl_ms <= u64::MAX ==> r@.expires_at == r@.last_heartbeat + ttl_ms,
    {
        ServiceEntry {
            info,
            registered_at: now,
            expires_at: end_of_lease(now, ttl_ms),
            last_heartbeat: now,
        }
    }

    /// Records a heartbeat at `now` and extends the lease to `ttl_ms`
    /// milliseconds from then.
    pub fn renew(&mut self, ttl_ms: u64, now: u64)
        ensures
            final(self)@ == old(self)@.renewed(ttl_ms, now),
            now + ttl_ms <= u64::MAX ==> final(self)@.expires_at == final(self)@.last_heartbeat
                + ttl_ms,
    {
        self.last_heartbeat = now;
        self.expires_at = end_of_lease(now, ttl_ms);
    }

    /// Whether the lease has expired at `now`.
    pub fn is_expired(&self, now: u64) -> (r: bool)
        ensures
            r == self@.expired(now),
    {
        now > self.expires_at
    }

    /// Whether the lease still runs at `now`.
    pub fn is_live(&self, now: u64) -> (r: bool)
        ensures
            r == !self@.expired(now),
    {
        now <= self.expires_at
    }
}

/// An observer of registrations whose names match a pattern.
#[derive(Debug)]
pub struct ServiceWatch {
    pub id: u128,
    pub pattern: ServicePattern,
}

/// The model of a [`ServiceWatch`].
pub struct WatchView {
    pub id: u128,
    pub pattern: Seq<char>,
}

impl View for ServiceWatch {
    type V = WatchView;

    open spec fn view(&self) -> WatchView {
        WatchView { id: self.id, pattern: self.pattern@ }
    }
}

/// The models of a list of watches, in order.
pub open spec fn watches_view(w: Seq<ServiceWatch>) -> Seq<WatchView> {
    Seq::new(w.len(), |i: int| w[i]@)
}

/// The counters of a registry. Each wraps around at the end of its range.
#[derive(Debug, Clone, Copy, PartialEq, Eq, Structural)]
pub struct RegistryMetrics {
    pub total_registrations: u64,
    pub active_services: u64,
    pub total_lookups: u64,
    pub active_watches: u64,
}

/// A notification that is due: the watch with this id is to be told of this
/// service.
#[derive(Debug)]
pub struct Notification {
    pub watch: u128,
    pub service: ServiceInfo,
}

/// The models of a list of notifications, in order.
pub open spec fn notifications_view(n: Seq<Notification>) -> Seq<(u128, ServiceInfoView)> {
    Seq::new(n.len(), |i: int| (n[i].watch, n[i].service@))
}

/// What opening a watch gives: its id, and the services that match now.
#[derive(Debug)]
pub struct WatchOpened {
    pub id: u128,
    pub current: Vec<ServiceInfo>,
}

/// One more, wrapping around at the end of the range.
pub open spec fn wrapping_inc(x: u64) -> u64 {
    if x == u64::MAX {
        0
    } else {
        (x + 1) as u64
    }
}

fn bump(x: u64) -> (r: u64)
    ensures
        r == wrapping_inc(x),
{
    if x == u64::MAX {
        0
    } else {
        x + 1
    }
}

/// The entries whose lease has not expired at `now`.
pub open spec fn live_only(services: Map<Seq<char>, EntryView>, now: u64) -> Map<
    Seq<char>,
    EntryView,
> {
    Map::new(
        |k: Seq<char>| services.contains_key(k) && !services[k].expired(now),
        |k: Seq<char>| services[k],
    )
}

/// The notifications due when a service of this description registers: one
/// for each watch whose pattern matches its name, in the order of the
/// watches.
pub open spec fn notifications_for(watches: Seq<WatchView>, info: ServiceInfoView) -> Seq<
    (u128, ServiceInfoView),
>
    decreases watches.len(),
{
    if watches.len() == 0 {
        Seq::empty()
    } else {
        let rest = notifications_for(watches.drop_last(), info);
        if glob_matches(watches.last().pattern, info.name) {
            rest.push((watches.last().id, info))
        } else {
            rest
        }
    }
}

/// The watches that stay when those with an id in `closed` are dropped, in
/// their order.
pub open spec fn without_closed(watches: Seq<WatchView>, closed: Seq<u128>) -> Seq<WatchView>
    decreases watches.len(),
{
    if watches.len() == 0 {
        Seq::empty()
    } else {
        let rest = without_closed(watches.drop_last(), closed);
        if closed.contains(watches.last().id) {
            rest
        } else {
            rest.push(watches.last())
        }
    }
}

/// The model of a [`Registry`].
pub struct RegistryView {
    pub services: Map<Seq<char>, EntryView>,
    pub watches: Seq<WatchView>,
    pub schemas: Map<Seq<char>, SchemaView>,
    pub metrics: RegistryMetrics,
}

impl RegistryView {
    /// The registry without services, watches or schemas.
    pub open spec fn empty() -> RegistryView {
        RegistryView {
            services: Map::empty(),
            watches: Seq::empty(),
            schemas: Map::empty(),
            metrics: RegistryMetrics {
                total_registrations: 0,
                active_services: 0,
                total_lookups: 0,
                active_watches: 0,
            },
        }
    }

    /// Every entry is stored under the name of its service.
    pub open spec fn keyed_by_name(self) -> bool {
        forall|k: Seq<char>| #[trigger]
            self.services.contains_key(k) ==> self.services[k].info.name == k
    }

    /// What holds of every registry: the services are finitely many, each
    /// stored under its name.
    pub open spec fn wf(self) -> bool {
        self.keyed_by_name() && self.services.dom().finite()
    }

    /// After a registration at `now`: the entry replaces any other of that
    /// name.
    pub open spec fn register(self, info: ServiceInfoView, ttl_ms: u64, now: u64) -> RegistryView {
        let services = self.services.insert(info.name, EntryView::registered(info, ttl_ms, now));
        RegistryView {
            services,
            metrics: RegistryMetrics {
                total_registrations: wrapping_inc(self.metrics.total_registrations),
                active_services: services.len() as u64,
                ..self.metrics
            },
            ..self
        }
    }

    /// Whether a renewal is accepted: the name is registered, at this
    /// address.
    pub open spec fn renewable(self, name: Seq<char>, address: Seq<char>) -> bool {
        self.services.contains_key(name) && self.services[name].info.address == address
    }

    /// After an accepted renewal at `now`.
    pub open spec fn renew(self, name: Seq<char>, ttl_ms: u64, now: u64) -> RegistryView {
        RegistryView {
            services: self.services.insert(name, self.services[name].renewed(ttl_ms, now)),
            ..self
        }
    }

    /// What a lookup at `now` answers: the service of that name, unless its
    /// lease has expired.
    pub open spec fn lookup(self, name: Seq<char>, now: u64) -> Option<ServiceInfoView> {
        if self.services.contains_key(name) && !self.services[name].expired(now) {
            Some(self.services[name].info)
        } else {
            None
        }
    }

    /// After a lookup: it is counted.
    pub open spec fn looked_up(self) -> RegistryView {
        RegistryView {
            metrics: RegistryMetrics {
                total_lookups: wrapping_inc(self.metrics.total_lookups),
                ..self.metrics
            },
            ..self
        }
    }

    /// Whether the service of this name is listed at `now` under a filter:
    /// it is registered, its lease has not expired, and its name matches the
    /// pattern if there is one.
    pub open spec fn selected(self, filter: Option<Seq<char>>, now: u64, name: Seq<char>) -> bool {
        &&& self.services.contains_key(name)
        &&& !self.services[name].expired(now)
        &&& match filter {
            Some(pattern) => glob_matches(pattern, name),
            None => true,
        }
    }

    /// Whether `list` lists the selected services: each of them once, and
    /// nothing else, in any order.
    pub open spec fn is_listing(
        self,
        list: Seq<ServiceInfoView>,
        filter: Option<Seq<char>>,
        now: u64,
    ) -> bool {
        &&& forall|i: int|
            0 <= i < list.len() ==> self.selected(filter, now, (#[trigger] list[i]).name)
                && self.services[list[i].name].info == list[i]
        &&& forall|i: int, j: int|
            0 <= i < j < list.len() ==> (#[trigger] list[i]).name != (#[trigger] list[j]).name
        &&& forall|k: Seq<char>| #[trigger]
            self.selected(filter, now, k) ==> exists|i: int|
                0 <= i < list.len() && (#[trigger] list[i]).name == k
    }

    /// After a watch was opened.
    pub open spec fn watch(self, id: u128, pattern: Seq<char>) -> RegistryView {
        let watches = self.watches.push(WatchView { id, pattern });
        RegistryView {
            watches,
            metrics: RegistryMetrics { active_watches: watches.len() as u64, ..self.metrics },
            ..self
        }
    }

    /// After a cleanup at `now`: expired entries are gone, and so are the
    /// watches with an id in `closed`.
    pub open spec fn cleaned(self, now: u64, closed: Seq<u128>) -> RegistryView {
        let services = live_only(self.services, now);
        let watches = without_closed(self.watches, closed);
        RegistryView {
            services,
            watches,
            metrics: RegistryMetrics {
                active_services: services.len() as u64,
                active_watches: watches.len() as u64,
                ..self.metrics
            },
            ..self
        }
    }

    /// After a schema was stored.
    pub open spec fn with_schema(self, schema: SchemaView) -> RegistryView {
        RegistryView { schemas: self.schemas.insert(schema.id, schema), ..self }
    }
}

/// The error for a pattern that is no valid glob: a registry error whose
/// text begins `Invalid pattern: `, followed by glob's explanation.
pub open spec fn is_invalid_pattern(e: ErrorView) -> bool {
    match e {
        ErrorView::Registry(text) => text.len() >= 17 && text.subrange(0, 17)
            == "Invalid pattern: "@,
        _ => false,
    }
}

/// What the services map holds: for each key the entry stored under it.
pub uninterp spec fn stored_services(m: dashmap::DashMap<String, ServiceEntry>) -> Map<
    Seq<char>,
    EntryView,
>;

/// What the schemas map holds: for each key the schema stored under it.
pub uninterp spec fn stored_schemas(m: dashmap::DashMap<String, Schema>) -> Map<
    Seq<char>,
    SchemaView,
>;

/// `DashMap::new`: a map that holds nothing.
#[verifier::external_body]
fn services_new() -> (m: dashmap::DashMap<String, ServiceEntry>)
    ensures
        stored_services(m) =~= Map::empty(),
{
    dashmap::DashMap::new()
}

/// `DashMap::insert`: the value is stored under the key, in place of any
/// value that was.
#[verifier::external_body]
fn services_insert(m: &mut dashmap::DashMap<String, ServiceEntry>, key: String, value: ServiceEntry)
    ensures
        stored_services(*final(m)) == stored_services(*old(m)).insert(key@, value@),
{
    m.insert(key, value);
}

/// `DashMap::get`, with a copy of the entry found.
#[verifier::external_body]
fn services_get(m: &dashmap::DashMap<String, ServiceEntry>, key: &str) -> (r: Option<ServiceEntry>)
    ensures
        match r {
            Some(e) => stored_services(*m).contains_key(key@) && e@ == stored_services(*m)[key@],
            None => !stored_services(*m).contains_key(key@),
        },
{
    m.get(key).map(|e| e.value().clone())
}

/// `DashMap::len`: the number of entries.
#[verifier::external_body]
fn services_len(m: &dashmap::DashMap<String, ServiceEntry>) -> (n: usize)
    ensures
        n == stored_services(*m).len(),
{
    m.len()
}

/// `DashMap::retain`, keeping the entries whose lease has not expired at
/// `now`.
#[verifier::external_body]
fn services_retain_live(m: &mut dashmap::DashMap<String, ServiceEntry>, now: u64)
    ensures
        stored_services(*final(m)) == live_only(stored_services(*old(m)), now),
{
    m.retain(|_, e| e.is_live(now));
}

/// `DashMap::iter`, with a copy of each key and entry. Every entry comes
/// once; in which order is left open.
#[verifier::external_body]
fn services_entries(m: &dashmap::DashMap<String, ServiceEntry>) -> (r: Vec<(String, ServiceEntry)>)
    ensures
        forall|i: int|
            0 <= i < r@.len() ==> stored_services(*m).contains_key((#[trigger] r@[i]).0@)
                && stored_services(*m)[r@[i].0@] == r@[i].1@,
        forall|i: int, j: int|
            0 <= i < j < r@.len() ==> (#[trigger] r@[i]).0@ != (#[trigger] r@[j]).0@,
        forall|k: Seq<char>| #[trigger]
            stored_services(*m).contains_key(k) ==> exists|i: int|
                0 <= i < r@.len() && (#[trigger] r@[i]).0@ == k,
{
    m.iter().map(|e| (e.key().clone(), e.value().clone())).collect()
}

/// `DashMap::new`: a map that holds nothing.
#[verifier::external_body]
fn schemas_new() -> (m: dashmap::DashMap<String, Schema>)
    ensures
        stored_schemas(m) =~= Map::empty(),
{
    dashmap::DashMap::new()
}

/// `DashMap::insert`: the schema is stored under the key, in place of any
/// schema that was.
#[verifier::external_body]
fn schemas_insert(m: &mut dashmap::DashMap<String, Schema>, key: String, value: Schema)
    ensures
        stored_schemas(*final(m)) == stored_schemas(*old(m)).insert(key@, value@),
{
    m.insert(key, value);
}

/// `DashMap::get`, with a copy of the schema found.
#[verifier::external_body]
fn schemas_get(m: &dashmap::DashMap<String, Schema>, key: &str) -> (r: Option<Schema>)
    ensures
        match r {
            Some(s) => stored_schemas(*m).contains_key(key@) && s@ == stored_schemas(*m)[key@],
            None => !stored_schemas(*m).contains_key(key@),
        },
{
    m.get(key).map(|e| e.value().clone())
}

/// `Display` of `glob::PatternError`: glob's explanation of why a pattern is
/// invalid. Nothing is claimed of the text.
#[verifier::external_body]
fn explain(e: &glob::PatternError) -> (r: String) {
    e.to_string()
}

fn contains_id(ids: &Vec<u128>, id: u128) -> (r: bool)
    ensures
        r == ids@.contains(id),
{
    let mut i: usize = 0;
    while i < ids.len()
        invariant
            i <= ids.len(),
            forall|j: int| 0 <= j < i ==> ids@[j] != id,
        decreases ids.len() - i,
    {
        if ids[i] == id {
            return true;
        }
        i = i + 1;
    }
    false
}

/// The catalogue of services, with its watches, schemas and counters.
pub struct Registry {
    services: dashmap::DashMap<String, ServiceEntry>,
    watches: Vec<ServiceWatch>,
    schemas: dashmap::DashMap<String, Schema>,
    metrics: RegistryMetrics,
}

impl View for Registry {
    type V = RegistryView;

    closed spec fn view(&self) -> RegistryView {
        RegistryView {
            services: stored_services(self.services),
            watches: watches_view(self.watches@),
            schemas: stored_schemas(self.schemas),
            metrics: self.metrics,
        }
    }
}

impl Registry {
    /// Whether the registry is well formed: a registry made by
    /// [`Registry::new`] is, and every operation keeps it so.
    pub open spec fn wf(&self) -> bool {
        self@.wf()
    }

    /// A registry without services, watches or schemas.
    pub fn new() -> (r: Registry)
        ensures
            r.wf(),
            r@ == RegistryView::empty(),
    {
        let r = Registry {
            services: services_new(),
            watches: Vec::new(),
            schemas: schemas_new(),
            metrics: RegistryMetrics {
                total_registrations: 0,
                active_services: 0,
                total_lookups: 0,
                active_watches: 0,
            },
        };
        assert(r@.watches =~= Seq::empty());
        r
    }

    /// Registers a service at `now` with a lease of `ttl_ms` milliseconds,
    /// in place of any service of that name, and returns the notifications
    /// that are due: one for each watch whose pattern matches the name.
    /// Registration never fails.
    pub fn register_service(&mut self, info: ServiceInfo, ttl_ms: u64, now: u64) -> (r: Result<
        Vec<Notification>,
        WindError,
    >)
        requires
            old(self).wf(),
        ensures
            final(self).wf(),
            final(self)@ == old(self)@.register(info@, ttl_ms, now),
            r is Ok,
            notifications_view(r->Ok_0@) == notifications_for(old(self)@.watches, info@),
    {
        Ok(self.register(info, ttl_ms, now))
    }

    /// Registers a service, and returns the notifications that are due. See
    /// [`Registry::register_service`].
    pub fn register(&mut self, info: ServiceInfo, ttl_ms: u64, now: u64) -> (r: Vec<Notification>)
        requires
            old(self).wf(),
        ensures
            final(self).wf(),
            final(self)@ == old(self)@.register(info@, ttl_ms, now),
            notifications_view(r@) == notifications_for(old(self)@.watches, info@),
    {
        let due = self.notify_watchers(&info);
        let key = info.name.clone();
        let entry = ServiceEntry::new(info, ttl_ms, now);
        services_insert(&mut self.services, key, entry);
        self.metrics.total_registrations = bump(self.metrics.total_registrations);
        self.metrics.active_services = services_len(&self.services) as u64;
        due
    }

    /// Renews the lease of a service at `now`. Accepted where the name is
    /// registered at this address; otherwise the registry is left as it was
    /// and the error names the service.
    pub fn renew_service(&mut self, name: &str, address: &str, ttl_ms: u64, now: u64) -> (r: Result<
        (),
        WindError,
    >)
        requires
            old(self).wf(),
        ensures
            final(self).wf(),
            match r {
                Ok(()) => old(self)@.renewable(name@, address@) && final(self)@ == old(self)@.renew(
                    name@,
                    ttl_ms,
                    now,
                ),
                Err(e) => !old(self)@.renewable(name@, address@) && final(self)@ == old(self)@
                    && e@ == ErrorView::ServiceNotFound(name@),
            },
    {
        match services_get(&self.services, name) {
            Some(mut entry) => {
                if same_text(entry.info.address.as_str(), address) {
                    entry.renew(ttl_ms, now);
                    services_insert(&mut self.services, name.to_owned(), entry);
                    return Ok(());
                }
            },
            None => {},
        }
        Err(WindError::ServiceNotFound(name.to_owned()))
    }

    /// Looks a service up by its exact name at `now`, and counts the lookup.
    /// A service whose lease has expired is not found.
    pub fn lookup_service(&mut self, name: &str, now: u64) -> (r: Option<ServiceInfo>)
        requires
            old(self).wf(),
        ensures
            final(self).wf(),
            final(self)@ == old(self)@.looked_up(),
            match r {
                Some(info) => old(self)@.lookup(name@, now) == Some(info@),
                None => old(self)@.lookup(name@, now) is None,
            },
    {
        self.metrics.total_lookups = bump(self.metrics.total_lookups);
        match services_get(&self.services, name) {
            Some(entry) => {
                if entry.is_expired(now) {
                    None
                } else {
                    Some(entry.info)
                }
            },
            None => None,
        }
    }

    /// The services whose names match a glob pattern and whose leases have
    /// not expired at `now`, each once, in no particular order. Fails
    /// exactly where the pattern is invalid.
    pub fn discover_services(&self, pattern: &str, now: u64) -> (r: Result<
        Vec<ServiceInfo>,
        WindError,
    >)
        requires
            self.wf(),
        ensures
            match r {
                Ok(list) => glob_valid(pattern@) && self@.is_listing(
                    crate::types::infos_view(list@),
                    Some(pattern@),
                    now,
                ),
                Err(e) => !glob_valid(pattern@) && is_invalid_pattern(e@),
            },
    {
        match ServicePattern::new(pattern) {
            Ok(matcher) => Ok(self.listing(Some(&matcher), now)),
            Err(e) => Err(invalid_pattern(&e)),
        }
    }

    /// Opens a watch on a pattern under a fresh random id. Returns the id
    /// with the services that match now; registrations that match later are
    /// notified by [`Registry::register_service`]. Fails, leaving the
    /// registry as it was, exactly where the pattern is invalid.
    pub fn watch_services(&mut self, pattern: &str, now: u64) -> (r: Result<WatchOpened, WindError>)
        requires
            old(self).wf(),
        ensures
            final(self).wf(),
            match r {
                Ok(opened) => {
                    &&& glob_valid(pattern@)
                    &&& crate::protocol::is_random_uuid(opened.id)
                    &&& final(self)@ == old(self)@.watch(opened.id, pattern@)
                    &&& old(self)@.is_listing(
                        crate::types::infos_view(opened.current@),
                        Some(pattern@),
                        now,
                    )
                },
                Err(e) => !glob_valid(pattern@) && final(self)@ == old(self)@
                    && is_invalid_pattern(e@),
            },
    {
        let id = fresh_id();
        self.open_watch(id, pattern, now)
    }

    /// Opens a watch on a pattern under the given id. See
    /// [`Registry::watch_services`].
    pub fn open_watch(&mut self, id: u128, pattern: &str, now: u64) -> (r: Result<
        WatchOpened,
        WindError,
    >)
        requires
            old(self).wf(),
        ensures
            final(self).wf(),
            match r {
                Ok(opened) => {
                    &&& glob_valid(pattern@)
                    &&& opened.id == id
                    &&& final(self)@ == old(self)@.watch(id, pattern@)
                    &&& old(self)@.is_listing(
                        crate::types::infos_view(opened.current@),
                        Some(pattern@),
                        now,
                    )
                },
                Err(e) => !glob_valid(pattern@) && final(self)@ == old(self)@
                    && is_invalid_pattern(e@),
            },
    {
        match ServicePattern::new(pattern) {
            Ok(matcher) => {
                let current = self.listing(Some(&matcher), now);
                self.watches.push(ServiceWatch { id, pattern: matcher });
                self.metrics.active_watches = self.watches.len() as u64;
                assert(self@.watches =~= old(self)@.watches.push(
                    WatchView { id, pattern: pattern@ },
                ));
                Ok(WatchOpened { id, current })
            },
            Err(e) => Err(invalid_pattern(&e)),
        }
    }

    /// Removes the entries whose lease has expired at `now`, and the watches
    /// whose id is in `closed`: those that the caller has found without a
    /// receiver. No notification is due.
    pub fn cleanup_expired(&mut self, now: u64, closed: &Vec<u128>)
        requires
            old(self).wf(),
        ensures
            final(self).wf(),
            final(self)@ == old(self)@.cleaned(now, closed@),
    {
        services_retain_live(&mut self.services, now);
        proof {
            vstd::set_lib::lemma_len_subset(self@.services.dom(), old(self)@.services.dom());
        }
        self.metrics.active_services = services_len(&self.services) as u64;
        drop_closed(&mut self.watches, closed);
        self.metrics.active_watches = self.watches.len() as u64;
    }

    /// Removes the watch with this id, if there is one: for a watch whose
    /// observer can no longer be written to.
    pub fn remove_watch(&mut self, id: u128)
        requires
            old(self).wf(),
        ensures
            final(self).wf(),
            final(self)@ == (RegistryView {
                watches: without_closed(old(self)@.watches, seq![id]),
                metrics: RegistryMetrics {
                    active_watches: without_closed(old(self)@.watches, seq![id]).len() as u64,
                    ..old(self)@.metrics
                },
                ..old(self)@
            }),
    {
        let mut closed: Vec<u128> = Vec::new();
        closed.push(id);
        assert(closed@ =~= seq![id]);
        drop_closed(&mut self.watches, &closed);
        self.metrics.active_watches = self.watches.len() as u64;
    }

    /// Stores a schema under its id, in place of any schema that had it.
    pub fn register_schema(&mut self, schema: Schema)
        requires
            old(self).wf(),
        ensures
            final(self).wf(),
            final(self)@ == old(self)@.with_schema(schema@),
    {
        let key = schema.id.clone();
        schemas_insert(&mut self.schemas, key, schema);
    }

    /// A copy of the schema stored under `id`, if any.
    pub fn get_schema(&self, id: &str) -> (r: Option<Schema>)
        ensures
            match r {
                Some(s) => self@.schemas.contains_key(id@) && s@ == self@.schemas[id@],
                None => !self@.schemas.contains_key(id@),
            },
    {
        schemas_get(&self.schemas, id)
    }

    /// The services whose leases have not expired at `now`, each once, in no
    /// particular order.
    pub fn list_services(&self, now: u64) -> (r: Vec<ServiceInfo>)
        requires
            self.wf(),
        ensures
            self@.is_listing(crate::types::infos_view(r@), None, now),
    {
        self.listing(None, now)
    }

    /// The counters.
    pub fn metrics(&self) -> (r: &RegistryMetrics)
        ensures
            *r == self@.metrics,
    {
        &self.metrics
    }

    fn notify_watchers(&self, service: &ServiceInfo) -> (r: Vec<Notification>)
        ensures
            notifications_view(r@) == notifications_for(self@.watches, service@),
    {
        let ghost watches = watches_view(self.watches@);
        let mut due: Vec<Notification> = Vec::new();
        let mut i: usize = 0;
        assert(notifications_view(due@) =~= notifications_for(watches.take(0), service@));
        while i < self.watches.len()
            invariant
                i <= self.watches.len(),
                watches == watches_view(self.watches@),
                notifications_view(due@) == notifications_for(watches.take(i as int), service@),
            decreases self.watches.len() - i,
        {
            assert(watches.take(i + 1).drop_last() =~= watches.take(i as int));
            assert(watches.take(i + 1).last() == self.watches@[i as int]@);
            let ghost before = notifications_view(due@);
            if self.watches[i].pattern.matches(service.name.as_str()) {
                due.push(Notification { watch: self.watches[i].id, service: service.clone() });
                assert(notifications_view(due@) =~= before.push(
                    (self.watches@[i as int].id, service@),
                ));
            }
            i = i + 1;
        }
        assert(watches.take(i as int) =~= watches);
        due
    }

    fn listing(&self, matcher: Option<&ServicePattern>, now: u64) -> (r: Vec<ServiceInfo>)
        requires
            self.wf(),
        ensures
            self@.is_listing(
                crate::types::infos_view(r@),
                match matcher {
                    Some(p) => Some(p@),
                    None => None,
                },
                now,
            ),
    {
        let ghost filter: Option<Seq<char>> = match matcher {
            Some(p) => Some(p@),
            None => None,
        };
        let ghost view = self@;
        let entries = services_entries(&self.services);
        let mut out: Vec<ServiceInfo> = Vec::new();
        let ghost mut source: Seq<int> = Seq::empty();
        let mut i: usize = 0;
        while i < entries.len()
            invariant
                i <= entries.len(),
                view == self@,
                view.keyed_by_name(),
                filter == match matcher {
                    Some(p) => Some(p@),
                    None => None,
                },
                forall|a: int|
                    0 <= a < entries@.len() ==> view.services.contains_key(
                        (#[trigger] entries@[a]).0@,
                    ) && view.services[entries@[a].0@] == entries@[a].1@,
                forall|a: int, b: int|
                    0 <= a < b < entries@.len() ==> (#[trigger] entries@[a]).0@ != (
                    #[trigger] entries@[b]).0@,
                source.len() == out@.len(),
                forall|a: int|
                    0 <= a < source.len() ==> 0 <= (#[trigger] source[a]) < i && out@[a]@
                        == entries@[source[a]].1@.info && view.selected(
                        filter,
                        now,
                        entries@[source[a]].0@,
                    ),
                forall|a: int, b: int|
                    0 <= a < b < source.len() ==> (#[trigger] source[a]) < (#[trigger] source[b]),
                forall|e: int|
                    0 <= e < i && view.selected(filter, now, (#[trigger] entries@[e]).0@)
                        ==> exists|a: int| 0 <= a < source.len() && #[trigger] source[a] == e,
            decreases entries.len() - i,
        {
            let expired = entries[i].1.is_expired(now);
            let matched = match matcher {
                Some(p) => p.matches(entries[i].0.as_str()),
                None => true,
            };
            if !expired && matched {
                let ghost old_source = source;
                out.push(entries[i].1.info.clone());
                proof {
                    source = source.push(i as int);
                    assert forall|e: int|
                        0 <= e < i + 1 && view.selected(
                            filter,
                            now,
                            (#[trigger] entries@[e]).0@,
                        ) implies exists|a: int|
                        0 <= a < source.len() && #[trigger] source[a] == e by {
                        if e < i {
                            let a = choose|a: int|
                                0 <= a < old_source.len() && #[trigger] old_source[a] == e;
                            assert(source[a] == e);
                        } else {
                            assert(source[source.len() - 1] == e);
                        }
                    }
                }
            }
            i = i + 1;
        }
        proof {
            let list = crate::types::infos_view(out@);
            assert forall|a: int| 0 <= a < list.len() implies view.selected(
                filter,
                now,
                (#[trigger] list[a]).name,
            ) && view.services[list[a].name].info == list[a] by {
                let e = source[a];
                assert(view.services.contains_key(entries@[e].0@));
            }
            assert forall|a: int, b: int| 0 <= a < b < list.len() implies (#[trigger] list[a]).name
                != (#[trigger] list[b]).name by {
                let ea = source[a];
                let eb = source[b];
                assert(view.services.contains_key(entries@[ea].0@));
                assert(view.services.contains_key(entries@[eb].0@));
                assert(entries@[ea].0@ != entries@[eb].0@);
            }
            assert forall|k: Seq<char>| #[trigger] view.selected(filter, now, k) implies exists|
                a: int,
            |
                0 <= a < list.len() && (#[trigger] list[a]).name == k by {
                let e = choose|e: int| 0 <= e < entries@.len() && (#[trigger] entries@[e]).0@ == k;
                let a = choose|a: int| 0 <= a < source.len() && #[trigger] source[a] == e;
                assert(view.services.contains_key(entries@[e].0@));
                assert(list[a].name == k);
            }
        }
        out
    }
}

impl Default for Registry {
    fn default() -> (r: Registry)
        ensures
            r.wf(),
            r@ == RegistryView::empty(),
    {
        Registry::new()
    }
}

/// Drops the watches whose id is in `closed`, keeping the others in order.
fn drop_closed(watches: &mut Vec<ServiceWatch>, closed: &Vec<u128>)
    ensures
        watches_view(final(watches)@) == without_closed(watches_view(old(watches)@), closed@),
{
    let ghost before = watches_view(watches@);
    let ghost mut removed: int = 0;
    let mut i: usize = 0;
    assert(watches_view(watches@).take(0) =~= without_closed(before.take(0), closed@));
    while i < watches.len()
        invariant
            0 <= removed,
            i + removed <= before.len(),
            watches@.len() == before.len() - removed,
            watches_view(watches@).take(i as int) == without_closed(
                before.take(i + removed),
                closed@,
            ),
            forall|j: int| i <= j < watches@.len() ==> watches@[j]@ == before[j + removed],
        decreases watches.len() - i,
    {
        let ghost prefix = watches_view(watches@).take(i as int);
        assert(before.take(i + removed + 1).drop_last() =~= before.take(i + removed));
        assert(before.take(i + removed + 1).last() == watches@[i as int]@);
        if contains_id(closed, watches[i].id) {
            let ghost prior = watches@;
            let _ = watches.remove(i);
            proof {
                removed = removed + 1;
                assert(watches_view(watches@).take(i as int) =~= prefix);
                assert forall|j: int| i <= j < watches@.len() implies watches@[j]@ == before[j
                    + removed] by {
                    assert(watches@[j] == prior[j + 1]);
                }
            }
        } else {
            assert(watches_view(watches@).take(i + 1) =~= prefix.push(watches@[i as int]@));
            i = i + 1;
        }
    }
    assert(watches_view(watches@).take(i as int) =~= watches_view(watches@));
    assert(before.take(i + removed) =~= before);
}

/// The error for a pattern that glob refused.
fn invalid_pattern(e: &glob::PatternError) -> (r: WindError)
    ensures
        is_invalid_pattern(r@),
{
    let detail = explain(e);
    let text = join("Invalid pattern: ", detail.as_str());
    proof {
        reveal_strlit("Invalid pattern: ");
        assert(text@.subrange(0, 17) =~= "Invalid pattern: "@);
    }
    WindError::Registry(text)
}

/// One registration: what registers, for how long, and when.
pub struct Registration {
    pub info: ServiceInfoView,
    pub ttl_ms: u64,
    pub now: u64,
}

/// The registry after a sequence of registrations.
pub open spec fn after_registrations(s: RegistryView, regs: Seq<Registration>) -> RegistryView
    decreases regs.len(),
{
    if regs.len() == 0 {
        s
    } else {
        after_registrations(s, regs.drop_last()).register(
            regs.last().info,
            regs.last().ttl_ms,
            regs.last().now,
        )
    }
}

/// The notifications that the registration at position `i` of a sequence
/// gives rise to.
pub open spec fn notifications_at(s: RegistryView, regs: Seq<Registration>, i: int) -> Seq<
    (u128, ServiceInfoView),
> {
    notifications_for(after_registrations(s, regs.take(i)).watches, regs[i].info)
}

/// A registered service is found under its name, as it was registered, for
/// as long as its lease lasts; a later registration of the same name takes
/// its place.
pub proof fn law_single_registration(
    s: RegistryView,
    first: Registration,
    second: Registration,
    at: u64,
)
    requires
        second.info.name == first.info.name,
    ensures
        at <= first.now + first.ttl_ms ==> s.register(first.info, first.ttl_ms, first.now).lookup(
            first.info.name,
            at,
        ) == Some(first.info),
        at <= second.now + second.ttl_ms ==> s.register(
            first.info,
            first.ttl_ms,
            first.now,
        ).register(second.info, second.ttl_ms, second.now).lookup(first.info.name, at) == Some(
            second.info,
        ),
{
}

/// What a lookup of a name answers is not changed by a lookup, by a
/// registration or renewal of another name, by opening a watch, or by a
/// cleanup that is not later than the lookup.
pub proof fn law_lookup_frame(
    s: RegistryView,
    name: Seq<char>,
    at: u64,
    other: Registration,
    watch_id: u128,
    pattern: Seq<char>,
    cleanup_at: u64,
    closed: Seq<u128>,
)
    requires
        other.info.name != name,
    ensures
        s.looked_up().lookup(name, at) == s.lookup(name, at),
        s.register(other.info, other.ttl_ms, other.now).lookup(name, at) == s.lookup(name, at),
        s.renew(other.info.name, other.ttl_ms, other.now).lookup(name, at) == s.lookup(name, at),
        s.watch(watch_id, pattern).lookup(name, at) == s.lookup(name, at),
        cleanup_at <= at ==> s.cleaned(cleanup_at, closed).lookup(name, at) == s.lookup(name, at),
{
}

/// A service that is not renewed is no longer found once its lease has run
/// out: a lookup later than the end of the lease finds nothing, and neither
/// lookups nor cleanups bring it back. A renewal extends the lease to its
/// own end.
pub proof fn law_expiry(s: RegistryView, reg: Registration, renewed_at: u64, ttl_ms: u64, at: u64)
    ensures
        at > reg.now + reg.ttl_ms ==> s.register(reg.info, reg.ttl_ms, reg.now).lookup(
            reg.info.name,
            at,
        ) is None,
        at > reg.now + reg.ttl_ms ==> s.register(reg.info, reg.ttl_ms, reg.now).cleaned(
            at,
            Seq::empty(),
        ).lookup(reg.info.name, at) is None,
        s.register(reg.info, reg.ttl_ms, reg.now).renew(reg.info.name, ttl_ms, renewed_at).lookup(
            reg.info.name,
            at,
        ) is Some <==> at <= renewed_at + ttl_ms,
{
}

/// Registrations leave the watches as they are.
pub proof fn lemma_registrations_keep_watches(s: RegistryView, regs: Seq<Registration>)
    ensures
        after_registrations(s, regs).watches == s.watches,
    decreases regs.len(),
{
    if regs.len() > 0 {
        lemma_registrations_keep_watches(s, regs.drop_last());
    }
}

/// A watch whose pattern matches a name is among those notified of it.
pub proof fn lemma_matching_watch_notified(watches: Seq<WatchView>, info: ServiceInfoView, w: int)
    requires
        0 <= w < watches.len(),
        glob_matches(watches[w].pattern, info.name),
    ensures
        notifications_for(watches, info).contains((watches[w].id, info)),
    decreases watches.len(),
{
    let rest = notifications_for(watches.drop_last(), info);
    if w == watches.len() - 1 {
        assert(rest.push((watches[w].id, info))[rest.len() as int] == (watches[w].id, info));
    } else {
        lemma_matching_watch_notified(watches.drop_last(), info, w);
        let at = choose|at: int| 0 <= at < rest.len() && rest[at] == (watches[w].id, info);
        if glob_matches(watches.last().pattern, info.name) {
            assert(rest.push((watches.last().id, info))[at] == (watches[w].id, info));
        }
    }
}

/// A watch that is open before a sequence of registrations is notified of
/// every one of them whose name matches its pattern, by the registration
/// itself and so in their order.
pub proof fn law_watch_completeness(s: RegistryView, regs: Seq<Registration>, w: int, i: int)
    requires
        0 <= w < s.watches.len(),
        0 <= i < regs.len(),
        glob_matches(s.watches[w].pattern, regs[i].info.name),
    ensures
        notifications_at(s, regs, i).contains((s.watches[w].id, regs[i].info)),
{
    lemma_registrations_keep_watches(s, regs.take(i));
    lemma_matching_watch_notified(s.watches, regs[i].info, w);
}

/// The operations keep a registry well formed.
pub proof fn law_well_formed(
    s: RegistryView,
    reg: Registration,
    name: Seq<char>,
    now: u64,
    closed: Seq<u128>,
)
    requires
        s.wf(),
    ensures
        RegistryView::empty().wf(),
        s.register(reg.info, reg.ttl_ms, reg.now).wf(),
        s.services.contains_key(name) ==> s.renew(name, reg.ttl_ms, now).wf(),
        s.cleaned(now, closed).wf(),
{
    vstd::set_lib::lemma_len_subset(live_only(s.services, now).dom(), s.services.dom());
}

} // verus!
