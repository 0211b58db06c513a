//! The publisher: one current value per topic, fanned out to subscribers,
//! each under its own delivery mode.
//!
//! The publisher here is the bookkeeping of a publisher: who subscribes to
//! what, what is due to whom, and what each was last sent. Writing to the
//! subscribers' connections is left to the caller, which reports for each
//! delivery whether the write succeeded.

use crate::error::{ErrorView, WindError};
use crate::protocol::{value_opt_view, MessagePayload, PayloadView};
use crate::registry::wrapping_inc;
use crate::subscription::{ClientSubscription, SubscriptionView};
use crate::text::{clone_strings, clone_text_opt, same_text, text_opt, texts};
use crate::types::{ServiceType, SubscriptionMode};
use crate::value::{ValueView, WindValue};
use std::collections::HashMap;
use vstd::prelude::*;
use vstd::std_specs::iter::IteratorSpec;
use vstd::string::StringExecFns;

verus! {

/// The milliseconds between two renewals of a publisher's registration.
pub const DEFAULT_HEARTBEAT_INTERVAL_MS: u64 = 30000;

/// The lease that a publisher asks for unless told otherwise.
pub const DEFAULT_TTL_MS: u64 = 60000;

/// The capacity of the channel that carries published values to the
/// fan-out.
pub const UPDATE_CHANNEL_CAPACITY: usize = 1000;

/// How often a write to a reliable subscriber is tried again before the
/// subscriber is dropped.
pub const MAX_WRITE_RETRIES: u32 = 3;

/// Whether a write that has failed `failures` times is to be tried again: a
/// best-effort subscriber is dropped at the first failure, a reliable one
/// after the retries are used up.
pub open spec fn retries_write(reliability: crate::types::ReliabilityLevel, failures: u32) -> bool {
    reliability is Reliable && failures <= MAX_WRITE_RETRIES
}

/// Says whether to try a failed write again.
pub fn retry_write(reliability: crate::types::ReliabilityLevel, failures: u32) -> (r: bool)
    ensures
        r == retries_write(reliability, failures),
{
    match reliability {
        crate::types::ReliabilityLevel::Reliable => failures <= MAX_WRITE_RETRIES,
        crate::types::ReliabilityLevel::BestEffort => false,
    }
}

/// A connected client: its subscriptions, by topic.
#[derive(Debug)]
pub struct ActiveClient {
    pub subscriptions: Vec<(String, ClientSubscription)>,
}

/// The model of an [`ActiveClient`].
pub struct ClientView {
    pub subscriptions: Seq<(Seq<char>, SubscriptionView)>,
}

/// The models of a list of subscriptions, in order.
pub open spec fn subscriptions_view(s: Seq<(String, ClientSubscription)>) -> Seq<
    (Seq<char>, SubscriptionView),
> {
    Seq::new(s.len(), |i: int| (s[i].0@, s[i].1@))
}

impl View for ActiveClient {
    type V = ClientView;

    open spec fn view(&self) -> ClientView {
        ClientView { subscriptions: subscriptions_view(self.subscriptions@) }
    }
}

/// The models of the clients, by id.
pub open spec fn clients_view(c: Map<u128, ActiveClient>) -> Map<u128, ClientView> {
    c.map_values(|a: ActiveClient| a@)
}

/// A message that is due to a client.
#[derive(Debug)]
pub struct Delivery {
    pub client: u128,
    pub message: MessagePayload,
}

/// The models of a list of deliveries, in order.
pub open spec fn deliveries_view(d: Seq<Delivery>) -> Seq<(u128, PayloadView)> {
    Seq::new(d.len(), |i: int| (d[i].client, d[i].message@))
}

/// The subscriptions without the one to this topic, in their order.
pub open spec fn without_topic(
    subscriptions: Seq<(Seq<char>, SubscriptionView)>,
    topic: Seq<char>,
) -> Seq<(Seq<char>, SubscriptionView)>
    decreases subscriptions.len(),
{
    if subscriptions.len() == 0 {
        Seq::empty()
    } else {
        let rest = without_topic(subscriptions.drop_last(), topic);
        if subscriptions.last().0 == topic {
            rest
        } else {
            rest.push(subscriptions.last())
        }
    }
}

/// Whether a client of this id is connected.
pub open spec fn has_client(clients: Map<u128, ClientView>, id: u128) -> bool {
    clients.contains_key(id)
}

/// The message that carries a value to the subscribers of a topic.
pub open spec fn publication(topic: Seq<char>, sequence: u64, value: ValueView) -> PayloadView {
    PayloadView::Publish { service: topic, sequence, value, schema_id: None }
}

/// What is due to one client when `value` is offered at `now`: a message
/// for each of its first `upto` subscriptions that is to be sent, in their
/// order.
pub open spec fn due_to_client(
    id: u128,
    client: ClientView,
    upto: int,
    now: u64,
    sequence: u64,
    value: ValueView,
) -> Seq<(u128, PayloadView)>
    decreases upto,
{
    if upto <= 0 || upto > client.subscriptions.len() {
        Seq::empty()
    } else {
        let rest = due_to_client(id, client, upto - 1, now, sequence, value);
        let (topic, subscription) = client.subscriptions[upto - 1];
        if subscription.should_send(now, value) {
            rest.push((id, publication(topic, sequence, value)))
        } else {
            rest
        }
    }
}

/// Whether `ids` names every client once: a round through the clients, in
/// whatever order the map is walked.
pub open spec fn is_round(clients: Map<u128, ClientView>, ids: Seq<u128>) -> bool {
    ids.no_duplicates() && ids.to_set() == clients.dom()
}

/// What is due to the clients named by `ids`, client by client in that
/// order.
pub open spec fn due_in_order(
    clients: Map<u128, ClientView>,
    ids: Seq<u128>,
    now: u64,
    sequence: u64,
    value: ValueView,
) -> Seq<(u128, PayloadView)>
    decreases ids.len(),
{
    if ids.len() == 0 {
        Seq::empty()
    } else {
        due_in_order(clients, ids.drop_last(), now, sequence, value) + due_to_client(
            ids.last(),
            clients[ids.last()],
            clients[ids.last()].subscriptions.len() as int,
            now,
            sequence,
            value,
        )
    }
}

/// Whether `list` is what is due to the clients when `value` is offered at
/// `now`: what is due to each client, the clients taken in some round.
pub open spec fn is_fan_out(
    clients: Map<u128, ClientView>,
    now: u64,
    sequence: u64,
    value: ValueView,
    list: Seq<(u128, PayloadView)>,
) -> bool {
    exists|ids: Seq<u128>| #[trigger]
        is_round(clients, ids) && list == due_in_order(clients, ids, now, sequence, value)
}

/// The subscriptions after a value was sent at `now` on those to `topic`.
pub open spec fn sent_on_topic(
    subscriptions: Seq<(Seq<char>, SubscriptionView)>,
    topic: Seq<char>,
    now: u64,
    value: ValueView,
) -> Seq<(Seq<char>, SubscriptionView)> {
    Seq::new(
        subscriptions.len(),
        |i: int|
            if subscriptions[i].0 == topic {
                (subscriptions[i].0, subscriptions[i].1.mark_sent(now, value))
            } else {
                subscriptions[i]
            },
    )
}

/// The model of a [`Publisher`].
pub struct PublisherView {
    pub service_name: Seq<char>,
    pub bind_address: Seq<char>,
    pub registry_address: Seq<char>,
    pub schema_id: Option<Seq<char>>,
    pub current_value: Option<ValueView>,
    pub sequence_number: u64,
    pub clients: Map<u128, ClientView>,
    pub heartbeat_interval_ms: u64,
    pub ttl_ms: u64,
    pub tags: Seq<Seq<char>>,
}

/// The acknowledgement that refuses a subscription.
pub open spec fn refusal(client_id: u128) -> PayloadView {
    PayloadView::SubscribeAck {
        subscription_id: client_id,
        success: false,
        error: Some("Expected Subscribe message"@),
        current_value: None,
    }
}

impl PublisherView {
    /// A publisher that has published nothing and has no clients.
    pub open spec fn initial(
        service_name: Seq<char>,
        bind_address: Seq<char>,
        registry_address: Seq<char>,
    ) -> PublisherView {
        PublisherView {
            service_name,
            bind_address,
            registry_address,
            schema_id: None,
            current_value: None,
            sequence_number: 0,
            clients: Map::empty(),
            heartbeat_interval_ms: DEFAULT_HEARTBEAT_INTERVAL_MS,
            ttl_ms: DEFAULT_TTL_MS,
            tags: Seq::empty(),
        }
    }

    /// After `value` was published: it is the current value, and the
    /// sequence number is one more.
    pub open spec fn publish(self, value: ValueView) -> PublisherView {
        PublisherView {
            current_value: Some(value),
            sequence_number: wrapping_inc(self.sequence_number),
            ..self
        }
    }

    /// After a sequence of values was published.
    pub open spec fn after_publishes(self, values: Seq<ValueView>) -> PublisherView
        decreases values.len(),
    {
        if values.len() == 0 {
            self
        } else {
            self.after_publishes(values.drop_last()).publish(values.last())
        }
    }

    /// After a client connected under this id: it has no subscriptions yet,
    /// and takes the place of any client that had the id.
    pub open spec fn accept(self, id: u128) -> PublisherView {
        PublisherView {
            clients: self.clients.insert(id, ClientView { subscriptions: Seq::empty() }),
            ..self
        }
    }

    /// After the client of this id was dropped.
    pub open spec fn drop_client(self, id: u128) -> PublisherView {
        PublisherView { clients: self.clients.remove(id), ..self }
    }

    /// After the client of this id subscribed to `topic`: the subscription
    /// takes the place of any that it had to that topic.
    pub open spec fn subscribe(
        self,
        id: u128,
        topic: Seq<char>,
        subscription: SubscriptionView,
    ) -> PublisherView {
        PublisherView {
            clients: self.clients.insert(
                id,
                ClientView {
                    subscriptions: without_topic(self.clients[id].subscriptions, topic).push(
                        (topic, subscription),
                    ),
                },
            ),
            ..self
        }
    }

    /// After a value was sent at `now` to the client of this id on its
    /// subscription to `topic`.
    pub open spec fn sent(self, id: u128, topic: Seq<char>, now: u64, value: ValueView) -> PublisherView {
        if self.clients.contains_key(id) {
            PublisherView {
                clients: self.clients.insert(
                    id,
                    ClientView {
                        subscriptions: sent_on_topic(
                            self.clients[id].subscriptions,
                            topic,
                            now,
                            value,
                        ),
                    },
                ),
                ..self
            }
        } else {
            self
        }
    }

    /// The value that is replayed to a new subscriber: the current value,
    /// if the subscriber asks for durability.
    pub open spec fn replay(self, durability: bool) -> Option<ValueView> {
        if durability {
            self.current_value
        } else {
            None
        }
    }

    /// The subscription that a new subscriber starts with: one to which
    /// nothing was sent, or to which the replayed value was sent at `now`.
    pub open spec fn starting(self, mode: SubscriptionMode, durability: bool, now: u64) -> SubscriptionView {
        match self.replay(durability) {
            Some(value) => SubscriptionView::fresh(mode).mark_sent(now, value),
            None => SubscriptionView::fresh(mode),
        }
    }

    /// The publisher after the first message of a client was handled at
    /// `now`; `received` is none where no message could be read.
    ///
    /// A client that is not connected changes nothing. A `Subscribe` records
    /// the subscription. Anything else drops the client.
    pub open spec fn after_intake(self, id: u128, received: Option<PayloadView>, now: u64) -> PublisherView {
        if !has_client(self.clients, id) {
            self
        } else {
            match received {
                Some(PayloadView::Subscribe { service, mode, qos, .. }) => self.subscribe(
                    id,
                    service,
                    self.starting(mode, qos.durability, now),
                ),
                _ => self.drop_client(id),
            }
        }
    }

    /// What is answered to the first message of a client: nothing to a
    /// client that is not connected; to a `Subscribe` an acknowledgement,
    /// with the current value if the subscriber asks for durability; to
    /// anything else a refusal.
    pub open spec fn intake_reply(self, id: u128, received: Option<PayloadView>) -> Option<PayloadView> {
        if !has_client(self.clients, id) {
            None
        } else {
            match received {
                Some(PayloadView::Subscribe { qos, .. }) => Some(
                    PayloadView::SubscribeAck {
                        subscription_id: id,
                        success: true,
                        error: None,
                        current_value: self.replay(qos.durability),
                    },
                ),
                _ => Some(refusal(id)),
            }
        }
    }

    /// After the caller reported on a delivery: a successful one is
    /// recorded on the subscription, a failed one drops the client.
    pub open spec fn after_delivery(
        self,
        id: u128,
        topic: Seq<char>,
        now: u64,
        value: ValueView,
        ok: bool,
    ) -> PublisherView {
        if ok {
            self.sent(id, topic, now, value)
        } else {
            self.drop_client(id)
        }
    }

    /// Whether `list` is what is due at `now` for the current value, under
    /// the current sequence number: nothing before the first publication.
    pub open spec fn fans_out(self, now: u64, list: Seq<(u128, PayloadView)>) -> bool {
        match self.current_value {
            Some(value) => is_fan_out(self.clients, now, self.sequence_number, value, list),
            None => list == Seq::<(u128, PayloadView)>::empty(),
        }
    }

    /// The message that registers the publisher at `address`.
    pub open spec fn registration(self, address: Seq<char>) -> PayloadView {
        PayloadView::RegisterService {
            service: self.service_name,
            address,
            service_type: ServiceType::Publisher,
            schema_id: self.schema_id,
            ttl_ms: self.ttl_ms,
            tags: self.tags,
        }
    }

    /// The message that renews the registration at `address`: the
    /// registration again, so that the entry that it replaces is kept as it
    /// was but for its lease.
    pub open spec fn heartbeat(self, address: Seq<char>) -> PayloadView {
        self.registration(address)
    }

    /// The same publisher with another lease. The registration is renewed
    /// at half the lease.
    pub open spec fn with_ttl(self, ttl_ms: u64) -> PublisherView {
        PublisherView { ttl_ms, heartbeat_interval_ms: ttl_ms / 2, ..self }
    }
}

/// What the registry's answer to a registration means: none where the
/// service is registered, or the error. A refusal carries the registry's
/// reason; an answer of another kind is a protocol error.
pub open spec fn registration_error(response: PayloadView) -> Option<ErrorView> {
    match response {
        PayloadView::ServiceRegistered { success, error, .. } => if success {
            None
        } else {
            Some(
                ErrorView::Registry(
                    match error {
                        Some(reason) => reason,
                        None => "Registration failed"@,
                    },
                ),
            )
        },
        _ => Some(ErrorView::Protocol("Unexpected registry response"@)),
    }
}

/// Reads the registry's answer to a registration.
pub fn registration_outcome(response: &MessagePayload) -> (r: Result<(), WindError>)
    ensures
        match registration_error(response@) {
            None => r is Ok,
            Some(e) => r is Err && r->Err_0@ == e,
        },
{
    match response {
        MessagePayload::ServiceRegistered { success, error, .. } => {
            if *success {
                Ok(())
            } else {
                match error {
                    Some(reason) => Err(WindError::Registry(reason.clone())),
                    None => Err(WindError::Registry(String::from_str("Registration failed"))),
                }
            }
        },
        _ => Err(WindError::Protocol(String::from_str("Unexpected registry response"))),
    }
}

/// The bookkeeping of a publisher.
pub struct Publisher {
    service_name: String,
    bind_address: String,
    registry_address: String,
    schema_id: Option<String>,
    current_value: Option<WindValue>,
    sequence_number: u64,
    clients: HashMap<u128, ActiveClient>,
    heartbeat_interval_ms: u64,
    ttl_ms: u64,
    tags: Vec<String>,
}

impl View for Publisher {
    type V = PublisherView;

    closed spec fn view(&self) -> PublisherView {
        PublisherView {
            service_name: self.service_name@,
            bind_address: self.bind_address@,
            registry_address: self.registry_address@,
            schema_id: text_opt(self.schema_id),
            current_value: value_opt_view(self.current_value),
            sequence_number: self.sequence_number,
            clients: clients_view(self.clients@),
            heartbeat_interval_ms: self.heartbeat_interval_ms,
            ttl_ms: self.ttl_ms,
            tags: texts(self.tags@),
        }
    }
}

/// The ids of the clients, each once, in the order in which the map is
/// walked.
fn client_ids(clients: &HashMap<u128, ActiveClient>) -> (r: Vec<u128>)
    ensures
        is_round(clients_view(clients@), r@),
{
    broadcast use vstd::std_specs::hash::group_hash_axioms;

    let ghost all = clients.keys().remaining().unref();
    let mut ids: Vec<u128> = Vec::new();
    for k in iter: clients.keys()
        invariant
            all == iter.seq().unref(),
            ids@ == all.take(iter.index() as int),
    {
        ids.push(*k);
        assert(all.take(iter.index() + 1) =~= all.take(iter.index() as int).push(*k));
    }
    assert(ids@ =~= all);
    assert(clients_view(clients@).dom() =~= clients@.dom());
    ids
}

fn remove_topic(subscriptions: &mut Vec<(String, ClientSubscription)>, topic: &str)
    ensures
        subscriptions_view(final(subscriptions)@) == without_topic(
            subscriptions_view(old(subscriptions)@),
            topic@,
        ),
{
    let ghost before = subscriptions_view(subscriptions@);
    let ghost mut removed: int = 0;
    let mut i: usize = 0;
    assert(subscriptions_view(subscriptions@).take(0) =~= without_topic(before.take(0), topic@));
    while i < subscriptions.len()
        invariant
            0 <= removed,
            i + removed <= before.len(),
            subscriptions@.len() == before.len() - removed,
            subscriptions_view(subscriptions@).take(i as int) == without_topic(
                before.take(i + removed),
                topic@,
            ),
            forall|j: int|
                i <= j < subscriptions@.len() ==> (subscriptions@[j].0@, subscriptions@[j].1@)
                    == before[j + removed],
        decreases subscriptions.len() - i,
    {
        let ghost prefix = subscriptions_view(subscriptions@).take(i as int);
        assert(before.take(i + removed + 1).drop_last() =~= before.take(i + removed));
        assert(before.take(i + removed + 1).last() == (
            subscriptions@[i as int].0@,
            subscriptions@[i as int].1@,
        ));
        if same_text(subscriptions[i].0.as_str(), topic) {
            let ghost prior = subscriptions@;
            let _ = subscriptions.remove(i);
            proof {
                removed = removed + 1;
                assert(subscriptions_view(subscriptions@).take(i as int) =~= prefix);
                assert forall|j: int| i <= j < subscriptions@.len() implies (
                    subscriptions@[j].0@,
                    subscriptions@[j].1@,
                ) == before[j + removed] by {
                    assert(subscriptions@[j] == prior[j + 1]);
                }
            }
        } else {
            assert(subscriptions_view(subscriptions@).take(i + 1) =~= prefix.push(
                (subscriptions@[i as int].0@, subscriptions@[i as int].1@),
            ));
            i = i + 1;
        }
    }
    assert(subscriptions_view(subscriptions@).take(i as int) =~= subscriptions_view(
        subscriptions@,
    ));
    assert(before.take(i + removed) =~= before);
}

impl Publisher {
    /// A publisher for a service, with the default lease and no schema or
    /// tags.
    pub fn new(service_name: String, bind_address: String, registry_address: String) -> (r:
        Publisher)
        ensures
            r@ == PublisherView::initial(service_name@, bind_address@, registry_address@),
    {
        let r = Publisher {
            service_name,
            bind_address,
            registry_address,
            schema_id: None,
            current_value: None,
            sequence_number: 0,
            clients: HashMap::new(),
            heartbeat_interval_ms: DEFAULT_HEARTBEAT_INTERVAL_MS,
            ttl_ms: DEFAULT_TTL_MS,
            tags: Vec::new(),
        };
        assert(r@.clients =~= Map::empty());
        assert(r@.tags =~= Seq::empty());
        r
    }

    /// The same publisher with a schema id.
    pub fn with_schema(self, schema_id: String) -> (r: Publisher)
        ensures
            r@ == (PublisherView { schema_id: Some(schema_id@), ..self@ }),
    {
        let mut p = self;
        p.schema_id = Some(schema_id);
        p
    }

    /// The same publisher with another lease, renewed at half the lease.
    pub fn with_ttl_ms(self, ttl_ms: u64) -> (r: Publisher)
        ensures
            r@ == self@.with_ttl(ttl_ms),
            r@.heartbeat_interval_ms * 2 <= r@.ttl_ms,
    {
        let mut p = self;
        p.ttl_ms = ttl_ms;
        p.heartbeat_interval_ms = ttl_ms / 2;
        p
    }

    /// The same publisher with tags.
    pub fn with_tags(self, tags: Vec<String>) -> (r: Publisher)
        ensures
            r@ == (PublisherView { tags: texts(tags@), ..self@ }),
    {
        let mut p = self;
        p.tags = tags;
        p
    }

    /// Publishes a value: it becomes the current value and the sequence
    /// number goes up by one. Never fails.
    pub fn publish(&mut self, value: WindValue) -> (r: Result<(), WindError>)
        ensures
            r is Ok,
            final(self)@ == old(self)@.publish(value@),
    {
        self.sequence_number = if self.sequence_number == u64::MAX {
            0
        } else {
            self.sequence_number + 1
        };
        self.current_value = Some(value);
        Ok(())
    }

    /// A copy of the current value, if anything was published.
    pub fn current_value(&self) -> (r: Option<WindValue>)
        ensures
            value_opt_view(r) == self@.current_value,
    {
        match &self.current_value {
            Some(v) => Some(v.clone()),
            None => None,
        }
    }

    /// The sequence number of the last publication; zero before the first.
    pub fn sequence_number(&self) -> (r: u64)
        ensures
            r == self@.sequence_number,
    {
        self.sequence_number
    }

    /// The number of connected clients.
    pub fn subscriber_count(&self) -> (r: usize)
        ensures
            r == self@.clients.len(),
    {
        broadcast use vstd::std_specs::hash::group_hash_axioms;

        assert(self@.clients.dom() =~= self.clients@.dom());
        self.clients.len()
    }

    /// Whether a client of this id is connected.
    pub fn has_client(&self, id: u128) -> (r: bool)
        ensures
            r == has_client(self@.clients, id),
    {
        broadcast use vstd::std_specs::hash::group_hash_axioms;

        self.clients.contains_key(&id)
    }

    /// The address to bind to.
    pub fn bind_address(&self) -> (r: &str)
        ensures
            r@ == self@.bind_address,
    {
        self.bind_address.as_str()
    }

    /// The address of the registry.
    pub fn registry_address(&self) -> (r: &str)
        ensures
            r@ == self@.registry_address,
    {
        self.registry_address.as_str()
    }

    /// The milliseconds between two renewals of the registration.
    pub fn heartbeat_interval_ms(&self) -> (r: u64)
        ensures
            r == self@.heartbeat_interval_ms,
    {
        self.heartbeat_interval_ms
    }

    /// The message that registers the publisher at the address that it
    /// listens on.
    pub fn registration(&self, actual_address: &str) -> (r: MessagePayload)
        ensures
            r@ == self@.registration(actual_address@),
    {
        MessagePayload::RegisterService {
            service: self.service_name.clone(),
            address: actual_address.to_owned(),
            service_type: ServiceType::Publisher,
            schema_id: clone_text_opt(&self.schema_id),
            ttl_ms: self.ttl_ms,
            tags: clone_strings(&self.tags),
        }
    }

    /// The message that renews the registration.
    pub fn heartbeat(&self, address: &str) -> (r: MessagePayload)
        ensures
            r@ == self@.heartbeat(address@),
    {
        self.registration(address)
    }

    /// Takes in a client that connected, under the id that the caller gave
    /// it.
    pub fn accept(&mut self, id: u128)
        ensures
            final(self)@ == old(self)@.accept(id),
    {
        broadcast use vstd::std_specs::hash::group_hash_axioms;

        let client = ActiveClient { subscriptions: Vec::new() };
        assert(client@.subscriptions =~= Seq::empty());
        let _ = self.clients.insert(id, client);
        assert(self@.clients =~= old(self)@.accept(id).clients);
    }

    /// Drops a client, with its subscriptions.
    pub fn drop_client(&mut self, id: u128)
        ensures
            final(self)@ == old(self)@.drop_client(id),
    {
        broadcast use vstd::std_specs::hash::group_hash_axioms;

        let _ = self.clients.remove(&id);
        assert(self@.clients =~= old(self)@.drop_client(id).clients);
    }

    /// Handles the first message of a client at `now`, and returns what to
    /// answer. `received` is none where no message could be read. Where the
    /// answer cannot be written, the caller drops the client.
    pub fn handle_subscribe(&mut self, id: u128, received: Option<MessagePayload>, now: u64) -> (r:
        Option<MessagePayload>)
        ensures
            final(self)@ == old(self)@.after_intake(
                id,
                crate::registry_server::payload_opt_view(received),
                now,
            ),
            crate::registry_server::payload_opt_view(r) == old(self)@.intake_reply(
                id,
                crate::registry_server::payload_opt_view(received),
            ),
    {
        broadcast use vstd::std_specs::hash::group_hash_axioms;

        let mut client = match self.clients.remove(&id) {
            Some(client) => client,
            None => {
                assert(self@.clients =~= old(self)@.clients);
                return None;
            },
        };
        match received {
            Some(MessagePayload::Subscribe { service, mode, qos, .. }) => {
                let replayed = if qos.durability {
                    self.current_value()
                } else {
                    None
                };
                let mut subscription = ClientSubscription::new(mode);
                match &replayed {
                    Some(value) => {
                        subscription.mark_sent(now, value);
                    },
                    None => {},
                }
                let ghost before = client@.subscriptions;
                remove_topic(&mut client.subscriptions, service.as_str());
                let ghost kept = client@.subscriptions;
                let ghost started = subscription@;
                client.subscriptions.push((service.clone(), subscription));
                assert(client@.subscriptions =~= without_topic(before, service@).push(
                    (service@, started),
                ));
                let _ = self.clients.insert(id, client);
                assert(self@.clients =~= old(self)@.subscribe(id, service@, started).clients);
                Some(
                    MessagePayload::SubscribeAck {
                        subscription_id: id,
                        success: true,
                        error: None,
                        current_value: replayed,
                    },
                )
            },
            _ => {
                assert(self@.clients =~= old(self)@.drop_client(id).clients);
                Some(
                    MessagePayload::SubscribeAck {
                        subscription_id: id,
                        success: false,
                        error: Some(String::from_str("Expected Subscribe message")),
                        current_value: None,
                    },
                )
            },
        }
    }

    /// The messages that are due when `value`, published under `sequence`,
    /// is offered at `now`: for each client in turn, one for each of its
    /// subscriptions whose mode asks for it. In which order the clients
    /// come is left open.
    pub fn due_deliveries(&self, now: u64, sequence: u64, value: &WindValue) -> (r: Vec<Delivery>)
        ensures
            is_fan_out(self@.clients, now, sequence, value@, deliveries_view(r@)),
    {
        broadcast use vstd::std_specs::hash::group_hash_axioms;

        let ghost clients = clients_view(self.clients@);
        let ids = client_ids(&self.clients);
        let mut due: Vec<Delivery> = Vec::new();
        let mut i: usize = 0;
        assert(deliveries_view(due@) =~= due_in_order(clients, ids@.take(0), now, sequence, value@));
        while i < ids.len()
            invariant
                i <= ids.len(),
                clients == clients_view(self.clients@),
                is_round(clients, ids@),
                deliveries_view(due@) == due_in_order(
                    clients,
                    ids@.take(i as int),
                    now,
                    sequence,
                    value@,
                ),
            decreases ids.len() - i,
        {
            let id = ids[i];
            assert(ids@.to_set().contains(id));
            assert(self.clients@.dom().contains(id));
            let client = match self.clients.get(&id) {
                Some(client) => client,
                None => {
                    i = i + 1;
                    assert(false);
                    continue ;
                },
            };
            assert(clients[id] == client@);
            let ghost done = deliveries_view(due@);
            let mut j: usize = 0;
            assert(ids@.take(i + 1).drop_last() =~= ids@.take(i as int));
            assert(ids@.take(i + 1).last() == id);
            assert(deliveries_view(due@) =~= done + due_to_client(
                id,
                client@,
                0,
                now,
                sequence,
                value@,
            ));
            while j < client.subscriptions.len()
                invariant
                    j <= client.subscriptions.len(),
                    deliveries_view(due@) == done + due_to_client(
                        id,
                        client@,
                        j as int,
                        now,
                        sequence,
                        value@,
                    ),
                decreases client.subscriptions.len() - j,
            {
                let ghost so_far = deliveries_view(due@);
                let ghost part = due_to_client(id, client@, j as int, now, sequence, value@);
                assert(client@.subscriptions[j as int] == (
                    client.subscriptions@[j as int].0@,
                    client.subscriptions@[j as int].1@,
                ));
                if client.subscriptions[j].1.should_send(now, value) {
                    due.push(
                        Delivery {
                            client: id,
                            message: MessagePayload::Publish {
                                service: client.subscriptions[j].0.clone(),
                                sequence,
                                value: value.clone(),
                                schema_id: None,
                            },
                        },
                    );
                    assert(deliveries_view(due@) =~= so_far.push(
                        (id, publication(client.subscriptions@[j as int].0@, sequence, value@)),
                    ));
                    assert(so_far.push(
                        (id, publication(client.subscriptions@[j as int].0@, sequence, value@)),
                    ) =~= done + part.push(
                        (id, publication(client.subscriptions@[j as int].0@, sequence, value@)),
                    ));
                }
                j = j + 1;
            }
            i = i + 1;
        }
        assert(ids@.take(i as int) =~= ids@);
        due
    }

    /// The messages that are due at `now` for the current value under the
    /// current sequence number; none before the first publication.
    pub fn due_now(&self, now: u64) -> (r: Vec<Delivery>)
        ensures
            self@.fans_out(now, deliveries_view(r@)),
    {
        match &self.current_value {
            Some(value) => self.due_deliveries(now, self.sequence_number, value),
            None => {
                let none: Vec<Delivery> = Vec::new();
                assert(deliveries_view(none@) =~= Seq::empty());
                none
            },
        }
    }

    /// Records the outcome of a delivery to a client on a topic at `now`:
    /// where the write succeeded, what was sent and when; where it failed,
    /// the client is dropped.
    pub fn record_delivery(&mut self, id: u128, topic: &str, now: u64, value: &WindValue, ok: bool)
        ensures
            final(self)@ == old(self)@.after_delivery(id, topic@, now, value@, ok),
    {
        broadcast use vstd::std_specs::hash::group_hash_axioms;

        let mut client = match self.clients.remove(&id) {
            Some(client) => client,
            None => {
                assert(self@.clients =~= old(self)@.clients);
                assert(old(self)@.clients.remove(id) =~= old(self)@.clients);
                return ;
            },
        };
        if !ok {
            assert(self@.clients =~= old(self)@.drop_client(id).clients);
            return ;
        }
        let ghost subs = subscriptions_view(client.subscriptions@);
        let mut j: usize = 0;
        while j < client.subscriptions.len()
            invariant
                j <= client.subscriptions.len(),
                client.subscriptions@.len() == subs.len(),
                forall|k: int|
                    0 <= k < j ==> (client.subscriptions@[k].0@, client.subscriptions@[k].1@)
                        == sent_on_topic(subs, topic@, now, value@)[k],
                forall|k: int|
                    j <= k < subs.len() ==> (
                        client.subscriptions@[k].0@,
                        client.subscriptions@[k].1@,
                    ) == subs[k],
            decreases client.subscriptions.len() - j,
        {
            if same_text(client.subscriptions[j].0.as_str(), topic) {
                let (name, mut subscription) = client.subscriptions.remove(j);
                subscription.mark_sent(now, value);
                client.subscriptions.insert(j, (name, subscription));
            }
            j = j + 1;
        }
        assert(client@.subscriptions =~= sent_on_topic(subs, topic@, now, value@));
        let _ = self.clients.insert(id, client);
        assert(self@.clients =~= old(self)@.sent(id, topic@, now, value@).clients);
    }
}

/// Every message that is due to a client is for that client and carries
/// the value under the sequence number given.
pub proof fn lemma_due_to_client(
    id: u128,
    client: ClientView,
    upto: int,
    now: u64,
    sequence: u64,
    value: ValueView,
    k: int,
)
    requires
        0 <= k < due_to_client(id, client, upto, now, sequence, value).len(),
    ensures
        due_to_client(id, client, upto, now, sequence, value)[k].0 == id,
        due_to_client(id, client, upto, now, sequence, value)[k].1 is Publish,
        due_to_client(id, client, upto, now, sequence, value)[k].1->sequence == sequence,
        due_to_client(id, client, upto, now, sequence, value)[k].1->value == value,
    decreases upto,
{
    if 0 < upto <= client.subscriptions.len() {
        let rest = due_to_client(id, client, upto - 1, now, sequence, value);
        if k < rest.len() {
            lemma_due_to_client(id, client, upto - 1, now, sequence, value, k);
        }
    }
}

/// Every message that is due carries the value under the sequence number
/// given, to one of the clients of the round.
pub proof fn lemma_due_in_order(
    clients: Map<u128, ClientView>,
    ids: Seq<u128>,
    now: u64,
    sequence: u64,
    value: ValueView,
    k: int,
)
    requires
        0 <= k < due_in_order(clients, ids, now, sequence, value).len(),
    ensures
        ids.contains(due_in_order(clients, ids, now, sequence, value)[k].0),
        due_in_order(clients, ids, now, sequence, value)[k].1 is Publish,
        due_in_order(clients, ids, now, sequence, value)[k].1->sequence == sequence,
        due_in_order(clients, ids, now, sequence, value)[k].1->value == value,
    decreases ids.len(),
{
    if ids.len() > 0 {
        let rest = due_in_order(clients, ids.drop_last(), now, sequence, value);
        if k < rest.len() {
            lemma_due_in_order(clients, ids.drop_last(), now, sequence, value, k);
            let id = rest[k].0;
            let at = choose|at: int| 0 <= at < ids.drop_last().len() && ids.drop_last()[at] == id;
            assert(ids[at] == id);
        } else {
            let last = clients[ids.last()];
            lemma_due_to_client(
                ids.last(),
                last,
                last.subscriptions.len() as int,
                now,
                sequence,
                value,
                k - rest.len(),
            );
            assert(ids[ids.len() - 1] == ids.last());
        }
    }
}

/// While the counter does not wrap around, sequence numbers go up strictly:
/// of two publications, the later has the greater number, and so has every
/// message that is due for it.
pub proof fn law_sequence_increases(
    p: PublisherView,
    values: Seq<ValueView>,
    i: int,
    j: int,
    at_i: u64,
    at_j: u64,
    due_i: Seq<(u128, PayloadView)>,
    due_j: Seq<(u128, PayloadView)>,
    a: int,
    b: int,
)
    requires
        p.sequence_number + values.len() <= u64::MAX,
        0 < i < j <= values.len(),
        p.after_publishes(values.take(i)).fans_out(at_i, due_i),
        p.after_publishes(values.take(j)).fans_out(at_j, due_j),
        0 <= a < due_i.len(),
        0 <= b < due_j.len(),
    ensures
        p.after_publishes(values.take(i)).sequence_number < p.after_publishes(
            values.take(j),
        ).sequence_number,
        due_i[a].1->sequence < due_j[b].1->sequence,
{
    lemma_sequence_after(p, values.take(i));
    lemma_sequence_after(p, values.take(j));
    let pi = p.after_publishes(values.take(i));
    let pj = p.after_publishes(values.take(j));
    law_current_value(p, values.take(i));
    law_current_value(p, values.take(j));
    let vi = pi.current_value->Some_0;
    let vj = pj.current_value->Some_0;
    let ids_i = choose|ids: Seq<u128>| #[trigger]
        is_round(pi.clients, ids) && due_i == due_in_order(
            pi.clients,
            ids,
            at_i,
            pi.sequence_number,
            vi,
        );
    let ids_j = choose|ids: Seq<u128>| #[trigger]
        is_round(pj.clients, ids) && due_j == due_in_order(
            pj.clients,
            ids,
            at_j,
            pj.sequence_number,
            vj,
        );
    lemma_due_in_order(pi.clients, ids_i, at_i, pi.sequence_number, vi, a);
    lemma_due_in_order(pj.clients, ids_j, at_j, pj.sequence_number, vj, b);
}

/// While the counter does not wrap around, it counts the publications.
pub proof fn lemma_sequence_after(p: PublisherView, values: Seq<ValueView>)
    requires
        p.sequence_number + values.len() <= u64::MAX,
    ensures
        p.after_publishes(values).sequence_number == p.sequence_number + values.len(),
    decreases values.len(),
{
    if values.len() > 0 {
        lemma_sequence_after(p, values.drop_last());
    }
}

/// The current value is the value published last. Publishing leaves the
/// clients and their subscriptions as they are.
pub proof fn law_current_value(p: PublisherView, values: Seq<ValueView>)
    ensures
        values.len() > 0 ==> p.after_publishes(values).current_value == Some(values.last()),
        p.after_publishes(values).clients == p.clients,
    decreases values.len(),
{
    if values.len() > 0 {
        law_current_value(p, values.drop_last());
    }
}

} // verus!
