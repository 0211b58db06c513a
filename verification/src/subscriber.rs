//! The client side of discovery and subscription: what to ask, and what each
//! answer means.
//!
//! A subscription proceeds in three phases. The client asks the registry
//! for the service; it connects to the service and asks to subscribe; then
//! it receives published values until the stream ends. The caller does the
//! connecting, sending and receiving, and hands each message that arrives
//! to [`Subscriber::advance`], which says what to do next.

use crate::connection::{Connection, ConnectionView};
use crate::error::{ErrorView, WindError};
use crate::protocol::{value_opt_view, MessagePayload, PayloadView};
use crate::text::{clone_text_opt, same_text, text_opt};
use crate::types::{infos_view, QosParams, ServiceInfo, ServiceInfoView, SubscriptionMode};
use crate::value::{ValueView, WindValue};
use std::collections::HashMap;
use vstd::prelude::*;
use vstd::string::StringExecFns;

verus! {

/// The first of the services with this name, at or after `from`.
pub open spec fn first_named(services: Seq<ServiceInfoView>, name: Seq<char>, from: int) -> Option<
    ServiceInfoView,
>
    decreases services.len() - from,
{
    if from < 0 || from >= services.len() {
        None
    } else if services[from].name == name {
        Some(services[from])
    } else {
        first_named(services, name, from + 1)
    }
}

/// What the registry's answer to the discovery of one service means: the
/// service of that name, or the error.
pub open spec fn chosen(response: PayloadView, name: Seq<char>) -> Result<
    ServiceInfoView,
    ErrorView,
> {
    match response {
        PayloadView::ServicesDiscovered { services } => match first_named(services, name, 0) {
            Some(info) => Ok(info),
            None => Err(ErrorView::ServiceNotFound(name)),
        },
        PayloadView::Error { error, .. } => Err(ErrorView::Registry(error)),
        _ => Err(ErrorView::Protocol("Unexpected response"@)),
    }
}

/// What the registry's answer to a discovery by pattern means: the services
/// found, or the error.
pub open spec fn discovered(response: PayloadView) -> Result<Seq<ServiceInfoView>, ErrorView> {
    match response {
        PayloadView::ServicesDiscovered { services } => Ok(services),
        PayloadView::Error { error, .. } => Err(ErrorView::Registry(error)),
        _ => Err(ErrorView::Protocol("Unexpected response"@)),
    }
}

/// What a publisher's answer to a subscription means: the value that it
/// replays, if any, or the error.
pub open spec fn acknowledgement(ack: PayloadView) -> Result<Option<ValueView>, ErrorView> {
    match ack {
        PayloadView::SubscribeAck { success, error, current_value, .. } => if success {
            Ok(current_value)
        } else {
            Err(
                ErrorView::Protocol(
                    match error {
                        Some(reason) => reason,
                        None => "Subscription failed"@,
                    },
                ),
            )
        },
        _ => Err(ErrorView::Protocol("Expected SubscribeAck message"@)),
    }
}

/// What to do with a message that arrives on a subscription.
#[derive(Debug)]
pub enum Reception {
    /// Hand the value to the subscriber.
    Deliver(WindValue),
    /// The service reported an error: the stream ends.
    Stop,
    /// Not for the subscriber: go on.
    Ignore,
}

/// The model of a [`Reception`].
pub enum ReceptionView {
    Deliver(ValueView),
    Stop,
    Ignore,
}

impl View for Reception {
    type V = ReceptionView;

    open spec fn view(&self) -> ReceptionView {
        match self {
            Reception::Deliver(v) => ReceptionView::Deliver(v@),
            Reception::Stop => ReceptionView::Stop,
            Reception::Ignore => ReceptionView::Ignore,
        }
    }
}

/// What a message on a subscription asks for: a publication is delivered,
/// an error ends the stream, anything else is passed over.
pub open spec fn reception(payload: PayloadView) -> ReceptionView {
    match payload {
        PayloadView::Publish { value, .. } => ReceptionView::Deliver(value),
        PayloadView::Error { .. } => ReceptionView::Stop,
        _ => ReceptionView::Ignore,
    }
}

/// The phase of a subscription.
#[derive(Debug, Clone, Copy, PartialEq, Eq, Structural)]
pub enum SubscribePhase {
    /// The registry was asked for the service.
    Discovering,
    /// The service was asked to subscribe.
    AwaitingAck,
    /// Values are received.
    Streaming,
    /// The subscription has ended.
    Closed,
}

/// What happens to a subscription.
#[derive(Debug)]
pub enum SubscribeEvent {
    /// A message arrived.
    Message(MessagePayload),
    /// Receiving failed.
    Failed,
    /// The subscriber cancelled.
    Cancelled,
}

/// The model of a [`SubscribeEvent`].
pub enum SubscribeEventView {
    Message(PayloadView),
    Failed,
    Cancelled,
}

impl View for SubscribeEvent {
    type V = SubscribeEventView;

    open spec fn view(&self) -> SubscribeEventView {
        match self {
            SubscribeEvent::Message(p) => SubscribeEventView::Message(p@),
            SubscribeEvent::Failed => SubscribeEventView::Failed,
            SubscribeEvent::Cancelled => SubscribeEventView::Cancelled,
        }
    }
}

/// What the caller is to do next for a subscription.
#[derive(Debug)]
pub enum SubscribeAction {
    /// Connect to the address and send the request.
    Connect { address: String, request: MessagePayload },
    /// The subscription stands: hand the replayed value, if any, to the
    /// subscriber, and receive.
    Established { replayed: Option<WindValue> },
    /// Hand the value to the subscriber.
    Deliver(WindValue),
    /// Nothing to do: go on receiving.
    Continue,
    /// The subscription could not be made.
    Fail(WindError),
    /// The stream has ended: forget the subscription.
    Close,
}

/// The model of a [`SubscribeAction`].
pub enum SubscribeActionView {
    Connect { address: Seq<char>, request: PayloadView },
    Established { replayed: Option<ValueView> },
    Deliver(ValueView),
    Continue,
    Fail(ErrorView),
    Close,
}

impl View for SubscribeAction {
    type V = SubscribeActionView;

    open spec fn view(&self) -> SubscribeActionView {
        match self {
            SubscribeAction::Connect { address, request } => SubscribeActionView::Connect {
                address: address@,
                request: request@,
            },
            SubscribeAction::Established { replayed } => SubscribeActionView::Established {
                replayed: value_opt_view(*replayed),
            },
            SubscribeAction::Deliver(v) => SubscribeActionView::Deliver(v@),
            SubscribeAction::Continue => SubscribeActionView::Continue,
            SubscribeAction::Fail(e) => SubscribeActionView::Fail(e@),
            SubscribeAction::Close => SubscribeActionView::Close,
        }
    }
}

/// The request that subscribes to a service.
pub open spec fn subscription_request(
    service: Seq<char>,
    mode: SubscriptionMode,
    qos: QosParams,
    schema_id: Option<Seq<char>>,
) -> PayloadView {
    PayloadView::Subscribe { service, mode, qos, schema_id }
}

/// The phase after an event, and what is to be done.
///
/// While discovering, the registry's answer either names the service, which
/// is then to be connected to, or fails the subscription. While awaiting
/// the acknowledgement, the answer either establishes the subscription or
/// fails it. While streaming, publications are delivered, an error message
/// closes, other messages are passed over. A failure to receive, or a
/// cancellation, closes at any time; nothing happens once closed.
pub open spec fn advanced(
    phase: SubscribePhase,
    event: SubscribeEventView,
    service: Seq<char>,
    mode: SubscriptionMode,
    qos: QosParams,
) -> (SubscribePhase, SubscribeActionView) {
    match (phase, event) {
        (SubscribePhase::Closed, _) => (SubscribePhase::Closed, SubscribeActionView::Close),
        (_, SubscribeEventView::Failed) => (SubscribePhase::Closed, SubscribeActionView::Close),
        (_, SubscribeEventView::Cancelled) => (SubscribePhase::Closed, SubscribeActionView::Close),
        (SubscribePhase::Discovering, SubscribeEventView::Message(response)) => match chosen(
            response,
            service,
        ) {
            Ok(info) => (
                SubscribePhase::AwaitingAck,
                SubscribeActionView::Connect {
                    address: info.address,
                    request: subscription_request(service, mode, qos, info.schema_id),
                },
            ),
            Err(e) => (SubscribePhase::Closed, SubscribeActionView::Fail(e)),
        },
        (SubscribePhase::AwaitingAck, SubscribeEventView::Message(ack)) => match acknowledgement(
            ack,
        ) {
            Ok(replayed) => (
                SubscribePhase::Streaming,
                SubscribeActionView::Established { replayed },
            ),
            Err(e) => (SubscribePhase::Closed, SubscribeActionView::Fail(e)),
        },
        (SubscribePhase::Streaming, SubscribeEventView::Message(payload)) => match reception(
            payload,
        ) {
            ReceptionView::Deliver(value) => (
                SubscribePhase::Streaming,
                SubscribeActionView::Deliver(value),
            ),
            ReceptionView::Stop => (SubscribePhase::Closed, SubscribeActionView::Close),
            ReceptionView::Ignore => (SubscribePhase::Streaming, SubscribeActionView::Continue),
        },
    }
}

/// The client side of discovery and subscription.
pub struct Subscriber {
    /// The connection to the registry.
    pub registry_connection: Connection,
    active_subscriptions: HashMap<u128, String>,
}

/// The model of a [`Subscriber`]: the connection to the registry, and the
/// active subscriptions by id, each with the name of its service.
pub struct SubscriberView {
    pub registry_connection: ConnectionView,
    pub active_subscriptions: Map<u128, Seq<char>>,
}

impl View for Subscriber {
    type V = SubscriberView;

    closed spec fn view(&self) -> SubscriberView {
        SubscriberView {
            registry_connection: self.registry_connection@,
            active_subscriptions: self.active_subscriptions@.map_values(|s: String| s@),
        }
    }
}

impl Subscriber {
    /// A subscriber that finds services through the registry at this
    /// address.
    pub fn new(registry_address: String) -> (r: Subscriber)
        ensures
            r@.registry_connection == ConnectionView::initial(registry_address@),
            r@.active_subscriptions == Map::<u128, Seq<char>>::empty(),
    {
        let r = Subscriber {
            registry_connection: Connection::new(registry_address),
            active_subscriptions: HashMap::new(),
        };
        assert(r@.active_subscriptions =~= Map::empty());
        r
    }

    /// The number of active subscriptions.
    pub fn subscription_count(&self) -> (r: usize)
        ensures
            r == self@.active_subscriptions.len(),
    {
        broadcast use vstd::std_specs::hash::group_hash_axioms;

        assert(self@.active_subscriptions.dom() =~= self.active_subscriptions@.dom());
        self.active_subscriptions.len()
    }

    /// Records an established subscription, in place of any of that id.
    pub fn opened(&mut self, id: u128, service_name: &str)
        ensures
            final(self)@.registry_connection == old(self)@.registry_connection,
            final(self)@.active_subscriptions == old(self)@.active_subscriptions.insert(
                id,
                service_name@,
            ),
    {
        broadcast use vstd::std_specs::hash::group_hash_axioms;

        let _ = self.active_subscriptions.insert(id, service_name.to_owned());
        assert(self@.active_subscriptions =~= old(self)@.active_subscriptions.insert(
            id,
            service_name@,
        ));
    }

    /// Forgets a subscription whose stream has ended.
    pub fn closed(&mut self, id: u128)
        ensures
            final(self)@.registry_connection == old(self)@.registry_connection,
            final(self)@.active_subscriptions == old(self)@.active_subscriptions.remove(id),
    {
        broadcast use vstd::std_specs::hash::group_hash_axioms;

        let _ = self.active_subscriptions.remove(&id);
        assert(self@.active_subscriptions =~= old(self)@.active_subscriptions.remove(id));
    }

    /// The request that asks the registry for the services matching a
    /// pattern; a plain name asks for that service.
    pub fn discovery(pattern: &str) -> (r: MessagePayload)
        ensures
            r@ == (PayloadView::DiscoverServices { pattern: pattern@ }),
    {
        MessagePayload::DiscoverServices { pattern: pattern.to_owned() }
    }

    /// Reads the registry's answer to the discovery of one service: the
    /// first service of that name, or `ServiceNotFound`.
    #[verifier::loop_isolation(false)]
    pub fn chosen_service(response: MessagePayload, service_name: &str) -> (r: Result<
        ServiceInfo,
        WindError,
    >)
        ensures
            match chosen(response@, service_name@) {
                Ok(info) => r is Ok && r->Ok_0@ == info,
                Err(e) => r is Err && r->Err_0@ == e,
            },
    {
        match response {
            MessagePayload::ServicesDiscovered { services } => {
                let ghost views = infos_view(services@);
                let mut i: usize = 0;
                while i < services.len()
                    invariant
                        i <= services.len(),
                        views == infos_view(services@),
                        first_named(views, service_name@, 0) == first_named(
                            views,
                            service_name@,
                            i as int,
                        ),
                    decreases services.len() - i,
                {
                    if same_text(services[i].name.as_str(), service_name) {
                        return Ok(services[i].clone());
                    }
                    i = i + 1;
                }
                Err(WindError::ServiceNotFound(service_name.to_owned()))
            },
            MessagePayload::Error { error, .. } => Err(WindError::Registry(error)),
            _ => Err(WindError::Protocol(String::from_str("Unexpected response"))),
        }
    }

    /// Reads the registry's answer to a discovery by pattern.
    pub fn discovered_services(response: MessagePayload) -> (r: Result<Vec<ServiceInfo>, WindError>)
        ensures
            match discovered(response@) {
                Ok(services) => r is Ok && infos_view(r->Ok_0@) == services,
                Err(e) => r is Err && r->Err_0@ == e,
            },
    {
        match response {
            MessagePayload::ServicesDiscovered { services } => Ok(services),
            MessagePayload::Error { error, .. } => Err(WindError::Registry(error)),
            _ => Err(WindError::Protocol(String::from_str("Unexpected response"))),
        }
    }

    /// The request that subscribes to a service.
    pub fn subscribe_request(
        service_name: &str,
        mode: SubscriptionMode,
        qos: QosParams,
        schema_id: &Option<String>,
    ) -> (r: MessagePayload)
        ensures
            r@ == subscription_request(service_name@, mode, qos, text_opt(*schema_id)),
    {
        MessagePayload::Subscribe {
            service: service_name.to_owned(),
            mode,
            qos,
            schema_id: clone_text_opt(schema_id),
        }
    }

    /// Reads a publisher's answer to a subscription: the value that it
    /// replays, if any, or why the subscription failed.
    pub fn acknowledged(ack: MessagePayload) -> (r: Result<Option<WindValue>, WindError>)
        ensures
            match acknowledgement(ack@) {
                Ok(replayed) => r is Ok && value_opt_view(r->Ok_0) == replayed,
                Err(e) => r is Err && r->Err_0@ == e,
            },
    {
        match ack {
            MessagePayload::SubscribeAck { success, error, current_value, .. } => {
                if success {
                    Ok(current_value)
                } else {
                    match error {
                        Some(reason) => Err(WindError::Protocol(reason)),
                        None => Err(WindError::Protocol(String::from_str("Subscription failed"))),
                    }
                }
            },
            _ => Err(WindError::Protocol(String::from_str("Expected SubscribeAck message"))),
        }
    }

    /// Says what to do with a message that arrived on a subscription.
    pub fn received(payload: MessagePayload) -> (r: Reception)
        ensures
            r@ == reception(payload@),
    {
        match payload {
            MessagePayload::Publish { value, .. } => Reception::Deliver(value),
            MessagePayload::Error { .. } => Reception::Stop,
            _ => Reception::Ignore,
        }
    }

    /// Takes a subscription one step on: from its phase and what happened
    /// to the next phase and what is to be done.
    pub fn advance(
        phase: SubscribePhase,
        event: SubscribeEvent,
        service_name: &str,
        mode: SubscriptionMode,
        qos: QosParams,
    ) -> (r: (SubscribePhase, SubscribeAction))
        ensures
            (r.0, r.1@) == advanced(phase, event@, service_name@, mode, qos),
    {
        match phase {
            SubscribePhase::Closed => (SubscribePhase::Closed, SubscribeAction::Close),
            _ => match event {
                SubscribeEvent::Failed => (SubscribePhase::Closed, SubscribeAction::Close),
                SubscribeEvent::Cancelled => (SubscribePhase::Closed, SubscribeAction::Close),
                SubscribeEvent::Message(payload) => match phase {
                    SubscribePhase::Discovering => match Subscriber::chosen_service(
                        payload,
                        service_name,
                    ) {
                        Ok(info) => {
                            let request = Subscriber::subscribe_request(
                                service_name,
                                mode,
                                qos,
                                &info.schema_id,
                            );
                            (
                                SubscribePhase::AwaitingAck,
                                SubscribeAction::Connect { address: info.address, request },
                            )
                        },
                        Err(e) => (SubscribePhase::Closed, SubscribeAction::Fail(e)),
                    },
                    SubscribePhase::AwaitingAck => match Subscriber::acknowledged(payload) {
                        Ok(replayed) => (
                            SubscribePhase::Streaming,
                            SubscribeAction::Established { replayed },
                        ),
                        Err(e) => (SubscribePhase::Closed, SubscribeAction::Fail(e)),
                    },
                    SubscribePhase::Streaming => match Subscriber::received(payload) {
                        Reception::Deliver(value) => (
                            SubscribePhase::Streaming,
                            SubscribeAction::Deliver(value),
                        ),
                        Reception::Stop => (SubscribePhase::Closed, SubscribeAction::Close),
                        Reception::Ignore => (SubscribePhase::Streaming, SubscribeAction::Continue),
                    },
                    SubscribePhase::Closed => (SubscribePhase::Closed, SubscribeAction::Close),
                },
            },
        }
    }
}

} // verus!
