//! What the registry answers to each message of a client.

use crate::error::{message_of, ErrorView};
use crate::protocol::{Message, MessagePayload, PayloadView};
use crate::registry::{
    is_invalid_pattern, notifications_for, notifications_view, Notification, Registry,
    RegistryView,
};
use crate::text::join;
use crate::types::{infos_view, ServiceInfo, ServiceInfoView};
use vstd::prelude::*;

verus! {

/// The seconds between two cleanups of the registry.
pub const CLEANUP_INTERVAL_SECS: u64 = 1;

/// The seconds between two reports of the counters.
pub const METRICS_INTERVAL_SECS: u64 = 30;

/// What handling a message asks of the connection: a reply to send, if any,
/// and the notifications to pass on to watchers.
#[derive(Debug)]
pub struct Handled {
    pub reply: Option<MessagePayload>,
    pub notifications: Vec<Notification>,
}

/// The model of an optional payload.
pub open spec fn payload_opt_view(o: Option<MessagePayload>) -> Option<PayloadView> {
    match o {
        Some(p) => Some(p@),
        None => None,
    }
}

/// The service that a registration message describes.
pub open spec fn described(payload: PayloadView) -> ServiceInfoView
    recommends
        payload is RegisterService,
{
    ServiceInfoView {
        name: payload->RegisterService_service,
        address: payload->address,
        service_type: payload->service_type,
        schema_id: payload->RegisterService_schema_id,
        ttl_ms: payload->ttl_ms,
        tags: payload->tags,
    }
}

/// The registry after a message was handled at `now`. Only a registration
/// changes it.
pub open spec fn registry_after(s: RegistryView, payload: PayloadView, now: u64) -> RegistryView {
    if payload is RegisterService {
        s.register(described(payload), payload->ttl_ms, now)
    } else {
        s
    }
}

/// Whether `reply` is what the registry answers to `payload` at `now`.
///
/// A registration is confirmed. A discovery is answered with the services
/// that match, or with an error where the pattern is invalid. A ping is
/// answered with a pong. Any other message gets no answer.
pub open spec fn is_reply(
    s: RegistryView,
    payload: PayloadView,
    now: u64,
    reply: Option<PayloadView>,
) -> bool {
    match payload {
        PayloadView::RegisterService { service, .. } => reply == Some(
            PayloadView::ServiceRegistered { service, success: true, error: None },
        ),
        PayloadView::DiscoverServices { pattern } => match reply {
            Some(PayloadView::ServicesDiscovered { services }) => crate::pattern::glob_valid(
                pattern,
            ) && s.is_listing(services, Some(pattern), now),
            Some(PayloadView::Error { error, context }) => {
                &&& !crate::pattern::glob_valid(pattern)
                &&& exists|e: ErrorView| is_invalid_pattern(e) && error == message_of(e)
                &&& context == Some("Discovering pattern: "@ + pattern)
            },
            _ => false,
        },
        PayloadView::Ping => reply == Some(PayloadView::Pong),
        _ => reply is None,
    }
}

/// The notifications that handling a message gives rise to: those of a
/// registration, and none otherwise.
pub open spec fn notifications_after(s: RegistryView, payload: PayloadView) -> Seq<
    (u128, ServiceInfoView),
> {
    if payload is RegisterService {
        notifications_for(s.watches, described(payload))
    } else {
        Seq::empty()
    }
}

/// A registry with the address that it is served at.
pub struct RegistryServer {
    pub registry: Registry,
    pub bind_address: String,
}

impl RegistryServer {
    /// A server with an empty registry.
    pub fn new(bind_address: String) -> (r: RegistryServer)
        ensures
            r.registry.wf(),
            r.registry@ == RegistryView::empty(),
            r.bind_address == bind_address,
    {
        RegistryServer { registry: Registry::new(), bind_address }
    }

    /// The registry.
    pub fn registry(&self) -> (r: &Registry)
        ensures
            *r == self.registry,
    {
        &self.registry
    }

    /// Handles one message of a client at `now`: changes the registry as
    /// the message asks and says what to reply and whom to notify.
    pub fn handle_message(registry: &mut Registry, msg: Message, now: u64) -> (r: Handled)
        requires
            old(registry).wf(),
        ensures
            final(registry).wf(),
            final(registry)@ == registry_after(old(registry)@, msg.payload@, now),
            is_reply(old(registry)@, msg.payload@, now, payload_opt_view(r.reply)),
            notifications_view(r.notifications@) == notifications_after(
                old(registry)@,
                msg.payload@,
            ),
    {
        match msg.payload {
            MessagePayload::RegisterService {
                service,
                address,
                service_type,
                schema_id,
                ttl_ms,
                tags,
            } => {
                let info = ServiceInfo {
                    name: service.clone(),
                    address,
                    service_type,
                    schema_id,
                    ttl_ms,
                    tags,
                };
                let due = registry.register(info, ttl_ms, now);
                Handled {
                    reply: Some(
                        MessagePayload::ServiceRegistered { service, success: true, error: None },
                    ),
                    notifications: due,
                }
            },
            MessagePayload::DiscoverServices { pattern } => {
                let reply = match registry.discover_services(pattern.as_str(), now) {
                    Ok(services) => MessagePayload::ServicesDiscovered { services },
                    Err(e) => MessagePayload::Error {
                        error: e.message(),
                        context: Some(join("Discovering pattern: ", pattern.as_str())),
                    },
                };
                let out = Handled { reply: Some(reply), notifications: Vec::new() };
                assert(notifications_view(out.notifications@) =~= Seq::empty());
                out
            },
            MessagePayload::Ping => {
                let out = Handled { reply: Some(MessagePayload::Pong), notifications: Vec::new() };
                assert(notifications_view(out.notifications@) =~= Seq::empty());
                out
            },
            _ => {
                let out = Handled { reply: None, notifications: Vec::new() };
                assert(notifications_view(out.notifications@) =~= Seq::empty());
                out
            },
        }
    }
}

} // verus!
