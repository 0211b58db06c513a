//! The messages of the protocol and their models.

use crate::text::{text_opt, texts};
use crate::types::{infos_view, QosParams, ServiceInfo, ServiceInfoView, ServiceType, SubscriptionMode};
use crate::value::{ValueView, WindValue};
use vstd::prelude::*;

verus! {

/// What a message says.
#[derive(Debug)]
#[allow(inconsistent_fields)]
pub enum MessagePayload {
    RegisterService {
        service: String,
        address: String,
        service_type: ServiceType,
        schema_id: Option<String>,
        ttl_ms: u64,
        tags: Vec<String>,
    },
    ServiceRegistered { service: String, success: bool, error: Option<String> },
    /// Asks for the services whose names match a glob pattern.
    DiscoverServices { pattern: String },
    ServicesDiscovered { services: Vec<ServiceInfo> },
    Subscribe { service: String, mode: SubscriptionMode, qos: QosParams, schema_id: Option<String> },
    SubscribeAck {
        subscription_id: u128,
        success: bool,
        error: Option<String>,
        current_value: Option<WindValue>,
    },
    Unsubscribe { subscription_id: u128 },
    Publish { service: String, sequence: u64, value: WindValue, schema_id: Option<String> },
    RpcCall { service: String, method: String, params: WindValue, schema_id: Option<String> },
    RpcResponse { call_id: u128, result: Result<WindValue, String>, schema_id: Option<String> },
    Heartbeat,
    Ping,
    Pong,
    Error { error: String, context: Option<String> },
}

/// The model of a [`MessagePayload`].
#[allow(inconsistent_fields)]
pub enum PayloadView {
    RegisterService {
        service: Seq<char>,
        address: Seq<char>,
        service_type: ServiceType,
        schema_id: Option<Seq<char>>,
        ttl_ms: u64,
        tags: Seq<Seq<char>>,
    },
    ServiceRegistered { service: Seq<char>, success: bool, error: Option<Seq<char>> },
    DiscoverServices { pattern: Seq<char> },
    ServicesDiscovered { services: Seq<ServiceInfoView> },
    Subscribe {
        service: Seq<char>,
        mode: SubscriptionMode,
        qos: QosParams,
        schema_id: Option<Seq<char>>,
    },
    SubscribeAck {
        subscription_id: u128,
        success: bool,
        error: Option<Seq<char>>,
        current_value: Option<ValueView>,
    },
    Unsubscribe { subscription_id: u128 },
    Publish { service: Seq<char>, sequence: u64, value: ValueView, schema_id: Option<Seq<char>> },
    RpcCall {
        service: Seq<char>,
        method: Seq<char>,
        params: ValueView,
        schema_id: Option<Seq<char>>,
    },
    RpcResponse {
        call_id: u128,
        result: Result<ValueView, Seq<char>>,
        schema_id: Option<Seq<char>>,
    },
    Heartbeat,
    Ping,
    Pong,
    Error { error: Seq<char>, context: Option<Seq<char>> },
}

/// The model of an optional value.
pub open spec fn value_opt_view(o: Option<WindValue>) -> Option<ValueView> {
    match o {
        Some(v) => Some(v@),
        None => None,
    }
}

/// The model of the outcome of an RPC call.
pub open spec fn result_view(r: Result<WindValue, String>) -> Result<ValueView, Seq<char>> {
    match r {
        Ok(v) => Ok(v@),
        Err(e) => Err(e@),
    }
}

impl View for MessagePayload {
    type V = PayloadView;

    open spec fn view(&self) -> PayloadView {
        match self {
            MessagePayload::RegisterService {
                service,
                address,
                service_type,
                schema_id,
                ttl_ms,
                tags,
            } => PayloadView::RegisterService {
                service: service@,
                address: address@,
                service_type: *service_type,
                schema_id: text_opt(*schema_id),
                ttl_ms: *ttl_ms,
                tags: texts(tags@),
            },
            MessagePayload::ServiceRegistered {
                service,
                success,
                error,
            } => PayloadView::ServiceRegistered {
                service: service@,
                success: *success,
                error: text_opt(*error),
            },
            MessagePayload::DiscoverServices { pattern } => PayloadView::DiscoverServices {
                pattern: pattern@,
            },
            MessagePayload::ServicesDiscovered { services } => PayloadView::ServicesDiscovered {
                services: infos_view(services@),
            },
            MessagePayload::Subscribe { service, mode, qos, schema_id } => PayloadView::Subscribe {
                service: service@,
                mode: *mode,
                qos: *qos,
                schema_id: text_opt(*schema_id),
            },
            MessagePayload::SubscribeAck {
                subscription_id,
                success,
                error,
                current_value,
            } => PayloadView::SubscribeAck {
                subscription_id: *subscription_id,
                success: *success,
                error: text_opt(*error),
                current_value: value_opt_view(*current_value),
            },
            MessagePayload::Unsubscribe { subscription_id } => PayloadView::Unsubscribe {
                subscription_id: *subscription_id,
            },
            MessagePayload::Publish { service, sequence, value, schema_id } => PayloadView::Publish {
                service: service@,
                sequence: *sequence,
                value: value@,
                schema_id: text_opt(*schema_id),
            },
            MessagePayload::RpcCall { service, method, params, schema_id } => PayloadView::RpcCall {
                service: service@,
                method: method@,
                params: params@,
                schema_id: text_opt(*schema_id),
            },
            MessagePayload::RpcResponse { call_id, result, schema_id } => PayloadView::RpcResponse {
                call_id: *call_id,
                result: result_view(*result),
                schema_id: text_opt(*schema_id),
            },
            MessagePayload::Heartbeat => PayloadView::Heartbeat,
            MessagePayload::Ping => PayloadView::Ping,
            MessagePayload::Pong => PayloadView::Pong,
            MessagePayload::Error { error, context } => PayloadView::Error {
                error: error@,
                context: text_opt(*context),
            },
        }
    }
}

/// The envelope of every message: an identifier (a UUID, as its 128-bit
/// number), the time of sending in microseconds since the Unix epoch, and
/// the payload.
#[derive(Debug)]
pub struct Message {
    pub id: u128,
    pub timestamp_us: u64,
    pub payload: MessagePayload,
}

/// The model of a [`Message`].
pub struct MessageView {
    pub id: u128,
    pub timestamp_us: u64,
    pub payload: PayloadView,
}

impl View for Message {
    type V = MessageView;

    open spec fn view(&self) -> MessageView {
        MessageView { id: self.id, timestamp_us: self.timestamp_us, payload: self.payload@ }
    }
}

/// The bits that mark a 128-bit number as a random (version 4) UUID of the
/// standard variant.
pub open spec fn is_random_uuid(id: u128) -> bool {
    id & 0x0000_0000_0000_f000_c000_0000_0000_0000u128
        == 0x0000_0000_0000_4000_8000_0000_0000_0000u128
}

/// A fresh identifier from `uuid::Uuid::new_v4`, as the number that
/// `Uuid::as_u128` gives. Which one is a matter of chance; the contract
/// states only the version and variant bits that `new_v4` sets in every
/// identifier.
#[verifier::external_body]
pub(crate) fn fresh_id() -> (id: u128)
    ensures
        is_random_uuid(id),
{
    uuid::Uuid::new_v4().as_u128()
}

/// The reading of the system clock, `std::time::SystemTime::now`, in
/// microseconds since the Unix epoch (zero for a clock set before it).
/// Nothing is claimed of the reading.
#[verifier::external_body]
pub(crate) fn unix_micros() -> (t: u64) {
    match std::time::SystemTime::now().duration_since(std::time::UNIX_EPOCH) {
        Ok(d) => d.as_micros() as u64,
        Err(_) => 0,
    }
}

impl Message {
    /// A message with a fresh random identifier, stamped with the current
    /// time.
    pub fn new(payload: MessagePayload) -> (r: Message)
        ensures
            r.payload == payload,
            is_random_uuid(r.id),
    {
        let id = fresh_id();
        let timestamp_us = unix_micros();
        Message::stamped(id, timestamp_us, payload)
    }

    /// A message with the given identifier and time stamp.
    pub fn stamped(id: u128, timestamp_us: u64, payload: MessagePayload) -> (r: Message)
        ensures
            r.id == id,
            r.timestamp_us == timestamp_us,
            r.payload == payload,
    {
        Message { id, timestamp_us, payload }
    }
}

} // verus!
