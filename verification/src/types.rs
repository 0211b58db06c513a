//! The records that describe services and subscriptions.

use crate::text::{clone_strings, clone_text_opt, text_opt, texts};
use vstd::prelude::*;

verus! {

/// What a registered service offers.
#[derive(Debug, Clone, Copy, PartialEq, Eq, Structural)]
pub enum ServiceType {
    Publisher,
    RpcServer,
    Both,
}

/// How a subscriber wants values delivered.
#[derive(Debug, Clone, Copy, PartialEq, Eq, Structural)]
pub enum SubscriptionMode {
    /// One value, then nothing more.
    Once,
    /// A value whenever at least `interval_ms` milliseconds have passed
    /// since the last one sent.
    Periodic { interval_ms: u64 },
    /// A value whenever it differs from the last one sent.
    OnChange,
}

/// Whether values may be dropped under pressure.
#[derive(Debug, Clone, Copy, PartialEq, Eq, Structural)]
pub enum ReliabilityLevel {
    BestEffort,
    Reliable,
}

/// Quality-of-service parameters of a subscription.
#[derive(Debug, Clone, Copy, PartialEq, Eq, Structural)]
pub struct QosParams {
    pub reliability: ReliabilityLevel,
    /// Replay the latest value to a subscriber that joins late.
    pub durability: bool,
    /// Bound on the values buffered for one subscriber.
    pub max_queue_size: u32,
}

impl Default for QosParams {
    fn default() -> (r: QosParams)
        ensures
            r == (QosParams {
                reliability: ReliabilityLevel::BestEffort,
                durability: false,
                max_queue_size: 1000,
            }),
    {
        QosParams { reliability: ReliabilityLevel::BestEffort, durability: false, max_queue_size: 1000 }
    }
}

/// What the registry knows and tells about one service.
#[derive(Debug)]
pub struct ServiceInfo {
    pub name: String,
    pub address: String,
    pub service_type: ServiceType,
    pub schema_id: Option<String>,
    pub ttl_ms: u64,
    pub tags: Vec<String>,
}

/// The model of a [`ServiceInfo`].
pub struct ServiceInfoView {
    pub name: Seq<char>,
    pub address: Seq<char>,
    pub service_type: ServiceType,
    pub schema_id: Option<Seq<char>>,
    pub ttl_ms: u64,
    pub tags: Seq<Seq<char>>,
}

impl View for ServiceInfo {
    type V = ServiceInfoView;

    open spec fn view(&self) -> ServiceInfoView {
        ServiceInfoView {
            name: self.name@,
            address: self.address@,
            service_type: self.service_type,
            schema_id: text_opt(self.schema_id),
            ttl_ms: self.ttl_ms,
            tags: texts(self.tags@),
        }
    }
}

impl Clone for ServiceInfo {
    fn clone(&self) -> (r: ServiceInfo)
        ensures
            r@ == self@,
    {
        ServiceInfo {
            name: self.name.clone(),
            address: self.address.clone(),
            service_type: self.service_type,
            schema_id: clone_text_opt(&self.schema_id),
            ttl_ms: self.ttl_ms,
            tags: clone_strings(&self.tags),
        }
    }
}

/// The models of a list of service records, in order.
pub open spec fn infos_view(v: Seq<ServiceInfo>) -> Seq<ServiceInfoView> {
    Seq::new(v.len(), |i: int| v[i]@)
}

} // verus!
