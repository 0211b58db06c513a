//! A server that publishes, takes calls, or both, under one service name.

use crate::error::{ErrorView, WindError};
use crate::publisher::{Publisher, PublisherView};
use crate::rpc::{RpcServer, RpcServerView};
use vstd::prelude::*;
use vstd::string::StringExecFns;

verus! {

/// What starting a server starts.
#[derive(Debug, Clone, Copy, PartialEq, Eq, Structural)]
pub enum StartPlan {
    PublisherOnly,
    RpcOnly,
    Both,
}

/// A service with a publisher, an RPC server, or both.
pub struct WindServer {
    service_name: String,
    publisher: Option<Publisher>,
    rpc_server: Option<RpcServer>,
}

/// The model of a [`WindServer`].
pub struct WindServerView {
    pub service_name: Seq<char>,
    pub publisher: Option<PublisherView>,
    pub rpc_server: Option<RpcServerView>,
}

impl WindServerView {
    /// What starting the server starts, or the error of a server that has
    /// neither capability.
    pub open spec fn start_plan(self) -> Result<StartPlan, ErrorView> {
        match (self.publisher, self.rpc_server) {
            (Some(_), Some(_)) => Ok(StartPlan::Both),
            (Some(_), None) => Ok(StartPlan::PublisherOnly),
            (None, Some(_)) => Ok(StartPlan::RpcOnly),
            (None, None) => Err(
                ErrorView::Protocol("Server must have at least publisher or RPC capability"@),
            ),
        }
    }
}

impl View for WindServer {
    type V = WindServerView;

    closed spec fn view(&self) -> WindServerView {
        WindServerView {
            service_name: self.service_name@,
            publisher: match self.publisher {
                Some(p) => Some(p@),
                None => None,
            },
            rpc_server: match self.rpc_server {
                Some(s) => Some(s@),
                None => None,
            },
        }
    }
}

impl WindServer {
    /// A server for a service, without capabilities yet.
    pub fn new(service_name: String) -> (r: WindServer)
        ensures
            r@ == (WindServerView {
                service_name: service_name@,
                publisher: None,
                rpc_server: None,
            }),
    {
        WindServer { service_name, publisher: None, rpc_server: None }
    }

    /// The same server with a publisher for its service.
    pub fn with_publisher(self, bind_address: String, registry_address: String) -> (r: WindServer)
        ensures
            r@ == (WindServerView {
                publisher: Some(
                    PublisherView::initial(self@.service_name, bind_address@, registry_address@),
                ),
                ..self@
            }),
    {
        let mut s = self;
        s.publisher = Some(Publisher::new(s.service_name.clone(), bind_address, registry_address));
        s
    }

    /// The same server with an RPC server for its service.
    pub fn with_rpc_server(self, bind_address: String, registry_address: String) -> (r: WindServer)
        ensures
            r@.service_name == self@.service_name,
            r@.publisher == self@.publisher,
            r@.rpc_server is Some,
            r@.rpc_server->Some_0 == (RpcServerView {
                service_name: self@.service_name,
                bind_address: bind_address@,
                registry_address: registry_address@,
                schema_id: None,
                methods: Set::empty(),
                ttl_ms: crate::publisher::DEFAULT_TTL_MS,
                tags: Seq::empty(),
            }),
    {
        let mut s = self;
        s.rpc_server = Some(RpcServer::new(s.service_name.clone(), bind_address, registry_address));
        s
    }

    /// The publisher, if the server has one.
    pub fn publisher(&self) -> (r: Option<&Publisher>)
        ensures
            match r {
                Some(p) => self@.publisher == Some(p@),
                None => self@.publisher is None,
            },
    {
        self.publisher.as_ref()
    }

    /// The RPC server, if the server has one.
    pub fn rpc_server(&self) -> (r: Option<&RpcServer>)
        ensures
            match r {
                Some(s) => self@.rpc_server == Some(s@),
                None => self@.rpc_server is None,
            },
    {
        self.rpc_server.as_ref()
    }

    /// Takes the server apart into its publisher and its RPC server.
    pub fn into_parts(self) -> (r: (Option<Publisher>, Option<RpcServer>))
        ensures
            match r.0 {
                Some(p) => self@.publisher == Some(p@),
                None => self@.publisher is None,
            },
            match r.1 {
                Some(s) => self@.rpc_server == Some(s@),
                None => self@.rpc_server is None,
            },
    {
        (self.publisher, self.rpc_server)
    }

    /// What starting the server starts. A server without a capability
    /// cannot start.
    pub fn start_plan(&self) -> (r: Result<StartPlan, WindError>)
        ensures
            match self@.start_plan() {
                Ok(plan) => r == Ok::<StartPlan, WindError>(plan),
                Err(e) => r is Err && r->Err_0@ == e,
            },
    {
        match (&self.publisher, &self.rpc_server) {
            (Some(_), Some(_)) => Ok(StartPlan::Both),
            (Some(_), None) => Ok(StartPlan::PublisherOnly),
            (None, Some(_)) => Ok(StartPlan::RpcOnly),
            (None, None) => Err(
                WindError::Protocol(
                    String::from_str("Server must have at least publisher or RPC capability"),
                ),
            ),
        }
    }
}

} // verus!
