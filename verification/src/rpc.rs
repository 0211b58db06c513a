//! Remote procedure calls: how a server routes a request and frames its
//! answer, and how a client reads it.
//!
//! The handlers of the methods are the caller's. The server here knows
//! which methods are registered, tells the caller which handler to invoke
//! with which parameters, and turns the handler's outcome into the
//! response.

use crate::error::{message_of, ErrorView, WindError};
use crate::protocol::{result_view, Message, MessagePayload, MessageView, PayloadView};
use crate::subscriber::{chosen, Subscriber};
use crate::text::{clone_strings, clone_text_opt, join, same_text, text_opt, texts};
use crate::types::{ServiceInfo, ServiceInfoView, ServiceType};
use crate::value::{ValueView, WindValue};
use vstd::hash_set::StringHashSet;
use vstd::prelude::*;
use vstd::string::StringExecFns;

verus! {

/// The seconds that a call waits for its response unless told otherwise.
pub const DEFAULT_CALL_TIMEOUT_SECS: u64 = 5;

/// What the server is to do with a request.
#[derive(Debug)]
pub enum RpcAction {
    /// Invoke the handler of the method with the parameters, and answer
    /// with [`RpcServer::respond`].
    Invoke { method: String, params: WindValue, call_id: u128, schema_id: Option<String> },
    /// Send this answer.
    Reply(MessagePayload),
    /// No answer.
    Ignore,
}

/// The model of an [`RpcAction`].
pub enum RpcActionView {
    Invoke { method: Seq<char>, params: ValueView, call_id: u128, schema_id: Option<Seq<char>> },
    Reply(PayloadView),
    Ignore,
}

impl View for RpcAction {
    type V = RpcActionView;

    open spec fn view(&self) -> RpcActionView {
        match self {
            RpcAction::Invoke { method, params, call_id, schema_id } => RpcActionView::Invoke {
                method: method@,
                params: params@,
                call_id: *call_id,
                schema_id: text_opt(*schema_id),
            },
            RpcAction::Reply(p) => RpcActionView::Reply(p@),
            RpcAction::Ignore => RpcActionView::Ignore,
        }
    }
}

/// The model of an [`RpcServer`].
pub struct RpcServerView {
    pub service_name: Seq<char>,
    pub bind_address: Seq<char>,
    pub registry_address: Seq<char>,
    pub schema_id: Option<Seq<char>>,
    pub methods: Set<Seq<char>>,
    pub ttl_ms: u64,
    pub tags: Seq<Seq<char>>,
}

/// The response to a call of a method that is not registered.
pub open spec fn method_not_found(call_id: u128, method: Seq<char>) -> PayloadView {
    PayloadView::RpcResponse {
        call_id,
        result: Err("Method not found: "@ + method),
        schema_id: None,
    }
}

/// The response that carries the outcome of a handler: its value, with the
/// schema id of the request, or the message of its error.
pub open spec fn response_for(
    call_id: u128,
    schema_id: Option<Seq<char>>,
    outcome: Result<ValueView, ErrorView>,
) -> PayloadView {
    match outcome {
        Ok(value) => PayloadView::RpcResponse { call_id, result: Ok(value), schema_id },
        Err(e) => PayloadView::RpcResponse {
            call_id,
            result: Err(message_of(e)),
            schema_id: None,
        },
    }
}

impl RpcServerView {
    /// Whether a method of this name is registered.
    pub open spec fn has_method(self, method: Seq<char>) -> bool {
        self.methods.contains(method)
    }

    /// After a method was registered.
    pub open spec fn register(self, method: Seq<char>) -> RpcServerView {
        RpcServerView { methods: self.methods.insert(method), ..self }
    }

    /// What is to be done with a request.
    ///
    /// A call of a registered method is to be handled, under the id of the
    /// request; a call of another method is answered with an error. A ping
    /// is answered with a pong. Other messages are passed over.
    pub open spec fn route(self, request: MessageView) -> RpcActionView {
        match request.payload {
            PayloadView::RpcCall { method, params, schema_id, .. } => if self.has_method(method) {
                RpcActionView::Invoke { method, params, call_id: request.id, schema_id }
            } else {
                RpcActionView::Reply(method_not_found(request.id, method))
            },
            PayloadView::Ping => RpcActionView::Reply(PayloadView::Pong),
            _ => RpcActionView::Ignore,
        }
    }

    /// The message that registers the server at `address`.
    pub open spec fn registration(self, address: Seq<char>) -> PayloadView {
        PayloadView::RegisterService {
            service: self.service_name,
            address,
            service_type: ServiceType::RpcServer,
            schema_id: self.schema_id,
            ttl_ms: self.ttl_ms,
            tags: self.tags,
        }
    }
}

/// The bookkeeping of an RPC server.
pub struct RpcServer {
    service_name: String,
    bind_address: String,
    registry_address: String,
    schema_id: Option<String>,
    methods: StringHashSet,
    ttl_ms: u64,
    tags: Vec<String>,
}

impl View for RpcServer {
    type V = RpcServerView;

    closed spec fn view(&self) -> RpcServerView {
        RpcServerView {
            service_name: self.service_name@,
            bind_address: self.bind_address@,
            registry_address: self.registry_address@,
            schema_id: text_opt(self.schema_id),
            methods: self.methods@,
            ttl_ms: self.ttl_ms,
            tags: texts(self.tags@),
        }
    }
}

impl RpcServer {
    /// A server for a service, without methods.
    pub fn new(service_name: String, bind_address: String, registry_address: String) -> (r:
        RpcServer)
        ensures
            r@ == (RpcServerView {
                service_name: service_name@,
                bind_address: bind_address@,
                registry_address: registry_address@,
                schema_id: None,
                methods: Set::empty(),
                ttl_ms: crate::publisher::DEFAULT_TTL_MS,
                tags: Seq::empty(),
            }),
    {
        let r = RpcServer {
            service_name,
            bind_address,
            registry_address,
            schema_id: None,
            methods: StringHashSet::new(),
            ttl_ms: crate::publisher::DEFAULT_TTL_MS,
            tags: Vec::new(),
        };
        assert(r@.tags =~= Seq::empty());
        r
    }

    /// The same server with a schema id.
    pub fn with_schema(self, schema_id: String) -> (r: RpcServer)
        ensures
            r@ == (RpcServerView { schema_id: Some(schema_id@), ..self@ }),
    {
        let mut s = self;
        s.schema_id = Some(schema_id);
        s
    }

    /// The address to bind to.
    pub fn bind_address(&self) -> (r: &str)
        ensures
            r@ == self@.bind_address,
    {
        self.bind_address.as_str()
    }

    /// The address of the registry.
    pub fn registry_address(&self) -> (r: &str)
        ensures
            r@ == self@.registry_address,
    {
        self.registry_address.as_str()
    }

    /// Whether a method of this name is registered.
    pub fn has_method(&self, method: &str) -> (r: bool)
        ensures
            r == self@.has_method(method@),
    {
        self.methods.contains(method)
    }

    /// Registers a method under its name. Never fails.
    pub fn register_method(&mut self, method_name: String) -> (r: Result<(), WindError>)
        ensures
            r is Ok,
            final(self)@ == old(self)@.register(method_name@),
    {
        let _ = self.methods.insert(method_name);
        Ok(())
    }

    /// The message that registers the server at the address that it listens
    /// on.
    pub fn registration(&self, actual_address: &str) -> (r: MessagePayload)
        ensures
            r@ == self@.registration(actual_address@),
    {
        MessagePayload::RegisterService {
            service: self.service_name.clone(),
            address: actual_address.to_owned(),
            service_type: ServiceType::RpcServer,
            schema_id: clone_text_opt(&self.schema_id),
            ttl_ms: self.ttl_ms,
            tags: clone_strings(&self.tags),
        }
    }

    /// Says what to do with a request.
    pub fn route(&self, request: Message) -> (r: RpcAction)
        ensures
            r@ == self@.route(request@),
    {
        match request.payload {
            MessagePayload::RpcCall { method, params, schema_id, .. } => {
                if self.has_method(method.as_str()) {
                    RpcAction::Invoke { method, params, call_id: request.id, schema_id }
                } else {
                    RpcAction::Reply(
                        MessagePayload::RpcResponse {
                            call_id: request.id,
                            result: Err(join("Method not found: ", method.as_str())),
                            schema_id: None,
                        },
                    )
                }
            },
            MessagePayload::Ping => RpcAction::Reply(MessagePayload::Pong),
            _ => RpcAction::Ignore,
        }
    }

    /// The response that carries the outcome of a handler.
    pub fn respond(call_id: u128, schema_id: Option<String>, outcome: Result<WindValue, WindError>) -> (r:
        MessagePayload)
        ensures
            r@ == response_for(
                call_id,
                text_opt(schema_id),
                match outcome {
                    Ok(v) => Ok(v@),
                    Err(e) => Err(e@),
                },
            ),
    {
        match outcome {
            Ok(value) => MessagePayload::RpcResponse { call_id, result: Ok(value), schema_id },
            Err(e) => MessagePayload::RpcResponse {
                call_id,
                result: Err(e.message()),
                schema_id: None,
            },
        }
    }
}

/// Whether a service takes calls: it is an RPC server, or both an RPC
/// server and a publisher.
pub open spec fn takes_calls(info: ServiceInfoView) -> bool {
    info.service_type is RpcServer || info.service_type is Both
}

/// What the registry's answer to the discovery of a service to call means:
/// the service of that name if it takes calls, or the error.
pub open spec fn call_target(response: PayloadView, name: Seq<char>) -> Result<
    ServiceInfoView,
    ErrorView,
> {
    match chosen(response, name) {
        Ok(info) => if takes_calls(info) {
            Ok(info)
        } else {
            Err(ErrorView::ServiceNotFound(name))
        },
        Err(e) => Err(e),
    }
}

/// What the answer to a call means: the result that the response with the
/// id of the call carries, an error of the handler as a protocol error; any
/// other answer is a protocol error.
pub open spec fn call_outcome(response: PayloadView, call_id: u128) -> Result<ValueView, ErrorView> {
    match response {
        PayloadView::RpcResponse { call_id: answered, result, .. } => if answered == call_id {
            match result {
                Ok(value) => Ok(value),
                Err(text) => Err(ErrorView::Protocol(text)),
            }
        } else {
            Err(ErrorView::Protocol("Unexpected response"@))
        },
        _ => Err(ErrorView::Protocol("Unexpected response"@)),
    }
}

/// The client side of remote procedure calls.
pub struct RpcClient {
    /// The subscriber through which services are discovered.
    pub subscriber: Subscriber,
}

impl RpcClient {
    /// A client that finds services through the registry at this address.
    pub fn new(registry_address: String) -> (r: RpcClient)
        ensures
            r.subscriber@.registry_connection == crate::connection::ConnectionView::initial(
                registry_address@,
            ),
            r.subscriber@.active_subscriptions == Map::<u128, Seq<char>>::empty(),
    {
        RpcClient { subscriber: Subscriber::new(registry_address) }
    }

    /// Reads the registry's answer to the discovery of a service to call.
    pub fn target(response: MessagePayload, service_name: &str) -> (r: Result<
        ServiceInfo,
        WindError,
    >)
        ensures
            match call_target(response@, service_name@) {
                Ok(info) => r is Ok && r->Ok_0@ == info,
                Err(e) => r is Err && r->Err_0@ == e,
            },
    {
        match Subscriber::chosen_service(response, service_name) {
            Ok(info) => match info.service_type {
                ServiceType::Publisher => Err(
                    WindError::ServiceNotFound(service_name.to_owned()),
                ),
                _ => Ok(info),
            },
            Err(e) => Err(e),
        }
    }

    /// The request that calls a method of a service.
    pub fn call_request(
        service_name: &str,
        method: &str,
        params: WindValue,
        schema_id: &Option<String>,
    ) -> (r: MessagePayload)
        ensures
            r@ == (PayloadView::RpcCall {
                service: service_name@,
                method: method@,
                params: params@,
                schema_id: text_opt(*schema_id),
            }),
    {
        MessagePayload::RpcCall {
            service: service_name.to_owned(),
            method: method.to_owned(),
            params,
            schema_id: clone_text_opt(schema_id),
        }
    }

    /// Reads the answer to the call that was sent under `call_id`.
    pub fn call_result(response: MessagePayload, call_id: u128) -> (r: Result<WindValue, WindError>)
        ensures
            match call_outcome(response@, call_id) {
                Ok(value) => r is Ok && r->Ok_0@ == value,
                Err(e) => r is Err && r->Err_0@ == e,
            },
    {
        match response {
            MessagePayload::RpcResponse { call_id: answered, result, .. } => {
                if answered == call_id {
                    match result {
                        Ok(value) => Ok(value),
                        Err(text) => Err(WindError::Protocol(text)),
                    }
                } else {
                    Err(WindError::Protocol(String::from_str("Unexpected response")))
                }
            },
            _ => Err(WindError::Protocol(String::from_str("Unexpected response"))),
        }
    }

    /// The error of a call whose deadline passed.
    pub fn timed_out(service_name: &str, method: &str) -> (r: WindError)
        ensures
            r@ == ErrorView::Timeout(service_name@ + "::"@ + method@),
    {
        let head = join(service_name, "::");
        WindError::Timeout(join(head.as_str(), method))
    }
}

} // verus!
