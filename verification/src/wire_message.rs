//! The wire form of messages.
//!
//! A message is written as its identifier in sixteen bytes, its time stamp
//! in eight, and its payload: one byte that tells the kind of payload, then
//! the fields of that kind in order.

use crate::protocol::{
    result_view, value_opt_view, Message, MessagePayload, MessageView, PayloadView,
};
use crate::text::{text_opt, texts};
use crate::types::{infos_view, QosParams, ServiceInfo, ServiceInfoView, ServiceType, SubscriptionMode};
use crate::value::{ValueView, WindValue};
use crate::wire::{
    be_bytes, lemma_parse_be, lemma_parse_opt_text, lemma_parse_text, lemma_parse_text_list,
    lemma_pow256, parse_be, parse_opt_text, parse_text, parse_text_list, pow256, read_be,
    read_opt_text, read_text, read_text_list, ser_opt_text, ser_text, ser_text_list, write_be,
    write_opt_text, write_text, write_text_list,
};
use crate::wire_info::{
    lemma_parse_info_list, lemma_parse_mode, lemma_parse_qos, parse_info_list, parse_mode,
    parse_qos, parse_service_type, read_info_list, read_mode, read_qos, read_service_type,
    lemma_parse_service_type, ser_info_list, ser_mode, ser_qos, ser_service_type, write_info_list,
    write_mode, write_qos, write_service_type,
};
use crate::wire_value::{lemma_parse_value, parse_value, read_value, ser_value, write_value};
use vstd::prelude::*;

verus! {

/// The wire form of a 64-bit number.
pub open spec fn ser_u64(x: u64) -> Seq<u8> {
    be_bytes(x as nat, 8)
}

/// What reading a 64-bit number from the front of `bytes` gives.
pub open spec fn parse_u64(bytes: Seq<u8>) -> Option<(u64, Seq<u8>)> {
    match parse_be(bytes, 8) {
        Some((n, rest)) => Some((n as u64, rest)),
        None => None,
    }
}

/// A 64-bit number that was written is read back.
pub proof fn lemma_parse_u64(x: u64, rest: Seq<u8>)
    ensures
        parse_u64(ser_u64(x) + rest) == Some((x, rest)),
{
    lemma_pow256();
    lemma_parse_be(x as nat, 8, rest);
}

fn write_u64(out: &mut Vec<u8>, x: u64)
    ensures
        final(out)@ == old(out)@ + ser_u64(x),
{
    write_be(out, x as u128, 8);
}

fn read_u64(bytes: &[u8], pos: usize) -> (r: Option<(u64, usize)>)
    requires
        pos <= bytes@.len(),
    ensures
        match parse_u64(bytes@.skip(pos as int)) {
            Some((x, rest)) => r is Some && r->Some_0.0 == x && pos <= r->Some_0.1 <= bytes@.len()
                && rest == bytes@.skip(r->Some_0.1 as int),
            None => r is None,
        },
{
    proof {
        lemma_pow256();
    }
    match read_be(bytes, pos, 8) {
        Some((n, next)) => Some((n as u64, next)),
        None => None,
    }
}

/// The wire form of an identifier: its 128-bit number.
pub open spec fn ser_id(x: u128) -> Seq<u8> {
    be_bytes(x as nat, 16)
}

/// What reading an identifier from the front of `bytes` gives.
pub open spec fn parse_id(bytes: Seq<u8>) -> Option<(u128, Seq<u8>)> {
    match parse_be(bytes, 16) {
        Some((n, rest)) => Some((n as u128, rest)),
        None => None,
    }
}

/// An identifier that was written is read back.
pub proof fn lemma_parse_id(x: u128, rest: Seq<u8>)
    ensures
        parse_id(ser_id(x) + rest) == Some((x, rest)),
{
    lemma_pow256();
    lemma_parse_be(x as nat, 16, rest);
}

fn write_id(out: &mut Vec<u8>, x: u128)
    ensures
        final(out)@ == old(out)@ + ser_id(x),
{
    write_be(out, x, 16);
}

fn read_id(bytes: &[u8], pos: usize) -> (r: Option<(u128, usize)>)
    requires
        pos <= bytes@.len(),
    ensures
        match parse_id(bytes@.skip(pos as int)) {
            Some((x, rest)) => r is Some && r->Some_0.0 == x && pos <= r->Some_0.1 <= bytes@.len()
                && rest == bytes@.skip(r->Some_0.1 as int),
            None => r is None,
        },
{
    proof {
        lemma_pow256();
    }
    read_be(bytes, pos, 16)
}

/// The wire form of a truth value: a one byte or a zero byte.
pub open spec fn ser_flag(x: bool) -> Seq<u8> {
    seq![
        if x {
            1u8
        } else {
            0u8
        },
    ]
}

/// What reading a truth value from the front of `bytes` gives.
pub open spec fn parse_flag(bytes: Seq<u8>) -> Option<(bool, Seq<u8>)> {
    if bytes.len() >= 1 && bytes[0] <= 1 {
        Some((bytes[0] == 1, bytes.skip(1)))
    } else {
        None
    }
}

/// A truth value that was written is read back.
pub proof fn lemma_parse_flag(x: bool, rest: Seq<u8>)
    ensures
        parse_flag(ser_flag(x) + rest) == Some((x, rest)),
{
    assert((ser_flag(x) + rest).skip(1) =~= rest);
}

fn write_flag(out: &mut Vec<u8>, x: bool)
    ensures
        final(out)@ == old(out)@ + ser_flag(x),
{
    out.push(
        if x {
            1
        } else {
            0
        },
    );
    assert(out@ =~= old(out)@ + ser_flag(x));
}

fn read_flag(bytes: &[u8], pos: usize) -> (r: Option<(bool, usize)>)
    requires
        pos <= bytes@.len(),
    ensures
        match parse_flag(bytes@.skip(pos as int)) {
            Some((x, rest)) => r is Some && r->Some_0.0 == x && pos <= r->Some_0.1 <= bytes@.len()
                && rest == bytes@.skip(r->Some_0.1 as int),
            None => r is None,
        },
{
    if pos >= bytes.len() {
        return None;
    }
    let b = bytes[pos];
    assert(bytes@.skip(pos as int)[0] == b);
    assert(bytes@.skip(pos as int).skip(1) =~= bytes@.skip(pos + 1));
    if b <= 1 {
        Some((b == 1, pos + 1))
    } else {
        None
    }
}

/// The wire form of an optional value: a zero byte for none, or a one byte
/// and the value.
pub open spec fn ser_opt_value(o: Option<WindValue>) -> Seq<u8> {
    match o {
        None => seq![0u8],
        Some(v) => seq![1u8] + ser_value(v),
    }
}

/// What reading an optional value from the front of `bytes` gives.
pub open spec fn parse_opt_value(bytes: Seq<u8>) -> Option<(Option<ValueView>, Seq<u8>)> {
    if bytes.len() == 0 {
        None
    } else if bytes[0] == 0 {
        Some((None, bytes.skip(1)))
    } else if bytes[0] == 1 {
        match parse_value(bytes.skip(1)) {
            Some((v, rest)) => Some((Some(v), rest)),
            None => None,
        }
    } else {
        None
    }
}

/// An optional value that was written is read back.
pub proof fn lemma_parse_opt_value(o: Option<WindValue>, rest: Seq<u8>)
    requires
        ser_opt_value(o).len() < pow256(8),
    ensures
        parse_opt_value(ser_opt_value(o) + rest) == Some((value_opt_view(o), rest)),
{
    let all = ser_opt_value(o) + rest;
    match o {
        None => {
            assert(all.skip(1) =~= rest);
        },
        Some(v) => {
            assert(all.skip(1) =~= ser_value(v) + rest);
            lemma_parse_value(v, rest);
        },
    }
}

fn write_opt_value(out: &mut Vec<u8>, o: &Option<WindValue>)
    ensures
        final(out)@ == old(out)@ + ser_opt_value(*o),
{
    match o {
        None => {
            out.push(0);
        },
        Some(v) => {
            out.push(1);
            write_value(out, v);
        },
    }
    assert(out@ =~= old(out)@ + ser_opt_value(*o));
}

fn read_opt_value(bytes: &[u8], pos: usize) -> (r: Option<(Option<WindValue>, usize)>)
    requires
        pos <= bytes@.len(),
    ensures
        match parse_opt_value(bytes@.skip(pos as int)) {
            Some((o, rest)) => r is Some && value_opt_view(r->Some_0.0) == o && pos
                <= r->Some_0.1 <= bytes@.len() && rest == bytes@.skip(r->Some_0.1 as int),
            None => r is None,
        },
{
    if pos >= bytes.len() {
        return None;
    }
    let tag = bytes[pos];
    assert(bytes@.skip(pos as int)[0] == tag);
    assert(bytes@.skip(pos as int).skip(1) =~= bytes@.skip(pos + 1));
    if tag == 0 {
        Some((None, pos + 1))
    } else if tag == 1 {
        match read_value(bytes, pos + 1) {
            Some((v, next)) => Some((Some(v), next)),
            None => None,
        }
    } else {
        None
    }
}

/// The wire form of the outcome of a call: a zero byte and the value, or a
/// one byte and the text of the error.
pub open spec fn ser_result(r: Result<WindValue, String>) -> Seq<u8> {
    match r {
        Ok(v) => seq![0u8] + ser_value(v),
        Err(e) => seq![1u8] + ser_text(e@),
    }
}

/// What reading the outcome of a call from the front of `bytes` gives.
pub open spec fn parse_result(bytes: Seq<u8>) -> Option<(Result<ValueView, Seq<char>>, Seq<u8>)> {
    if bytes.len() == 0 {
        None
    } else if bytes[0] == 0 {
        match parse_value(bytes.skip(1)) {
            Some((v, rest)) => Some((Ok(v), rest)),
            None => None,
        }
    } else if bytes[0] == 1 {
        match parse_text(bytes.skip(1)) {
            Some((e, rest)) => Some((Err(e), rest)),
            None => None,
        }
    } else {
        None
    }
}

/// The outcome of a call that was written is read back.
pub proof fn lemma_parse_result(r: Result<WindValue, String>, rest: Seq<u8>)
    requires
        ser_result(r).len() < pow256(8),
    ensures
        parse_result(ser_result(r) + rest) == Some((result_view(r), rest)),
{
    let all = ser_result(r) + rest;
    match r {
        Ok(v) => {
            assert(all.skip(1) =~= ser_value(v) + rest);
            lemma_parse_value(v, rest);
        },
        Err(e) => {
            assert(all.skip(1) =~= ser_text(e@) + rest);
            lemma_parse_text(e@, rest);
        },
    }
}

fn write_result(out: &mut Vec<u8>, r: &Result<WindValue, String>)
    ensures
        final(out)@ == old(out)@ + ser_result(*r),
{
    match r {
        Ok(v) => {
            out.push(0);
            write_value(out, v);
        },
        Err(e) => {
            out.push(1);
            write_text(out, e.as_str());
        },
    }
    assert(out@ =~= old(out)@ + ser_result(*r));
}

fn read_result(bytes: &[u8], pos: usize) -> (r: Option<(Result<WindValue, String>, usize)>)
    requires
        pos <= bytes@.len(),
    ensures
        match parse_result(bytes@.skip(pos as int)) {
            Some((o, rest)) => r is Some && result_view(r->Some_0.0) == o && pos <= r->Some_0.1
                <= bytes@.len() && rest == bytes@.skip(r->Some_0.1 as int),
            None => r is None,
        },
{
    if pos >= bytes.len() {
        return None;
    }
    let tag = bytes[pos];
    assert(bytes@.skip(pos as int)[0] == tag);
    assert(bytes@.skip(pos as int).skip(1) =~= bytes@.skip(pos + 1));
    if tag == 0 {
        match read_value(bytes, pos + 1) {
            Some((v, next)) => Some((Ok(v), next)),
            None => None,
        }
    } else if tag == 1 {
        match read_text(bytes, pos + 1) {
            Some((e, next)) => Some((Err(e), next)),
            None => None,
        }
    } else {
        None
    }
}

/// The wire form of the fields of a registration, in order.
#[verifier::opaque]
pub open spec fn ser_register_service(service: Seq<char>, address: Seq<char>, service_type: ServiceType, schema_id: Option<Seq<char>>, ttl_ms: u64, tags: Seq<Seq<char>>) -> Seq<u8> {
    ser_text(service) + ser_text(address) + ser_service_type(service_type) + ser_opt_text(schema_id) + ser_u64(ttl_ms) + ser_text_list(tags)
}

/// What reading the fields of a registration from the front of `bytes` gives.
#[verifier::opaque]
pub open spec fn parse_register_service(bytes: Seq<u8>) -> Option<(PayloadView, Seq<u8>)> {
    match parse_text(bytes) {
        Some((service, r1)) => 
        match parse_text(r1) {
            Some((address, r2)) => 
            match parse_service_type(r2) {
                Some((service_type, r3)) => 
                match parse_opt_text(r3) {
                    Some((schema_id, r4)) => 
                    match parse_u64(r4) {
                        Some((ttl_ms, r5)) => 
                        match parse_text_list(r5) {
                            Some((tags, r6)) => 
                            Some((PayloadView::RegisterService { service, address, service_type, schema_id, ttl_ms, tags }, r6)),
                            None => None,
                        },
                        None => None,
                    },
                    None => None,
                },
                None => None,
            },
            None => None,
        },
        None => None,
    }
}

/// The fields of a registration that were written are read back.
pub proof fn lemma_parse_register_service(service: Seq<char>, address: Seq<char>, service_type: ServiceType, schema_id: Option<Seq<char>>, ttl_ms: u64, tags: Seq<Seq<char>>, rest: Seq<u8>)
    requires
        ser_register_service(service, address, service_type, schema_id, ttl_ms, tags).len() < pow256(8),
    ensures
        parse_register_service(ser_register_service(service, address, service_type, schema_id, ttl_ms, tags) + rest) == Some((PayloadView::RegisterService { service, address, service_type, schema_id, ttl_ms, tags }, rest)),
{
    reveal(ser_register_service);
    reveal(parse_register_service);
    let r5 = ser_text_list(tags) + rest;
    let r4 = ser_u64(ttl_ms) + r5;
    let r3 = ser_opt_text(schema_id) + r4;
    let r2 = ser_service_type(service_type) + r3;
    let r1 = ser_text(address) + r2;
    assert(ser_register_service(service, address, service_type, schema_id, ttl_ms, tags) + rest =~= ser_text(service) + r1);
    lemma_parse_text(service, r1);
    lemma_parse_text(address, r2);
    lemma_parse_service_type(service_type, r3);
    lemma_parse_opt_text(schema_id, r4);
    lemma_parse_u64(ttl_ms, r5);
    lemma_parse_text_list(tags, rest);
}

fn write_register_service(out: &mut Vec<u8>, service: &String, address: &String, service_type: ServiceType, schema_id: &Option<String>, ttl_ms: u64, tags: &Vec<String>)
    ensures
        final(out)@ == old(out)@ + ser_register_service(service@, address@, service_type, text_opt(*schema_id), ttl_ms, texts(tags@)),
{
    write_text(out, service.as_str());
    write_text(out, address.as_str());
    write_service_type(out, service_type);
    write_opt_text(out, schema_id);
    write_u64(out, ttl_ms);
    write_text_list(out, tags);
    proof {
        reveal(ser_register_service);
        assert(out@ =~= old(out)@ + ser_register_service(service@, address@, service_type, text_opt(*schema_id), ttl_ms, texts(tags@)));
    }
}

fn read_register_service(bytes: &[u8], pos: usize) -> (r: Option<(MessagePayload, usize)>)
    requires
        pos <= bytes@.len(),
    ensures
        match parse_register_service(bytes@.skip(pos as int)) {
            Some((p, rest)) => r is Some && r->Some_0.0@ == p && pos <= r->Some_0.1 <= bytes@.len() && rest == bytes@.skip(r->Some_0.1 as int),
            None => r is None,
        },
{
    proof {
        reveal(parse_register_service);
    }
    let (service, after_service) = match read_text(bytes, pos) {
        Some(x) => x,
        None => {
            return None;
        },
    };
    let (address, after_address) = match read_text(bytes, after_service) {
        Some(x) => x,
        None => {
            return None;
        },
    };
    let (service_type, after_service_type) = match read_service_type(bytes, after_address) {
        Some(x) => x,
        None => {
            return None;
        },
    };
    let (schema_id, after_schema_id) = match read_opt_text(bytes, after_service_type) {
        Some(x) => x,
        None => {
            return None;
        },
    };
    let (ttl_ms, after_ttl_ms) = match read_u64(bytes, after_schema_id) {
        Some(x) => x,
        None => {
            return None;
        },
    };
    let (tags, after_tags) = match read_text_list(bytes, after_ttl_ms) {
        Some(x) => x,
        None => {
            return None;
        },
    };
    Some((MessagePayload::RegisterService { service, address, service_type, schema_id, ttl_ms, tags }, after_tags))
}

/// The wire form of the fields of the answer to a registration, in order.
#[verifier::opaque]
pub open spec fn ser_service_registered(service: Seq<char>, success: bool, error: Option<Seq<char>>) -> Seq<u8> {
    ser_text(service) + ser_flag(success) + ser_opt_text(error)
}

/// What reading the fields of the answer to a registration from the front of `bytes` gives.
#[verifier::opaque]
pub open spec fn parse_service_registered(bytes: Seq<u8>) -> Option<(PayloadView, Seq<u8>)> {
    match parse_text(bytes) {
        Some((service, r1)) => 
        match parse_flag(r1) {
            Some((success, r2)) => 
            match parse_opt_text(r2) {
                Some((error, r3)) => 
                Some((PayloadView::ServiceRegistered { service, success, error }, r3)),
                None => None,
            },
            None => None,
        },
        None => None,
    }
}

/// The fields of the answer to a registration that were written are read back.
pub proof fn lemma_parse_service_registered(service: Seq<char>, success: bool, error: Option<Seq<char>>, rest: Seq<u8>)
    requires
        ser_service_registered(service, success, error).len() < pow256(8),
    ensures
        parse_service_registered(ser_service_registered(service, success, error) + rest) == Some((PayloadView::ServiceRegistered { service, success, error }, rest)),
{
    reveal(ser_service_registered);
    reveal(parse_service_registered);
    let r2 = ser_opt_text(error) + rest;
    let r1 = ser_flag(success) + r2;
    assert(ser_service_registered(service, success, error) + rest =~= ser_text(service) + r1);
    lemma_parse_text(service, r1);
    lemma_parse_flag(success, r2);
    lemma_parse_opt_text(error, rest);
}

fn write_service_registered(out: &mut Vec<u8>, service: &String, success: bool, error: &Option<String>)
    ensures
        final(out)@ == old(out)@ + ser_service_registered(service@, success, text_opt(*error)),
{
    write_text(out, service.as_str());
    write_flag(out, success);
    write_opt_text(out, error);
    proof {
        reveal(ser_service_registered);
        assert(out@ =~= old(out)@ + ser_service_registered(service@, success, text_opt(*error)));
    }
}

fn read_service_registered(bytes: &[u8], pos: usize) -> (r: Option<(MessagePayload, usize)>)
    requires
        pos <= bytes@.len(),
    ensures
        match parse_service_registered(bytes@.skip(pos as int)) {
            Some((p, rest)) => r is Some && r->Some_0.0@ == p && pos <= r->Some_0.1 <= bytes@.len() && rest == bytes@.skip(r->Some_0.1 as int),
            None => r is None,
        },
{
    proof {
        reveal(parse_service_registered);
    }
    let (service, after_service) = match read_text(bytes, pos) {
        Some(x) => x,
        None => {
            return None;
        },
    };
    let (success, after_success) = match read_flag(bytes, after_service) {
        Some(x) => x,
        None => {
            return None;
        },
    };
    let (error, after_error) = match read_opt_text(bytes, after_success) {
        Some(x) => x,
        None => {
            return None;
        },
    };
    Some((MessagePayload::ServiceRegistered { service, success, error }, after_error))
}

/// The wire form of the fields of a discovery, in order.
#[verifier::opaque]
pub open spec fn ser_discover_services(pattern: Seq<char>) -> Seq<u8> {
    ser_text(pattern)
}

/// What reading the fields of a discovery from the front of `bytes` gives.
#[verifier::opaque]
pub open spec fn parse_discover_services(bytes: Seq<u8>) -> Option<(PayloadView, Seq<u8>)> {
    match parse_text(bytes) {
        Some((pattern, r1)) => 
        Some((PayloadView::DiscoverServices { pattern }, r1)),
        None => None,
    }
}

/// The fields of a discovery that were written are read back.
pub proof fn lemma_parse_discover_services(pattern: Seq<char>, rest: Seq<u8>)
    requires
        ser_discover_services(pattern).len() < pow256(8),
    ensures
        parse_discover_services(ser_discover_services(pattern) + rest) == Some((PayloadView::DiscoverServices { pattern }, rest)),
{
    reveal(ser_discover_services);
    reveal(parse_discover_services);
    lemma_parse_text(pattern, rest);
}

fn write_discover_services(out: &mut Vec<u8>, pattern: &String)
    ensures
        final(out)@ == old(out)@ + ser_discover_services(pattern@),
{
    write_text(out, pattern.as_str());
    proof {
        reveal(ser_discover_services);
        assert(out@ =~= old(out)@ + ser_discover_services(pattern@));
    }
}

fn read_discover_services(bytes: &[u8], pos: usize) -> (r: Option<(MessagePayload, usize)>)
    requires
        pos <= bytes@.len(),
    ensures
        match parse_discover_services(bytes@.skip(pos as int)) {
            Some((p, rest)) => r is Some && r->Some_0.0@ == p && pos <= r->Some_0.1 <= bytes@.len() && rest == bytes@.skip(r->Some_0.1 as int),
            None => r is None,
        },
{
    proof {
        reveal(parse_discover_services);
    }
    let (pattern, after_pattern) = match read_text(bytes, pos) {
        Some(x) => x,
        None => {
            return None;
        },
    };
    Some((MessagePayload::DiscoverServices { pattern }, after_pattern))
}

/// The wire form of the fields of the answer to a discovery, in order.
#[verifier::opaque]
pub open spec fn ser_services_discovered(services: Seq<ServiceInfoView>) -> Seq<u8> {
    ser_info_list(services)
}

/// What reading the fields of the answer to a discovery from the front of `bytes` gives.
#[verifier::opaque]
pub open spec fn parse_services_discovered(bytes: Seq<u8>) -> Option<(PayloadView, Seq<u8>)> {
    match parse_info_list(bytes) {
        Some((services, r1)) => 
        Some((PayloadView::ServicesDiscovered { services }, r1)),
        None => None,
    }
}

/// The fields of the answer to a discovery that were written are read back.
pub proof fn lemma_parse_services_discovered(services: Seq<ServiceInfoView>, rest: Seq<u8>)
    requires
        ser_services_discovered(services).len() < pow256(8),
    ensures
        parse_services_discovered(ser_services_discovered(services) + rest) == Some((PayloadView::ServicesDiscovered { services }, rest)),
{
    reveal(ser_services_discovered);
    reveal(parse_services_discovered);
    lemma_parse_info_list(services, rest);
}

fn write_services_discovered(out: &mut Vec<u8>, services: &Vec<ServiceInfo>)
    ensures
        final(out)@ == old(out)@ + ser_services_discovered(infos_view(services@)),
{
    write_info_list(out, services);
    proof {
        reveal(ser_services_discovered);
        assert(out@ =~= old(out)@ + ser_services_discovered(infos_view(services@)));
    }
}

fn read_services_discovered(bytes: &[u8], pos: usize) -> (r: Option<(MessagePayload, usize)>)
    requires
        pos <= bytes@.len(),
    ensures
        match parse_services_discovered(bytes@.skip(pos as int)) {
            Some((p, rest)) => r is Some && r->Some_0.0@ == p && pos <= r->Some_0.1 <= bytes@.len() && rest == bytes@.skip(r->Some_0.1 as int),
            None => r is None,
        },
{
    proof {
        reveal(parse_services_discovered);
    }
    let (services, after_services) = match read_info_list(bytes, pos) {
        Some(x) => x,
        None => {
            return None;
        },
    };
    Some((MessagePayload::ServicesDiscovered { services }, after_services))
}

/// The wire form of the fields of a subscription, in order.
#[verifier::opaque]
pub open spec fn ser_subscribe(service: Seq<char>, mode: SubscriptionMode, qos: QosParams, schema_id: Option<Seq<char>>) -> Seq<u8> {
    ser_text(service) + ser_mode(mode) + ser_qos(qos) + ser_opt_text(schema_id)
}

/// What reading the fields of a subscription from the front of `bytes` gives.
#[verifier::opaque]
pub open spec fn parse_subscribe(bytes: Seq<u8>) -> Option<(PayloadView, Seq<u8>)> {
    match parse_text(bytes) {
        Some((service, r1)) => 
        match parse_mode(r1) {
            Some((mode, r2)) => 
            match parse_qos(r2) {
                Some((qos, r3)) => 
                match parse_opt_text(r3) {
                    Some((schema_id, r4)) => 
                    Some((PayloadView::Subscribe { service, mode, qos, schema_id }, r4)),
                    None => None,
                },
                None => None,
            },
            None => None,
        },
        None => None,
    }
}

/// The fields of a subscription that were written are read back.
pub proof fn lemma_parse_subscribe(service: Seq<char>, mode: SubscriptionMode, qos: QosParams, schema_id: Option<Seq<char>>, rest: Seq<u8>)
    requires
        ser_subscribe(service, mode, qos, schema_id).len() < pow256(8),
    ensures
        parse_subscribe(ser_subscribe(service, mode, qos, schema_id) + rest) == Some((PayloadView::Subscribe { service, mode, qos, schema_id }, rest)),
{
    reveal(ser_subscribe);
    reveal(parse_subscribe);
    let r3 = ser_opt_text(schema_id) + rest;
    let r2 = ser_qos(qos) + r3;
    let r1 = ser_mode(mode) + r2;
    assert(ser_subscribe(service, mode, qos, schema_id) + rest =~= ser_text(service) + r1);
    lemma_parse_text(service, r1);
    lemma_parse_mode(mode, r2);
    lemma_parse_qos(qos, r3);
    lemma_parse_opt_text(schema_id, rest);
}

fn write_subscribe(out: &mut Vec<u8>, service: &String, mode: SubscriptionMode, qos: QosParams, schema_id: &Option<String>)
    ensures
        final(out)@ == old(out)@ + ser_subscribe(service@, mode, qos, text_opt(*schema_id)),
{
    write_text(out, service.as_str());
    write_mode(out, mode);
    write_qos(out, qos);
    write_opt_text(out, schema_id);
    proof {
        reveal(ser_subscribe);
        assert(out@ =~= old(out)@ + ser_subscribe(service@, mode, qos, text_opt(*schema_id)));
    }
}

fn read_subscribe(bytes: &[u8], pos: usize) -> (r: Option<(MessagePayload, usize)>)
    requires
        pos <= bytes@.len(),
    ensures
        match parse_subscribe(bytes@.skip(pos as int)) {
            Some((p, rest)) => r is Some && r->Some_0.0@ == p && pos <= r->Some_0.1 <= bytes@.len() && rest == bytes@.skip(r->Some_0.1 as int),
            None => r is None,
        },
{
    proof {
        reveal(parse_subscribe);
    }
    let (service, after_service) = match read_text(bytes, pos) {
        Some(x) => x,
        None => {
            return None;
        },
    };
    let (mode, after_mode) = match read_mode(bytes, after_service) {
        Some(x) => x,
        None => {
            return None;
        },
    };
    let (qos, after_qos) = match read_qos(bytes, after_mode) {
        Some(x) => x,
        None => {
            return None;
        },
    };
    let (schema_id, after_schema_id) = match read_opt_text(bytes, after_qos) {
        Some(x) => x,
        None => {
            return None;
        },
    };
    Some((MessagePayload::Subscribe { service, mode, qos, schema_id }, after_schema_id))
}

/// The wire form of the fields of the answer to a subscription, in order.
#[verifier::opaque]
pub open spec fn ser_subscribe_ack(subscription_id: u128, success: bool, error: Option<Seq<char>>, current_value: Option<WindValue>) -> Seq<u8> {
    ser_id(subscription_id) + ser_flag(success) + ser_opt_text(error) + ser_opt_value(current_value)
}

/// What reading the fields of the answer to a subscription from the front of `bytes` gives.
#[verifier::opaque]
pub open spec fn parse_subscribe_ack(bytes: Seq<u8>) -> Option<(PayloadView, Seq<u8>)> {
    match parse_id(bytes) {
        Some((subscription_id, r1)) => 
        match parse_flag(r1) {
            Some((success, r2)) => 
            match parse_opt_text(r2) {
                Some((error, r3)) => 
                match parse_opt_value(r3) {
                    Some((current_value, r4)) => 
                    Some((PayloadView::SubscribeAck { subscription_id, success, error, current_value }, r4)),
                    None => None,
                },
                None => None,
            },
            None => None,
        },
        None => None,
    }
}

/// The fields of the answer to a subscription that were written are read back.
pub proof fn lemma_parse_subscribe_ack(subscription_id: u128, success: bool, error: Option<Seq<char>>, current_value: Option<WindValue>, rest: Seq<u8>)
    requires
        ser_subscribe_ack(subscription_id, success, error, current_value).len() < pow256(8),
    ensures
        parse_subscribe_ack(ser_subscribe_ack(subscription_id, success, error, current_value) + rest) == Some((PayloadView::SubscribeAck { subscription_id, success, error, current_value: value_opt_view(current_value) }, rest)),
{
    reveal(ser_subscribe_ack);
    reveal(parse_subscribe_ack);
    let r3 = ser_opt_value(current_value) + rest;
    let r2 = ser_opt_text(error) + r3;
    let r1 = ser_flag(success) + r2;
    assert(ser_subscribe_ack(subscription_id, success, error, current_value) + rest =~= ser_id(subscription_id) + r1);
    lemma_parse_id(subscription_id, r1);
    lemma_parse_flag(success, r2);
    lemma_parse_opt_text(error, r3);
    lemma_parse_opt_value(current_value, rest);
}

fn write_subscribe_ack(out: &mut Vec<u8>, subscription_id: u128, success: bool, error: &Option<String>, current_value: &Option<WindValue>)
    ensures
        final(out)@ == old(out)@ + ser_subscribe_ack(subscription_id, success, text_opt(*error), *current_value),
{
    write_id(out, subscription_id);
    write_flag(out, success);
    write_opt_text(out, error);
    write_opt_value(out, current_value);
    proof {
        reveal(ser_subscribe_ack);
        assert(out@ =~= old(out)@ + ser_subscribe_ack(subscription_id, success, text_opt(*error), *current_value));
    }
}

fn read_subscribe_ack(bytes: &[u8], pos: usize) -> (r: Option<(MessagePayload, usize)>)
    requires
        pos <= bytes@.len(),
    ensures
        match parse_subscribe_ack(bytes@.skip(pos as int)) {
            Some((p, rest)) => r is Some && r->Some_0.0@ == p && pos <= r->Some_0.1 <= bytes@.len() && rest == bytes@.skip(r->Some_0.1 as int),
            None => r is None,
        },
{
    proof {
        reveal(parse_subscribe_ack);
    }
    let (subscription_id, after_subscription_id) = match read_id(bytes, pos) {
        Some(x) => x,
        None => {
            return None;
        },
    };
    let (success, after_success) = match read_flag(bytes, after_subscription_id) {
        Some(x) => x,
        None => {
            return None;
        },
    };
    let (error, after_error) = match read_opt_text(bytes, after_success) {
        Some(x) => x,
        None => {
            return None;
        },
    };
    let (current_value, after_current_value) = match read_opt_value(bytes, after_error) {
        Some(x) => x,
        None => {
            return None;
        },
    };
    Some((MessagePayload::SubscribeAck { subscription_id, success, error, current_value }, after_current_value))
}

/// The wire form of the fields of the end of a subscription, in order.
#[verifier::opaque]
pub open spec fn ser_unsubscribe(subscription_id: u128) -> Seq<u8> {
    ser_id(subscription_id)
}

/// What reading the fields of the end of a subscription from the front of `bytes` gives.
#[verifier::opaque]
pub open spec fn parse_unsubscribe(bytes: Seq<u8>) -> Option<(PayloadView, Seq<u8>)> {
    match parse_id(bytes) {
        Some((subscription_id, r1)) => 
        Some((PayloadView::Unsubscribe { subscription_id }, r1)),
        None => None,
    }
}

/// The fields of the end of a subscription that were written are read back.
pub proof fn lemma_parse_unsubscribe(subscription_id: u128, rest: Seq<u8>)
    requires
        ser_unsubscribe(subscription_id).len() < pow256(8),
    ensures
        parse_unsubscribe(ser_unsubscribe(subscription_id) + rest) == Some((PayloadView::Unsubscribe { subscription_id }, rest)),
{
    reveal(ser_unsubscribe);
    reveal(parse_unsubscribe);
    lemma_parse_id(subscription_id, rest);
}

fn write_unsubscribe(out: &mut Vec<u8>, subscription_id: u128)
    ensures
        final(out)@ == old(out)@ + ser_unsubscribe(subscription_id),
{
    write_id(out, subscription_id);
    proof {
        reveal(ser_unsubscribe);
        assert(out@ =~= old(out)@ + ser_unsubscribe(subscription_id));
    }
}

fn read_unsubscribe(bytes: &[u8], pos: usize) -> (r: Option<(MessagePayload, usize)>)
    requires
        pos <= bytes@.len(),
    ensures
        match parse_unsubscribe(bytes@.skip(pos as int)) {
            Some((p, rest)) => r is Some && r->Some_0.0@ == p && pos <= r->Some_0.1 <= bytes@.len() && rest == bytes@.skip(r->Some_0.1 as int),
            None => r is None,
        },
{
    proof {
        reveal(parse_unsubscribe);
    }
    let (subscription_id, after_subscription_id) = match read_id(bytes, pos) {
        Some(x) => x,
        None => {
            return None;
        },
    };
    Some((MessagePayload::Unsubscribe { subscription_id }, after_subscription_id))
}

/// The wire form of the fields of a publication, in order.
#[verifier::opaque]
pub open spec fn ser_publish(service: Seq<char>, sequence: u64, value: WindValue, schema_id: Option<Seq<char>>) -> Seq<u8> {
    ser_text(service) + ser_u64(sequence) + ser_value(value) + ser_opt_text(schema_id)
}

/// What reading the fields of a publication from the front of `bytes` gives.
#[verifier::opaque]
pub open spec fn parse_publish(bytes: Seq<u8>) -> Option<(PayloadView, Seq<u8>)> {
    match parse_text(bytes) {
        Some((service, r1)) => 
        match parse_u64(r1) {
            Some((sequence, r2)) => 
            match parse_value(r2) {
                Some((value, r3)) => 
                match parse_opt_text(r3) {
                    Some((schema_id, r4)) => 
                    Some((PayloadView::Publish { service, sequence, value, schema_id }, r4)),
                    None => None,
                },
                None => None,
            },
            None => None,
        },
        None => None,
    }
}

/// The fields of a publication that were written are read back.
pub proof fn lemma_parse_publish(service: Seq<char>, sequence: u64, value: WindValue, schema_id: Option<Seq<char>>, rest: Seq<u8>)
    requires
        ser_publish(service, sequence, value, schema_id).len() < pow256(8),
    ensures
        parse_publish(ser_publish(service, sequence, value, schema_id) + rest) == Some((PayloadView::Publish { service, sequence, value: value@, schema_id }, rest)),
{
    reveal(ser_publish);
    reveal(parse_publish);
    let r3 = ser_opt_text(schema_id) + rest;
    let r2 = ser_value(value) + r3;
    let r1 = ser_u64(sequence) + r2;
    assert(ser_publish(service, sequence, value, schema_id) + rest =~= ser_text(service) + r1);
    lemma_parse_text(service, r1);
    lemma_parse_u64(sequence, r2);
    lemma_parse_value(value, r3);
    lemma_parse_opt_text(schema_id, rest);
}

fn write_publish(out: &mut Vec<u8>, service: &String, sequence: u64, value: &WindValue, schema_id: &Option<String>)
    ensures
        final(out)@ == old(out)@ + ser_publish(service@, sequence, *value, text_opt(*schema_id)),
{
    write_text(out, service.as_str());
    write_u64(out, sequence);
    write_value(out, value);
    write_opt_text(out, schema_id);
    proof {
        reveal(ser_publish);
        assert(out@ =~= old(out)@ + ser_publish(service@, sequence, *value, text_opt(*schema_id)));
    }
}

fn read_publish(bytes: &[u8], pos: usize) -> (r: Option<(MessagePayload, usize)>)
    requires
        pos <= bytes@.len(),
    ensures
        match parse_publish(bytes@.skip(pos as int)) {
            Some((p, rest)) => r is Some && r->Some_0.0@ == p && pos <= r->Some_0.1 <= bytes@.len() && rest == bytes@.skip(r->Some_0.1 as int),
            None => r is None,
        },
{
    proof {
        reveal(parse_publish);
    }
    let (service, after_service) = match read_text(bytes, pos) {
        Some(x) => x,
        None => {
            return None;
        },
    };
    let (sequence, after_sequence) = match read_u64(bytes, after_service) {
        Some(x) => x,
        None => {
            return None;
        },
    };
    let (value, after_value) = match read_value(bytes, after_sequence) {
        Some(x) => x,
        None => {
            return None;
        },
    };
    let (schema_id, after_schema_id) = match read_opt_text(bytes, after_value) {
        Some(x) => x,
        None => {
            return None;
        },
    };
    Some((MessagePayload::Publish { service, sequence, value, schema_id }, after_schema_id))
}

/// The wire form of the fields of a call, in order.
#[verifier::opaque]
pub open spec fn ser_rpc_call(service: Seq<char>, method: Seq<char>, params: WindValue, schema_id: Option<Seq<char>>) -> Seq<u8> {
    ser_text(service) + ser_text(method) + ser_value(params) + ser_opt_text(schema_id)
}

/// What reading the fields of a call from the front of `bytes` gives.
#[verifier::opaque]
pub open spec fn parse_rpc_call(bytes: Seq<u8>) -> Option<(PayloadView, Seq<u8>)> {
    match parse_text(bytes) {
        Some((service, r1)) => 
        match parse_text(r1) {
            Some((method, r2)) => 
            match parse_value(r2) {
                Some((params, r3)) => 
                match parse_opt_text(r3) {
                    Some((schema_id, r4)) => 
                    Some((PayloadView::RpcCall { service, method, params, schema_id }, r4)),
                    None => None,
                },
                None => None,
            },
            None => None,
        },
        None => None,
    }
}

/// The fields of a call that were written are read back.
pub proof fn lemma_parse_rpc_call(service: Seq<char>, method: Seq<char>, params: WindValue, schema_id: Option<Seq<char>>, rest: Seq<u8>)
    requires
        ser_rpc_call(service, method, params, schema_id).len() < pow256(8),
    ensures
        parse_rpc_call(ser_rpc_call(service, method, params, schema_id) + rest) == Some((PayloadView::RpcCall { service, method, params: params@, schema_id }, rest)),
{
    reveal(ser_rpc_call);
    reveal(parse_rpc_call);
    let r3 = ser_opt_text(schema_id) + rest;
    let r2 = ser_value(params) + r3;
    let r1 = ser_text(method) + r2;
    assert(ser_rpc_call(service, method, params, schema_id) + rest =~= ser_text(service) + r1);
    lemma_parse_text(service, r1);
    lemma_parse_text(method, r2);
    lemma_parse_value(params, r3);
    lemma_parse_opt_text(schema_id, rest);
}

fn write_rpc_call(out: &mut Vec<u8>, service: &String, method: &String, params: &WindValue, schema_id: &Option<String>)
    ensures
        final(out)@ == old(out)@ + ser_rpc_call(service@, method@, *params, text_opt(*schema_id)),
{
    write_text(out, service.as_str());
    write_text(out, method.as_str());
    write_value(out, params);
    write_opt_text(out, schema_id);
    proof {
        reveal(ser_rpc_call);
        assert(out@ =~= old(out)@ + ser_rpc_call(service@, method@, *params, text_opt(*schema_id)));
    }
}

fn read_rpc_call(bytes: &[u8], pos: usize) -> (r: Option<(MessagePayload, usize)>)
    requires
        pos <= bytes@.len(),
    ensures
        match parse_rpc_call(bytes@.skip(pos as int)) {
            Some((p, rest)) => r is Some && r->Some_0.0@ == p && pos <= r->Some_0.1 <= bytes@.len() && rest == bytes@.skip(r->Some_0.1 as int),
            None => r is None,
        },
{
    proof {
        reveal(parse_rpc_call);
    }
    let (service, after_service) = match read_text(bytes, pos) {
        Some(x) => x,
        None => {
            return None;
        },
    };
    let (method, after_method) = match read_text(bytes, after_service) {
        Some(x) => x,
        None => {
            return None;
        },
    };
    let (params, after_params) = match read_value(bytes, after_method) {
        Some(x) => x,
        None => {
            return None;
        },
    };
    let (schema_id, after_schema_id) = match read_opt_text(bytes, after_params) {
        Some(x) => x,
        None => {
            return None;
        },
    };
    Some((MessagePayload::RpcCall { service, method, params, schema_id }, after_schema_id))
}

/// The wire form of the fields of the answer to a call, in order.
#[verifier::opaque]
pub open spec fn ser_rpc_response(call_id: u128, result: Result<WindValue, String>, schema_id: Option<Seq<char>>) -> Seq<u8> {
    ser_id(call_id) + ser_result(result) + ser_opt_text(schema_id)
}

/// What reading the fields of the answer to a call from the front of `bytes` gives.
#[verifier::opaque]
pub open spec fn parse_rpc_response(bytes: Seq<u8>) -> Option<(PayloadView, Seq<u8>)> {
    match parse_id(bytes) {
        Some((call_id, r1)) => 
        match parse_result(r1) {
            Some((result, r2)) => 
            match parse_opt_text(r2) {
                Some((schema_id, r3)) => 
                Some((PayloadView::RpcResponse { call_id, result, schema_id }, r3)),
                None => None,
            },
            None => None,
        },
        None => None,
    }
}

/// The fields of the answer to a call that were written are read back.
pub proof fn lemma_parse_rpc_response(call_id: u128, result: Result<WindValue, String>, schema_id: Option<Seq<char>>, rest: Seq<u8>)
    requires
        ser_rpc_response(call_id, result, schema_id).len() < pow256(8),
    ensures
        parse_rpc_response(ser_rpc_response(call_id, result, schema_id) + rest) == Some((PayloadView::RpcResponse { call_id, result: result_view(result), schema_id }, rest)),
{
    reveal(ser_rpc_response);
    reveal(parse_rpc_response);
    let r2 = ser_opt_text(schema_id) + rest;
    let r1 = ser_result(result) + r2;
    assert(ser_rpc_response(call_id, result, schema_id) + rest =~= ser_id(call_id) + r1);
    lemma_parse_id(call_id, r1);
    lemma_parse_result(result, r2);
    lemma_parse_opt_text(schema_id, rest);
}

fn write_rpc_response(out: &mut Vec<u8>, call_id: u128, result: &Result<WindValue, String>, schema_id: &Option<String>)
    ensures
        final(out)@ == old(out)@ + ser_rpc_response(call_id, *result, text_opt(*schema_id)),
{
    write_id(out, call_id);
    write_result(out, result);
    write_opt_text(out, schema_id);
    proof {
        reveal(ser_rpc_response);
        assert(out@ =~= old(out)@ + ser_rpc_response(call_id, *result, text_opt(*schema_id)));
    }
}

fn read_rpc_response(bytes: &[u8], pos: usize) -> (r: Option<(MessagePayload, usize)>)
    requires
        pos <= bytes@.len(),
    ensures
        match parse_rpc_response(bytes@.skip(pos as int)) {
            Some((p, rest)) => r is Some && r->Some_0.0@ == p && pos <= r->Some_0.1 <= bytes@.len() && rest == bytes@.skip(r->Some_0.1 as int),
            None => r is None,
        },
{
    proof {
        reveal(parse_rpc_response);
    }
    let (call_id, after_call_id) = match read_id(bytes, pos) {
        Some(x) => x,
        None => {
            return None;
        },
    };
    let (result, after_result) = match read_result(bytes, after_call_id) {
        Some(x) => x,
        None => {
            return None;
        },
    };
    let (schema_id, after_schema_id) = match read_opt_text(bytes, after_result) {
        Some(x) => x,
        None => {
            return None;
        },
    };
    Some((MessagePayload::RpcResponse { call_id, result, schema_id }, after_schema_id))
}

/// The wire form of the fields of an error, in order.
#[verifier::opaque]
pub open spec fn ser_error(error: Seq<char>, context: Option<Seq<char>>) -> Seq<u8> {
    ser_text(error) + ser_opt_text(context)
}

/// What reading the fields of an error from the front of `bytes` gives.
#[verifier::opaque]
pub open spec fn parse_error(bytes: Seq<u8>) -> Option<(PayloadView, Seq<u8>)> {
    match parse_text(bytes) {
        Some((error, r1)) => 
        match parse_opt_text(r1) {
            Some((context, r2)) => 
            Some((PayloadView::Error { error, context }, r2)),
            None => None,
        },
        None => None,
    }
}

/// The fields of an error that were written are read back.
pub proof fn lemma_parse_error(error: Seq<char>, context: Option<Seq<char>>, rest: Seq<u8>)
    requires
        ser_error(error, context).len() < pow256(8),
    ensures
        parse_error(ser_error(error, context) + rest) == Some((PayloadView::Error { error, context }, rest)),
{
    reveal(ser_error);
    reveal(parse_error);
    let r1 = ser_opt_text(context) + rest;
    assert(ser_error(error, context) + rest =~= ser_text(error) + r1);
    lemma_parse_text(error, r1);
    lemma_parse_opt_text(context, rest);
}

fn write_error(out: &mut Vec<u8>, error: &String, context: &Option<String>)
    ensures
        final(out)@ == old(out)@ + ser_error(error@, text_opt(*context)),
{
    write_text(out, error.as_str());
    write_opt_text(out, context);
    proof {
        reveal(ser_error);
        assert(out@ =~= old(out)@ + ser_error(error@, text_opt(*context)));
    }
}

fn read_error(bytes: &[u8], pos: usize) -> (r: Option<(MessagePayload, usize)>)
    requires
        pos <= bytes@.len(),
    ensures
        match parse_error(bytes@.skip(pos as int)) {
            Some((p, rest)) => r is Some && r->Some_0.0@ == p && pos <= r->Some_0.1 <= bytes@.len() && rest == bytes@.skip(r->Some_0.1 as int),
            None => r is None,
        },
{
    proof {
        reveal(parse_error);
    }
    let (error, after_error) = match read_text(bytes, pos) {
        Some(x) => x,
        None => {
            return None;
        },
    };
    let (context, after_context) = match read_opt_text(bytes, after_error) {
        Some(x) => x,
        None => {
            return None;
        },
    };
    Some((MessagePayload::Error { error, context }, after_context))
}

/// The wire form of a payload: the byte of its kind, then its fields.
pub open spec fn ser_payload(p: MessagePayload) -> Seq<u8> {
    match p {
        MessagePayload::RegisterService { service, address, service_type, schema_id, ttl_ms, tags } => seq![0u8] + ser_register_service(service@, address@, service_type, text_opt(schema_id), ttl_ms, texts(tags@)),
        MessagePayload::ServiceRegistered { service, success, error } => seq![1u8] + ser_service_registered(service@, success, text_opt(error)),
        MessagePayload::DiscoverServices { pattern } => seq![2u8] + ser_discover_services(pattern@),
        MessagePayload::ServicesDiscovered { services } => seq![3u8] + ser_services_discovered(infos_view(services@)),
        MessagePayload::Subscribe { service, mode, qos, schema_id } => seq![4u8] + ser_subscribe(service@, mode, qos, text_opt(schema_id)),
        MessagePayload::SubscribeAck { subscription_id, success, error, current_value } => seq![5u8] + ser_subscribe_ack(subscription_id, success, text_opt(error), current_value),
        MessagePayload::Unsubscribe { subscription_id } => seq![6u8] + ser_unsubscribe(subscription_id),
        MessagePayload::Publish { service, sequence, value, schema_id } => seq![7u8] + ser_publish(service@, sequence, value, text_opt(schema_id)),
        MessagePayload::RpcCall { service, method, params, schema_id } => seq![8u8] + ser_rpc_call(service@, method@, params, text_opt(schema_id)),
        MessagePayload::RpcResponse { call_id, result, schema_id } => seq![9u8] + ser_rpc_response(call_id, result, text_opt(schema_id)),
        MessagePayload::Error { error, context } => seq![13u8] + ser_error(error@, text_opt(context)),
        MessagePayload::Heartbeat => seq![10u8],
        MessagePayload::Ping => seq![11u8],
        MessagePayload::Pong => seq![12u8],
    }
}

/// What reading a payload from the front of `bytes` gives.
pub open spec fn parse_payload(bytes: Seq<u8>) -> Option<(PayloadView, Seq<u8>)> {
    if bytes.len() == 0 {
        None
    } else if bytes[0] == 0 {
        parse_register_service(bytes.skip(1))
    } else if bytes[0] == 1 {
        parse_service_registered(bytes.skip(1))
    } else if bytes[0] == 2 {
        parse_discover_services(bytes.skip(1))
    } else if bytes[0] == 3 {
        parse_services_discovered(bytes.skip(1))
    } else if bytes[0] == 4 {
        parse_subscribe(bytes.skip(1))
    } else if bytes[0] == 5 {
        parse_subscribe_ack(bytes.skip(1))
    } else if bytes[0] == 6 {
        parse_unsubscribe(bytes.skip(1))
    } else if bytes[0] == 7 {
        parse_publish(bytes.skip(1))
    } else if bytes[0] == 8 {
        parse_rpc_call(bytes.skip(1))
    } else if bytes[0] == 9 {
        parse_rpc_response(bytes.skip(1))
    } else if bytes[0] == 10 {
        Some((PayloadView::Heartbeat, bytes.skip(1)))
    } else if bytes[0] == 11 {
        Some((PayloadView::Ping, bytes.skip(1)))
    } else if bytes[0] == 12 {
        Some((PayloadView::Pong, bytes.skip(1)))
    } else if bytes[0] == 13 {
        parse_error(bytes.skip(1))
    } else {
        None
    }
}

/// A payload that was written is read back, and what followed it is left.
pub proof fn lemma_parse_payload(p: MessagePayload, rest: Seq<u8>)
    requires
        ser_payload(p).len() < pow256(8),
    ensures
        parse_payload(ser_payload(p) + rest) == Some((p@, rest)),
{
    let all = ser_payload(p) + rest;
    match p {
        MessagePayload::RegisterService { service, address, service_type, schema_id, ttl_ms, tags } => {
            assert(all.skip(1) =~= ser_register_service(service@, address@, service_type, text_opt(schema_id), ttl_ms, texts(tags@)) + rest);
            lemma_parse_register_service(service@, address@, service_type, text_opt(schema_id), ttl_ms, texts(tags@), rest);
        },
        MessagePayload::ServiceRegistered { service, success, error } => {
            assert(all.skip(1) =~= ser_service_registered(service@, success, text_opt(error)) + rest);
            lemma_parse_service_registered(service@, success, text_opt(error), rest);
        },
        MessagePayload::DiscoverServices { pattern } => {
            assert(all.skip(1) =~= ser_discover_services(pattern@) + rest);
            lemma_parse_discover_services(pattern@, rest);
        },
        MessagePayload::ServicesDiscovered { services } => {
            assert(all.skip(1) =~= ser_services_discovered(infos_view(services@)) + rest);
            lemma_parse_services_discovered(infos_view(services@), rest);
        },
        MessagePayload::Subscribe { service, mode, qos, schema_id } => {
            assert(all.skip(1) =~= ser_subscribe(service@, mode, qos, text_opt(schema_id)) + rest);
            lemma_parse_subscribe(service@, mode, qos, text_opt(schema_id), rest);
        },
        MessagePayload::SubscribeAck { subscription_id, success, error, current_value } => {
            assert(all.skip(1) =~= ser_subscribe_ack(subscription_id, success, text_opt(error), current_value) + rest);
            lemma_parse_subscribe_ack(subscription_id, success, text_opt(error), current_value, rest);
        },
        MessagePayload::Unsubscribe { subscription_id } => {
            assert(all.skip(1) =~= ser_unsubscribe(subscription_id) + rest);
            lemma_parse_unsubscribe(subscription_id, rest);
        },
        MessagePayload::Publish { service, sequence, value, schema_id } => {
            assert(all.skip(1) =~= ser_publish(service@, sequence, value, text_opt(schema_id)) + rest);
            lemma_parse_publish(service@, sequence, value, text_opt(schema_id), rest);
        },
        MessagePayload::RpcCall { service, method, params, schema_id } => {
            assert(all.skip(1) =~= ser_rpc_call(service@, method@, params, text_opt(schema_id)) + rest);
            lemma_parse_rpc_call(service@, method@, params, text_opt(schema_id), rest);
        },
        MessagePayload::RpcResponse { call_id, result, schema_id } => {
            assert(all.skip(1) =~= ser_rpc_response(call_id, result, text_opt(schema_id)) + rest);
            lemma_parse_rpc_response(call_id, result, text_opt(schema_id), rest);
        },
        MessagePayload::Error { error, context } => {
            assert(all.skip(1) =~= ser_error(error@, text_opt(context)) + rest);
            lemma_parse_error(error@, text_opt(context), rest);
        },
        _ => {
            assert(all.skip(1) =~= rest);
        },
    }
}

/// Appends the wire form of a payload.
pub fn write_payload(out: &mut Vec<u8>, p: &MessagePayload)
    ensures
        final(out)@ == old(out)@ + ser_payload(*p),
{
    match p {
        MessagePayload::RegisterService { service, address, service_type, schema_id, ttl_ms, tags } => {
            out.push(0);
            write_register_service(out, service, address, *service_type, schema_id, *ttl_ms, tags);
        },
        MessagePayload::ServiceRegistered { service, success, error } => {
            out.push(1);
            write_service_registered(out, service, *success, error);
        },
        MessagePayload::DiscoverServices { pattern } => {
            out.push(2);
            write_discover_services(out, pattern);
        },
        MessagePayload::ServicesDiscovered { services } => {
            out.push(3);
            write_services_discovered(out, services);
        },
        MessagePayload::Subscribe { service, mode, qos, schema_id } => {
            out.push(4);
            write_subscribe(out, service, *mode, *qos, schema_id);
        },
        MessagePayload::SubscribeAck { subscription_id, success, error, current_value } => {
            out.push(5);
            write_subscribe_ack(out, *subscription_id, *success, error, current_value);
        },
        MessagePayload::Unsubscribe { subscription_id } => {
            out.push(6);
            write_unsubscribe(out, *subscription_id);
        },
        MessagePayload::Publish { service, sequence, value, schema_id } => {
            out.push(7);
            write_publish(out, service, *sequence, value, schema_id);
        },
        MessagePayload::RpcCall { service, method, params, schema_id } => {
            out.push(8);
            write_rpc_call(out, service, method, params, schema_id);
        },
        MessagePayload::RpcResponse { call_id, result, schema_id } => {
            out.push(9);
            write_rpc_response(out, *call_id, result, schema_id);
        },
        MessagePayload::Error { error, context } => {
            out.push(13);
            write_error(out, error, context);
        },
        MessagePayload::Heartbeat => {
            out.push(10);
        },
        MessagePayload::Ping => {
            out.push(11);
        },
        MessagePayload::Pong => {
            out.push(12);
        },
    }
    assert(out@ =~= old(out)@ + ser_payload(*p));
}

/// Reads a payload at `pos`. Returns it with the position after it, or
/// nothing where the bytes are no payload.
pub fn read_payload(bytes: &[u8], pos: usize) -> (r: Option<(MessagePayload, usize)>)
    requires
        pos <= bytes@.len(),
    ensures
        match parse_payload(bytes@.skip(pos as int)) {
            Some((p, rest)) => r is Some && r->Some_0.0@ == p && pos < r->Some_0.1 <= bytes@.len() && rest == bytes@.skip(r->Some_0.1 as int),
            None => r is None,
        },
{
    if pos >= bytes.len() {
        return None;
    }
    let tag = bytes[pos];
    assert(bytes@.skip(pos as int)[0] == tag);
    assert(bytes@.skip(pos as int).skip(1) =~= bytes@.skip(pos + 1));
    if tag == 0 {
        read_register_service(bytes, pos + 1)
    } else if tag == 1 {
        read_service_registered(bytes, pos + 1)
    } else if tag == 2 {
        read_discover_services(bytes, pos + 1)
    } else if tag == 3 {
        read_services_discovered(bytes, pos + 1)
    } else if tag == 4 {
        read_subscribe(bytes, pos + 1)
    } else if tag == 5 {
        read_subscribe_ack(bytes, pos + 1)
    } else if tag == 6 {
        read_unsubscribe(bytes, pos + 1)
    } else if tag == 7 {
        read_publish(bytes, pos + 1)
    } else if tag == 8 {
        read_rpc_call(bytes, pos + 1)
    } else if tag == 9 {
        read_rpc_response(bytes, pos + 1)
    } else if tag == 10 {
        Some((MessagePayload::Heartbeat, pos + 1))
    } else if tag == 11 {
        Some((MessagePayload::Ping, pos + 1))
    } else if tag == 12 {
        Some((MessagePayload::Pong, pos + 1))
    } else if tag == 13 {
        read_error(bytes, pos + 1)
    } else {
        None
    }
}
} // verus!
