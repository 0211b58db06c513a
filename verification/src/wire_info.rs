//! The wire form of the records that describe services and subscriptions.

use crate::types::{
    infos_view, QosParams, ReliabilityLevel, ServiceInfo, ServiceInfoView, ServiceType,
    SubscriptionMode,
};
use crate::wire::{
    be_bytes, lemma_be_len, lemma_parse_be, lemma_parse_opt_text, lemma_parse_text,
    lemma_parse_text_list, lemma_pow256, parse_be, parse_opt_text, parse_text, parse_text_list,
    pow256, read_be, read_opt_text, read_text, read_text_list, ser_opt_text, ser_text,
    ser_text_list, write_be, write_opt_text, write_text, write_text_list,
};
use vstd::prelude::*;

verus! {

/// The byte that stands for a service type.
pub open spec fn service_type_code(t: ServiceType) -> u8 {
    match t {
        ServiceType::Publisher => 0,
        ServiceType::RpcServer => 1,
        ServiceType::Both => 2,
    }
}

/// What reading a service type from the front of `bytes` gives.
pub open spec fn parse_service_type(bytes: Seq<u8>) -> Option<(ServiceType, Seq<u8>)> {
    if bytes.len() == 0 {
        None
    } else if bytes[0] == 0 {
        Some((ServiceType::Publisher, bytes.skip(1)))
    } else if bytes[0] == 1 {
        Some((ServiceType::RpcServer, bytes.skip(1)))
    } else if bytes[0] == 2 {
        Some((ServiceType::Both, bytes.skip(1)))
    } else {
        None
    }
}

/// The wire form of a subscription mode.
pub open spec fn ser_mode(m: SubscriptionMode) -> Seq<u8> {
    match m {
        SubscriptionMode::Once => seq![0u8],
        SubscriptionMode::Periodic { interval_ms } => seq![1u8] + be_bytes(interval_ms as nat, 8),
        SubscriptionMode::OnChange => seq![2u8],
    }
}

/// What reading a subscription mode from the front of `bytes` gives.
pub open spec fn parse_mode(bytes: Seq<u8>) -> Option<(SubscriptionMode, Seq<u8>)> {
    if bytes.len() == 0 {
        None
    } else if bytes[0] == 0 {
        Some((SubscriptionMode::Once, bytes.skip(1)))
    } else if bytes[0] == 1 {
        match parse_be(bytes.skip(1), 8) {
            Some((n, rest)) => Some((SubscriptionMode::Periodic { interval_ms: n as u64 }, rest)),
            None => None,
        }
    } else if bytes[0] == 2 {
        Some((SubscriptionMode::OnChange, bytes.skip(1)))
    } else {
        None
    }
}

/// A subscription mode that was written is read back.
pub proof fn lemma_parse_mode(m: SubscriptionMode, rest: Seq<u8>)
    ensures
        parse_mode(ser_mode(m) + rest) == Some((m, rest)),
{
    let all = ser_mode(m) + rest;
    match m {
        SubscriptionMode::Periodic { interval_ms } => {
            lemma_pow256();
            assert(all.skip(1) =~= be_bytes(interval_ms as nat, 8) + rest);
            lemma_parse_be(interval_ms as nat, 8, rest);
        },
        _ => {
            assert(all.skip(1) =~= rest);
        },
    }
}

/// The wire form of quality-of-service parameters: a byte for the
/// reliability, a byte for the durability, and the queue size in four
/// bytes.
pub open spec fn ser_qos(q: QosParams) -> Seq<u8> {
    seq![
        if q.reliability is Reliable {
            1u8
        } else {
            0u8
        },
        if q.durability {
            1u8
        } else {
            0u8
        },
    ] + be_bytes(q.max_queue_size as nat, 4)
}

/// What reading quality-of-service parameters from the front of `bytes`
/// gives.
pub open spec fn parse_qos(bytes: Seq<u8>) -> Option<(QosParams, Seq<u8>)> {
    if bytes.len() >= 2 && bytes[0] <= 1 && bytes[1] <= 1 {
        match parse_be(bytes.skip(2), 4) {
            Some((n, rest)) => Some(
                (
                    QosParams {
                        reliability: if bytes[0] == 1 {
                            ReliabilityLevel::Reliable
                        } else {
                            ReliabilityLevel::BestEffort
                        },
                        durability: bytes[1] == 1,
                        max_queue_size: n as u32,
                    },
                    rest,
                ),
            ),
            None => None,
        }
    } else {
        None
    }
}

/// Quality-of-service parameters that were written are read back.
pub proof fn lemma_parse_qos(q: QosParams, rest: Seq<u8>)
    ensures
        parse_qos(ser_qos(q) + rest) == Some((q, rest)),
{
    let all = ser_qos(q) + rest;
    lemma_pow256();
    assert(all.skip(2) =~= be_bytes(q.max_queue_size as nat, 4) + rest);
    lemma_parse_be(q.max_queue_size as nat, 4, rest);
}

/// The wire form of a service record: its fields in order.
#[verifier::opaque]
pub open spec fn ser_info(i: ServiceInfoView) -> Seq<u8> {
    ser_text(i.name) + ser_text(i.address) + seq![service_type_code(i.service_type)]
        + ser_opt_text(i.schema_id) + be_bytes(i.ttl_ms as nat, 8) + ser_text_list(i.tags)
}

/// What reading a service record from the front of `bytes` gives.
#[verifier::opaque]
pub open spec fn parse_info(bytes: Seq<u8>) -> Option<(ServiceInfoView, Seq<u8>)> {
    match parse_text(bytes) {
        Some((name, r0)) => match parse_text(r0) {
            Some((address, r1)) => match parse_service_type(r1) {
                Some((service_type, r2)) => match parse_opt_text(r2) {
                    Some((schema_id, r3)) => match parse_be(r3, 8) {
                        Some((ttl, r4)) => match parse_text_list(r4) {
                            Some((tags, r5)) => Some(
                                (
                                    ServiceInfoView {
                                        name,
                                        address,
                                        service_type,
                                        schema_id,
                                        ttl_ms: ttl as u64,
                                        tags,
                                    },
                                    r5,
                                ),
                            ),
                            None => None,
                        },
                        None => None,
                    },
                    None => None,
                },
                None => None,
            },
            None => None,
        },
        None => None,
    }
}

/// A service record that was written is read back.
pub proof fn lemma_parse_info(i: ServiceInfoView, rest: Seq<u8>)
    requires
        ser_info(i).len() < pow256(8),
    ensures
        parse_info(ser_info(i) + rest) == Some((i, rest)),
{
    reveal(ser_info);
    reveal(parse_info);
    lemma_pow256();
    let r4 = ser_text_list(i.tags) + rest;
    let r3 = be_bytes(i.ttl_ms as nat, 8) + r4;
    let r2 = ser_opt_text(i.schema_id) + r3;
    let r1 = seq![service_type_code(i.service_type)] + r2;
    let r0 = ser_text(i.address) + r1;
    assert(ser_info(i) + rest =~= ser_text(i.name) + r0);
    lemma_parse_text(i.name, r0);
    lemma_parse_text(i.address, r1);
    assert(r1.skip(1) =~= r2);
    lemma_parse_opt_text(i.schema_id, r3);
    lemma_parse_be(i.ttl_ms as nat, 8, r4);
    lemma_parse_text_list(i.tags, rest);
}

/// A service record takes at least one byte.
pub proof fn lemma_ser_info_nonempty(i: ServiceInfoView)
    ensures
        ser_info(i).len() >= 1,
{
    reveal(ser_info);
}

/// The wire form of service records, one after the other.
pub open spec fn ser_infos(list: Seq<ServiceInfoView>) -> Seq<u8>
    decreases list.len(),
{
    if list.len() == 0 {
        Seq::empty()
    } else {
        ser_infos(list.drop_last()) + ser_info(list.last())
    }
}

/// The wire form of a list of service records: their number, then the
/// records.
pub open spec fn ser_info_list(list: Seq<ServiceInfoView>) -> Seq<u8> {
    be_bytes(list.len(), 8) + ser_infos(list)
}

/// What reading `n` service records from the front of `bytes` gives, after
/// `acc`.
pub open spec fn parse_infos(bytes: Seq<u8>, n: nat, acc: Seq<ServiceInfoView>) -> Option<
    (Seq<ServiceInfoView>, Seq<u8>),
>
    decreases n,
{
    if n == 0 {
        Some((acc, bytes))
    } else {
        match parse_info(bytes) {
            Some((i, rest)) => parse_infos(rest, (n - 1) as nat, acc.push(i)),
            None => None,
        }
    }
}

/// What reading a list of service records from the front of `bytes` gives.
pub open spec fn parse_info_list(bytes: Seq<u8>) -> Option<(Seq<ServiceInfoView>, Seq<u8>)> {
    match parse_be(bytes, 8) {
        Some((n, rest)) => parse_infos(rest, n, Seq::empty()),
        None => None,
    }
}

/// The wire form of records is that of the first and then that of the
/// others.
pub proof fn lemma_ser_infos_front(list: Seq<ServiceInfoView>)
    requires
        list.len() > 0,
    ensures
        ser_infos(list) == ser_info(list.first()) + ser_infos(list.drop_first()),
    decreases list.len(),
{
    let tail = list.drop_first();
    if list.len() == 1 {
        assert(list.drop_last() =~= Seq::<ServiceInfoView>::empty());
        assert(ser_infos(list.drop_last()) =~= Seq::<u8>::empty());
        assert(ser_infos(tail) =~= Seq::<u8>::empty());
        assert(ser_infos(list) =~= ser_info(list.first()) + ser_infos(tail));
    } else {
        lemma_ser_infos_front(list.drop_last());
        assert(list.drop_last().drop_first() =~= tail.drop_last());
        assert(tail.last() == list.last());
        assert(list.drop_last().first() == list.first());
        assert(ser_infos(list) =~= ser_info(list.first()) + ser_infos(tail));
    }
}

/// Records take at least as many bytes as they are.
pub proof fn lemma_ser_infos_len(list: Seq<ServiceInfoView>)
    ensures
        ser_infos(list).len() >= list.len(),
    decreases list.len(),
{
    if list.len() > 0 {
        lemma_ser_infos_len(list.drop_last());
        lemma_ser_info_nonempty(list.last());
    }
}

/// Records that were written are read back.
pub proof fn lemma_parse_infos(list: Seq<ServiceInfoView>, acc: Seq<ServiceInfoView>, rest: Seq<u8>)
    requires
        ser_infos(list).len() < pow256(8),
    ensures
        parse_infos(ser_infos(list) + rest, list.len(), acc) == Some((acc + list, rest)),
    decreases list.len(),
{
    if list.len() == 0 {
        assert(ser_infos(list) + rest =~= rest);
        assert(acc + list =~= acc);
    } else {
        let tail = list.drop_first();
        lemma_ser_infos_front(list);
        let after = ser_infos(tail) + rest;
        assert(ser_infos(list) + rest =~= ser_info(list.first()) + after);
        lemma_parse_info(list.first(), after);
        lemma_parse_infos(tail, acc.push(list.first()), rest);
        assert(acc.push(list.first()) + tail =~= acc + list);
    }
}

/// A list of records that was written is read back.
pub proof fn lemma_parse_info_list(list: Seq<ServiceInfoView>, rest: Seq<u8>)
    requires
        ser_info_list(list).len() < pow256(8),
    ensures
        parse_info_list(ser_info_list(list) + rest) == Some((list, rest)),
{
    lemma_ser_infos_len(list);
    let after = ser_infos(list) + rest;
    assert(ser_info_list(list) + rest =~= be_bytes(list.len(), 8) + after);
    lemma_parse_be(list.len(), 8, after);
    lemma_parse_infos(list, Seq::empty(), rest);
    assert(Seq::<ServiceInfoView>::empty() + list =~= list);
}

/// The wire form of a service type: its byte.
pub open spec fn ser_service_type(t: ServiceType) -> Seq<u8> {
    seq![service_type_code(t)]
}

/// A service type that was written is read back.
pub proof fn lemma_parse_service_type(t: ServiceType, rest: Seq<u8>)
    ensures
        parse_service_type(ser_service_type(t) + rest) == Some((t, rest)),
{
    assert((ser_service_type(t) + rest).skip(1) =~= rest);
}

/// Appends the wire form of a service type.
pub fn write_service_type(out: &mut Vec<u8>, t: ServiceType)
    ensures
        final(out)@ == old(out)@ + ser_service_type(t),
{
    match t {
        ServiceType::Publisher => out.push(0),
        ServiceType::RpcServer => out.push(1),
        ServiceType::Both => out.push(2),
    }
    assert(out@ =~= old(out)@ + ser_service_type(t));
}

/// Reads a service type at `pos`.
pub fn read_service_type(bytes: &[u8], pos: usize) -> (r: Option<(ServiceType, usize)>)
    requires
        pos <= bytes@.len(),
    ensures
        match parse_service_type(bytes@.skip(pos as int)) {
            Some((t, rest)) => r is Some && r->Some_0.0 == t && pos <= r->Some_0.1 <= bytes@.len()
                && rest == bytes@.skip(r->Some_0.1 as int),
            None => r is None,
        },
{
    if pos >= bytes.len() {
        return None;
    }
    let tag = bytes[pos];
    assert(bytes@.skip(pos as int)[0] == tag);
    assert(bytes@.skip(pos as int).skip(1) =~= bytes@.skip(pos + 1));
    if tag == 0 {
        Some((ServiceType::Publisher, pos + 1))
    } else if tag == 1 {
        Some((ServiceType::RpcServer, pos + 1))
    } else if tag == 2 {
        Some((ServiceType::Both, pos + 1))
    } else {
        None
    }
}

/// Appends the wire form of a subscription mode.
pub fn write_mode(out: &mut Vec<u8>, m: SubscriptionMode)
    ensures
        final(out)@ == old(out)@ + ser_mode(m),
{
    match m {
        SubscriptionMode::Once => {
            out.push(0);
        },
        SubscriptionMode::Periodic { interval_ms } => {
            out.push(1);
            write_be(out, interval_ms as u128, 8);
        },
        SubscriptionMode::OnChange => {
            out.push(2);
        },
    }
    assert(out@ =~= old(out)@ + ser_mode(m));
}

/// Reads a subscription mode at `pos`.
pub fn read_mode(bytes: &[u8], pos: usize) -> (r: Option<(SubscriptionMode, usize)>)
    requires
        pos <= bytes@.len(),
    ensures
        match parse_mode(bytes@.skip(pos as int)) {
            Some((m, rest)) => r is Some && r->Some_0.0 == m && pos < r->Some_0.1 <= bytes@.len()
                && rest == bytes@.skip(r->Some_0.1 as int),
            None => r is None,
        },
{
    if pos >= bytes.len() {
        return None;
    }
    let tag = bytes[pos];
    assert(bytes@.skip(pos as int)[0] == tag);
    assert(bytes@.skip(pos as int).skip(1) =~= bytes@.skip(pos + 1));
    if tag == 0 {
        Some((SubscriptionMode::Once, pos + 1))
    } else if tag == 1 {
        proof {
            lemma_pow256();
        }
        match read_be(bytes, pos + 1, 8) {
            Some((n, next)) => Some((SubscriptionMode::Periodic { interval_ms: n as u64 }, next)),
            None => None,
        }
    } else if tag == 2 {
        Some((SubscriptionMode::OnChange, pos + 1))
    } else {
        None
    }
}

/// Appends the wire form of quality-of-service parameters.
pub fn write_qos(out: &mut Vec<u8>, q: QosParams)
    ensures
        final(out)@ == old(out)@ + ser_qos(q),
{
    match q.reliability {
        ReliabilityLevel::Reliable => out.push(1),
        ReliabilityLevel::BestEffort => out.push(0),
    }
    out.push(
        if q.durability {
            1
        } else {
            0
        },
    );
    write_be(out, q.max_queue_size as u128, 4);
    assert(out@ =~= old(out)@ + ser_qos(q));
}

/// Reads quality-of-service parameters at `pos`.
pub fn read_qos(bytes: &[u8], pos: usize) -> (r: Option<(QosParams, usize)>)
    requires
        pos <= bytes@.len(),
    ensures
        match parse_qos(bytes@.skip(pos as int)) {
            Some((q, rest)) => r is Some && r->Some_0.0 == q && pos < r->Some_0.1 <= bytes@.len()
                && rest == bytes@.skip(r->Some_0.1 as int),
            None => r is None,
        },
{
    if bytes.len() - pos < 2 {
        return None;
    }
    let a = bytes[pos];
    let b = bytes[pos + 1];
    assert(bytes@.skip(pos as int)[0] == a);
    assert(bytes@.skip(pos as int)[1] == b);
    assert(bytes@.skip(pos as int).skip(2) =~= bytes@.skip(pos + 2));
    if a > 1 || b > 1 {
        return None;
    }
    proof {
        lemma_pow256();
    }
    match read_be(bytes, pos + 2, 4) {
        Some((n, next)) => Some(
            (
                QosParams {
                    reliability: if a == 1 {
                        ReliabilityLevel::Reliable
                    } else {
                        ReliabilityLevel::BestEffort
                    },
                    durability: b == 1,
                    max_queue_size: n as u32,
                },
                next,
            ),
        ),
        None => None,
    }
}

/// Appends the wire form of a service record.
pub fn write_info(out: &mut Vec<u8>, i: &ServiceInfo)
    ensures
        final(out)@ == old(out)@ + ser_info(i@),
{
    write_text(out, i.name.as_str());
    write_text(out, i.address.as_str());
    write_service_type(out, i.service_type);
    write_opt_text(out, &i.schema_id);
    write_be(out, i.ttl_ms as u128, 8);
    write_text_list(out, &i.tags);
    proof {
        reveal(ser_info);
        assert(out@ =~= old(out)@ + ser_info(i@));
    }
}

/// Reads a service record at `pos`.
pub fn read_info(bytes: &[u8], pos: usize) -> (r: Option<(ServiceInfo, usize)>)
    requires
        pos <= bytes@.len(),
    ensures
        match parse_info(bytes@.skip(pos as int)) {
            Some((i, rest)) => r is Some && r->Some_0.0@ == i && pos < r->Some_0.1 <= bytes@.len()
                && rest == bytes@.skip(r->Some_0.1 as int),
            None => r is None,
        },
{
    proof {
        reveal(parse_info);
        lemma_pow256();
    }
    let (name, after_name) = match read_text(bytes, pos) {
        Some(x) => x,
        None => {
            return None;
        },
    };
    let (address, after_address) = match read_text(bytes, after_name) {
        Some(x) => x,
        None => {
            return None;
        },
    };
    let (service_type, after_type) = match read_service_type(bytes, after_address) {
        Some(x) => x,
        None => {
            return None;
        },
    };
    let (schema_id, after_schema) = match read_opt_text(bytes, after_type) {
        Some(x) => x,
        None => {
            return None;
        },
    };
    let (ttl, after_ttl) = match read_be(bytes, after_schema, 8) {
        Some(x) => x,
        None => {
            return None;
        },
    };
    let (tags, after_tags) = match read_text_list(bytes, after_ttl) {
        Some(x) => x,
        None => {
            return None;
        },
    };
    Some((ServiceInfo { name, address, service_type, schema_id, ttl_ms: ttl as u64, tags }, after_tags))
}

/// Appends the wire form of a list of service records.
pub fn write_info_list(out: &mut Vec<u8>, list: &Vec<ServiceInfo>)
    ensures
        final(out)@ == old(out)@ + ser_info_list(infos_view(list@)),
{
    let ghost views = infos_view(list@);
    write_be(out, list.len() as u128, 8);
    let ghost start = out@;
    let mut i: usize = 0;
    assert(out@ =~= start + ser_infos(views.take(0)));
    while i < list.len()
        invariant
            i <= list.len(),
            views == infos_view(list@),
            out@ == start + ser_infos(views.take(i as int)),
        decreases list.len() - i,
    {
        write_info(out, &list[i]);
        proof {
            assert(views.take(i + 1).drop_last() =~= views.take(i as int));
            assert(views.take(i + 1).last() == list@[i as int]@);
            assert(out@ =~= start + ser_infos(views.take(i + 1)));
        }
        i = i + 1;
    }
    assert(views.take(i as int) =~= views);
    assert(out@ =~= old(out)@ + ser_info_list(views));
}

/// Reads a list of service records at `pos`.
#[verifier::loop_isolation(false)]
pub fn read_info_list(bytes: &[u8], pos: usize) -> (r: Option<(Vec<ServiceInfo>, usize)>)
    requires
        pos <= bytes@.len(),
    ensures
        match parse_info_list(bytes@.skip(pos as int)) {
            Some((list, rest)) => r is Some && infos_view(r->Some_0.0@) == list && pos
                < r->Some_0.1 <= bytes@.len() && rest == bytes@.skip(r->Some_0.1 as int),
            None => r is None,
        },
{
    match read_be(bytes, pos, 8) {
        Some((n, start)) => {
            let mut out: Vec<ServiceInfo> = Vec::new();
            let mut p: usize = start;
            let mut left: u128 = n;
            assert(infos_view(out@) =~= Seq::<ServiceInfoView>::empty());
            while left > 0
                invariant
                    start <= p <= bytes@.len(),
                    parse_infos(bytes@.skip(start as int), n as nat, Seq::empty()) == parse_infos(
                        bytes@.skip(p as int),
                        left as nat,
                        infos_view(out@),
                    ),
                decreases left,
            {
                match read_info(bytes, p) {
                    Some((info, next)) => {
                        let ghost before = infos_view(out@);
                        out.push(info);
                        assert(infos_view(out@) =~= before.push(info@));
                        p = next;
                        left = left - 1;
                    },
                    None => {
                        return None;
                    },
                }
            }
            Some((out, p))
        },
        None => None,
    }
}

} // verus!
