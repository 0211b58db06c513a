//! The wire form of values.
//!
//! A value is written as one byte that tells its kind and then its content:
//! numbers in their fixed width, texts and byte strings with their length,
//! arrays and mappings as the number of their elements and then the
//! elements in order.

use crate::value::{items_view, pairs_view, value_view, ValueView, WindValue};
use crate::wire::{
    be_bytes, lemma_parse_be, lemma_parse_bytes, lemma_parse_text, lemma_pow256, parse_be,
    parse_bytes, parse_text, pow256, read_be, read_bytes, read_text, ser_bytes, ser_text,
    write_be, write_bytes, write_text,
};
use vstd::prelude::*;
use vstd::slice::{slice_subrange, slice_to_vec};

verus! {

/// The wire form of the elements of an array, one after the other.
pub open spec fn ser_items(items: Seq<WindValue>) -> Seq<u8>
    decreases items, items.len(),
{
    if items.len() == 0 {
        Seq::empty()
    } else {
        ser_items(items.drop_last()) + ser_value(items.last())
    }
}

/// The wire form of the entries of a mapping, one after the other: of each
/// its key and then its value.
pub open spec fn ser_pairs(pairs: Seq<(String, WindValue)>) -> Seq<u8>
    decreases pairs, pairs.len(),
{
    if pairs.len() == 0 {
        Seq::empty()
    } else {
        ser_pairs(pairs.drop_last()) + ser_text(pairs.last().0@) + ser_value(pairs.last().1)
    }
}

/// The wire form of a value.
pub open spec fn ser_value(v: WindValue) -> Seq<u8>
    decreases v, 0nat,
{
    match v {
        WindValue::Bool(b) => seq![
            0u8,
            if b {
                1u8
            } else {
                0u8
            },
        ],
        WindValue::I32(x) => seq![1u8] + be_bytes((x + 0x8000_0000) as nat, 4),
        WindValue::I64(x) => seq![2u8] + be_bytes((x + 0x8000_0000_0000_0000) as nat, 8),
        WindValue::F32(x) => seq![3u8] + be_bytes(x as nat, 4),
        WindValue::F64(x) => seq![4u8] + be_bytes(x as nat, 8),
        WindValue::String(s) => seq![5u8] + ser_text(s@),
        WindValue::Bytes(b) => seq![6u8] + ser_bytes(b@),
        WindValue::Array(items) => seq![7u8] + be_bytes(items@.len(), 8) + ser_items(items@),
        WindValue::Mapping(pairs) => seq![8u8] + be_bytes(pairs@.len(), 8) + ser_pairs(pairs@),
    }
}

/// What reading `n` values from the front of `bytes` gives, after `acc`.
pub open spec fn parse_items(bytes: Seq<u8>, n: nat, acc: Seq<ValueView>) -> Option<
    (Seq<ValueView>, Seq<u8>),
>
    decreases bytes.len(), n + 1,
{
    if n == 0 {
        Some((acc, bytes))
    } else {
        match parse_value(bytes) {
            Some((v, rest)) => if rest.len() < bytes.len() {
                parse_items(rest, (n - 1) as nat, acc.push(v))
            } else {
                None
            },
            None => None,
        }
    }
}

/// What reading `n` entries from the front of `bytes` gives, put into `acc`
/// in order.
pub open spec fn parse_pairs(bytes: Seq<u8>, n: nat, acc: Map<Seq<char>, ValueView>) -> Option<
    (Map<Seq<char>, ValueView>, Seq<u8>),
>
    decreases bytes.len(), n + 1,
{
    if n == 0 {
        Some((acc, bytes))
    } else {
        match parse_text(bytes) {
            Some((key, after_key)) => if after_key.len() <= bytes.len() {
                match parse_value(after_key) {
                    Some((v, rest)) => if rest.len() < after_key.len() {
                        parse_pairs(rest, (n - 1) as nat, acc.insert(key, v))
                    } else {
                        None
                    },
                    None => None,
                }
            } else {
                None
            },
            None => None,
        }
    }
}

/// What reading a value from the front of `bytes` gives: the value and the
/// bytes after it, or nothing where the bytes are no value.
pub open spec fn parse_value(bytes: Seq<u8>) -> Option<(ValueView, Seq<u8>)>
    decreases bytes.len(), 0nat,
{
    if bytes.len() == 0 {
        None
    } else {
        let body = bytes.skip(1);
        if bytes[0] == 0 {
            if body.len() >= 1 && body[0] <= 1 {
                Some((ValueView::Bool(body[0] == 1), body.skip(1)))
            } else {
                None
            }
        } else if bytes[0] == 1 {
            match parse_be(body, 4) {
                Some((n, rest)) => Some((ValueView::I32((n - 0x8000_0000) as i32), rest)),
                None => None,
            }
        } else if bytes[0] == 2 {
            match parse_be(body, 8) {
                Some((n, rest)) => Some(
                    (ValueView::I64((n - 0x8000_0000_0000_0000) as i64), rest),
                ),
                None => None,
            }
        } else if bytes[0] == 3 {
            match parse_be(body, 4) {
                Some((n, rest)) => Some((ValueView::F32(n as u32), rest)),
                None => None,
            }
        } else if bytes[0] == 4 {
            match parse_be(body, 8) {
                Some((n, rest)) => Some((ValueView::F64(n as u64), rest)),
                None => None,
            }
        } else if bytes[0] == 5 {
            match parse_text(body) {
                Some((s, rest)) => Some((ValueView::String(s), rest)),
                None => None,
            }
        } else if bytes[0] == 6 {
            match parse_bytes(body) {
                Some((b, rest)) => Some((ValueView::Bytes(b), rest)),
                None => None,
            }
        } else if bytes[0] == 7 {
            if body.len() >= 8 {
                match parse_items(body.skip(8), crate::wire::be_value(body.take(8)), Seq::empty()) {
                    Some((items, rest)) => Some((ValueView::Array(items), rest)),
                    None => None,
                }
            } else {
                None
            }
        } else if bytes[0] == 8 {
            if body.len() >= 8 {
                match parse_pairs(body.skip(8), crate::wire::be_value(body.take(8)), Map::empty()) {
                    Some((m, rest)) => Some((ValueView::Mapping(m), rest)),
                    None => None,
                }
            } else {
                None
            }
        } else {
            None
        }
    }
}

fn write_items(out: &mut Vec<u8>, items: &Vec<WindValue>)
    ensures
        final(out)@ == old(out)@ + ser_items(items@),
    decreases items,
{
    let mut i: usize = 0;
    assert(out@ =~= old(out)@ + ser_items(items@.take(0)));
    while i < items.len()
        invariant
            i <= items.len(),
            out@ == old(out)@ + ser_items(items@.take(i as int)),
        decreases items.len() - i,
    {
        let ghost before = out@;
        write_value(out, &items[i]);
        proof {
            assert(items@.take(i + 1).drop_last() =~= items@.take(i as int));
            assert(items@.take(i + 1).last() == items@[i as int]);
            assert(out@ =~= old(out)@ + ser_items(items@.take(i + 1)));
        }
        i = i + 1;
    }
    assert(items@.take(i as int) =~= items@);
}

fn write_pairs(out: &mut Vec<u8>, pairs: &Vec<(String, WindValue)>)
    ensures
        final(out)@ == old(out)@ + ser_pairs(pairs@),
    decreases pairs,
{
    let mut i: usize = 0;
    assert(out@ =~= old(out)@ + ser_pairs(pairs@.take(0)));
    while i < pairs.len()
        invariant
            i <= pairs.len(),
            out@ == old(out)@ + ser_pairs(pairs@.take(i as int)),
        decreases pairs.len() - i,
    {
        write_text(out, pairs[i].0.as_str());
        write_value(out, &pairs[i].1);
        proof {
            assert(pairs@.take(i + 1).drop_last() =~= pairs@.take(i as int));
            assert(pairs@.take(i + 1).last() == pairs@[i as int]);
            assert(out@ =~= old(out)@ + ser_pairs(pairs@.take(i + 1)));
        }
        i = i + 1;
    }
    assert(pairs@.take(i as int) =~= pairs@);
}

/// Appends the wire form of a value.
pub fn write_value(out: &mut Vec<u8>, v: &WindValue)
    ensures
        final(out)@ == old(out)@ + ser_value(*v),
    decreases v,
{
    match v {
        WindValue::Bool(b) => {
            out.push(0);
            out.push(
                if *b {
                    1
                } else {
                    0
                },
            );
        },
        WindValue::I32(x) => {
            out.push(1);
            write_be(out, (*x as i64 + 0x8000_0000) as u128, 4);
        },
        WindValue::I64(x) => {
            out.push(2);
            write_be(out, (*x as i128 + 0x8000_0000_0000_0000) as u128, 8);
        },
        WindValue::F32(x) => {
            out.push(3);
            write_be(out, *x as u128, 4);
        },
        WindValue::F64(x) => {
            out.push(4);
            write_be(out, *x as u128, 8);
        },
        WindValue::String(s) => {
            out.push(5);
            write_text(out, s.as_str());
        },
        WindValue::Bytes(b) => {
            out.push(6);
            write_bytes(out, b.as_slice());
        },
        WindValue::Array(items) => {
            out.push(7);
            write_be(out, items.len() as u128, 8);
            write_items(out, items);
        },
        WindValue::Mapping(pairs) => {
            out.push(8);
            write_be(out, pairs.len() as u128, 8);
            write_pairs(out, pairs);
        },
    }
    assert(out@ =~= old(out)@ + ser_value(*v));
}

fn read_items(bytes: &[u8], start: usize, n: u128) -> (r: Option<(Vec<WindValue>, usize)>)
    requires
        start <= bytes@.len(),
    ensures
        match parse_items(bytes@.skip(start as int), n as nat, Seq::empty()) {
            Some((items, rest)) => r is Some && items_view(r->Some_0.0@) == items && start
                <= r->Some_0.1 <= bytes@.len() && rest == bytes@.skip(r->Some_0.1 as int),
            None => r is None,
        },
    decreases bytes@.len() - start, 1nat,
{
    let mut out: Vec<WindValue> = Vec::new();
    let mut p: usize = start;
    let mut left: u128 = n;
    assert(items_view(out@) =~= Seq::empty());
    while left > 0
        invariant
            start <= p <= bytes@.len(),
            parse_items(bytes@.skip(start as int), n as nat, Seq::empty()) == parse_items(
                bytes@.skip(p as int),
                left as nat,
                items_view(out@),
            ),
        decreases left,
    {
        match read_value(bytes, p) {
            Some((v, next)) => {
                let ghost before = items_view(out@);
                out.push(v);
                assert(items_view(out@) =~= before.push(v@));
                p = next;
                left = left - 1;
            },
            None => {
                return None;
            },
        }
    }
    Some((out, p))
}

fn read_pairs(bytes: &[u8], start: usize, n: u128) -> (r: Option<
    (Vec<(String, WindValue)>, usize),
>)
    requires
        start <= bytes@.len(),
    ensures
        match parse_pairs(bytes@.skip(start as int), n as nat, Map::empty()) {
            Some((m, rest)) => r is Some && pairs_view(r->Some_0.0@) == m && start
                <= r->Some_0.1 <= bytes@.len() && rest == bytes@.skip(r->Some_0.1 as int),
            None => r is None,
        },
    decreases bytes@.len() - start, 1nat,
{
    let mut out: Vec<(String, WindValue)> = Vec::new();
    let mut p: usize = start;
    let mut left: u128 = n;
    assert(pairs_view(out@) =~= Map::empty());
    while left > 0
        invariant
            start <= p <= bytes@.len(),
            parse_pairs(bytes@.skip(start as int), n as nat, Map::empty()) == parse_pairs(
                bytes@.skip(p as int),
                left as nat,
                pairs_view(out@),
            ),
        decreases left,
    {
        match read_text(bytes, p) {
            Some((key, after_key)) => match read_value(bytes, after_key) {
                Some((v, next)) => {
                    proof {
                        crate::value::lemma_pairs_view_push(out@, (key, v));
                    }
                    out.push((key, v));
                    p = next;
                    left = left - 1;
                },
                None => {
                    return None;
                },
            },
            None => {
                return None;
            },
        }
    }
    Some((out, p))
}

/// Reads a value at `pos`. Returns it with the position after it, or
/// nothing where the bytes are no value.
pub fn read_value(bytes: &[u8], pos: usize) -> (r: Option<(WindValue, usize)>)
    requires
        pos <= bytes@.len(),
    ensures
        match parse_value(bytes@.skip(pos as int)) {
            Some((v, rest)) => r is Some && r->Some_0.0@ == v && pos < r->Some_0.1
                <= bytes@.len() && rest == bytes@.skip(r->Some_0.1 as int),
            None => r is None,
        },
    decreases bytes@.len() - pos, 0nat,
{
    if pos >= bytes.len() {
        return None;
    }
    let tag = bytes[pos];
    let ghost all = bytes@.skip(pos as int);
    assert(all[0] == tag);
    assert(all.skip(1) =~= bytes@.skip(pos + 1));
    proof {
        lemma_pow256();
    }
    if tag == 0 {
        if pos + 1 < bytes.len() && bytes[pos + 1] <= 1 {
            assert(all.skip(1).skip(1) =~= bytes@.skip(pos + 2));
            Some((WindValue::Bool(bytes[pos + 1] == 1), pos + 2))
        } else {
            None
        }
    } else if tag == 1 {
        match read_be(bytes, pos + 1, 4) {
            Some((n, next)) => Some((WindValue::I32((n as i64 - 0x8000_0000) as i32), next)),
            None => None,
        }
    } else if tag == 2 {
        match read_be(bytes, pos + 1, 8) {
            Some((n, next)) => Some(
                (WindValue::I64((n as i128 - 0x8000_0000_0000_0000) as i64), next),
            ),
            None => None,
        }
    } else if tag == 3 {
        match read_be(bytes, pos + 1, 4) {
            Some((n, next)) => Some((WindValue::F32(n as u32), next)),
            None => None,
        }
    } else if tag == 4 {
        match read_be(bytes, pos + 1, 8) {
            Some((n, next)) => Some((WindValue::F64(n as u64), next)),
            None => None,
        }
    } else if tag == 5 {
        match read_text(bytes, pos + 1) {
            Some((s, next)) => Some((WindValue::String(s), next)),
            None => None,
        }
    } else if tag == 6 {
        match read_bytes(bytes, pos + 1) {
            Some((from, to)) => Some(
                (WindValue::Bytes(slice_to_vec(slice_subrange(bytes, from, to))), to),
            ),
            None => None,
        }
    } else if tag == 7 {
        match read_be(bytes, pos + 1, 8) {
            Some((n, start)) => match read_items(bytes, start, n) {
                Some((items, next)) => Some((WindValue::Array(items), next)),
                None => None,
            },
            None => None,
        }
    } else if tag == 8 {
        match read_be(bytes, pos + 1, 8) {
            Some((n, start)) => match read_pairs(bytes, start, n) {
                Some((pairs, next)) => Some((WindValue::Mapping(pairs), next)),
                None => None,
            },
            None => None,
        }
    } else {
        None
    }
}

/// The wire form of a value holds at least the byte of its kind.
pub proof fn lemma_ser_value_nonempty(v: WindValue)
    ensures
        ser_value(v).len() >= 1,
{
}

/// The wire form of a list of values is that of the first and then that of
/// the others.
pub proof fn lemma_ser_items_front(items: Seq<WindValue>)
    requires
        items.len() > 0,
    ensures
        ser_items(items) == ser_value(items.first()) + ser_items(items.drop_first()),
    decreases items.len(),
{
    let tail = items.drop_first();
    if items.len() == 1 {
        assert(items.drop_last() =~= Seq::<WindValue>::empty());
        assert(ser_items(items.drop_last()) =~= Seq::<u8>::empty());
        assert(ser_items(tail) =~= Seq::<u8>::empty());
        assert(ser_items(items) =~= ser_value(items.first()) + ser_items(tail));
    } else {
        lemma_ser_items_front(items.drop_last());
        assert(items.drop_last().drop_first() =~= tail.drop_last());
        assert(tail.last() == items.last());
        assert(items.drop_last().first() == items.first());
        assert(ser_items(items) =~= ser_value(items.first()) + ser_items(tail));
    }
}

/// The wire form of a list of entries is that of the first and then that of
/// the others.
pub proof fn lemma_ser_pairs_front(pairs: Seq<(String, WindValue)>)
    requires
        pairs.len() > 0,
    ensures
        ser_pairs(pairs) == ser_text(pairs.first().0@) + ser_value(pairs.first().1) + ser_pairs(
            pairs.drop_first(),
        ),
    decreases pairs.len(),
{
    let tail = pairs.drop_first();
    if pairs.len() == 1 {
        assert(pairs.drop_last() =~= Seq::<(String, WindValue)>::empty());
        assert(ser_pairs(pairs.drop_last()) =~= Seq::<u8>::empty());
        assert(ser_pairs(tail) =~= Seq::<u8>::empty());
        assert(ser_pairs(pairs) =~= ser_text(pairs.first().0@) + ser_value(pairs.first().1)
            + ser_pairs(tail));
    } else {
        lemma_ser_pairs_front(pairs.drop_last());
        assert(pairs.drop_last().drop_first() =~= tail.drop_last());
        assert(tail.last() == pairs.last());
        assert(pairs.drop_last().first() == pairs.first());
        assert(ser_pairs(pairs) =~= ser_text(pairs.first().0@) + ser_value(pairs.first().1)
            + ser_pairs(tail));
    }
}

/// The map that entries put into `acc` in order give.
pub open spec fn put_all(acc: Map<Seq<char>, ValueView>, pairs: Seq<(String, WindValue)>) -> Map<
    Seq<char>,
    ValueView,
>
    decreases pairs.len(),
{
    if pairs.len() == 0 {
        acc
    } else {
        put_all(acc, pairs.drop_last()).insert(pairs.last().0@, value_view(pairs.last().1))
    }
}

/// Putting entries into the empty map gives the map that they stand for.
pub proof fn lemma_put_all_empty(pairs: Seq<(String, WindValue)>)
    ensures
        put_all(Map::empty(), pairs) == pairs_view(pairs),
    decreases pairs.len(),
{
    if pairs.len() > 0 {
        lemma_put_all_empty(pairs.drop_last());
    }
}

/// Putting the first entry and then the others is putting them all.
pub proof fn lemma_put_all_front(acc: Map<Seq<char>, ValueView>, pairs: Seq<(String, WindValue)>)
    requires
        pairs.len() > 0,
    ensures
        put_all(acc, pairs) == put_all(
            acc.insert(pairs.first().0@, value_view(pairs.first().1)),
            pairs.drop_first(),
        ),
    decreases pairs.len(),
{
    let tail = pairs.drop_first();
    let first = acc.insert(pairs.first().0@, value_view(pairs.first().1));
    if pairs.len() == 1 {
        assert(pairs.drop_last() =~= Seq::<(String, WindValue)>::empty());
        assert(tail =~= Seq::<(String, WindValue)>::empty());
        assert(put_all(acc, pairs.drop_last()) == acc);
        assert(put_all(first, tail) == first);
        assert(pairs.last() == pairs.first());
    } else {
        lemma_put_all_front(acc, pairs.drop_last());
        assert(pairs.drop_last().drop_first() =~= tail.drop_last());
        assert(tail.last() == pairs.last());
        assert(pairs.drop_last().first() == pairs.first());
        assert(put_all(acc, pairs.drop_last()) == put_all(first, tail.drop_last()));
        assert(put_all(first, tail) == put_all(first, tail.drop_last()).insert(
            tail.last().0@,
            value_view(tail.last().1),
        ));
    }
}

/// Values that were written are read back, and what followed them is left.
pub proof fn lemma_parse_items(items: Seq<WindValue>, acc: Seq<ValueView>, rest: Seq<u8>)
    requires
        ser_items(items).len() < pow256(8),
    ensures
        parse_items(ser_items(items) + rest, items.len(), acc) == Some(
            (acc + items_view(items), rest),
        ),
    decreases items, items.len(),
{
    if items.len() == 0 {
        assert(ser_items(items) + rest =~= rest);
        assert(acc + items_view(items) =~= acc);
    } else {
        let head = items.first();
        let tail = items.drop_first();
        lemma_ser_items_front(items);
        lemma_ser_value_nonempty(head);
        let after = ser_items(tail) + rest;
        assert(ser_items(items) + rest =~= ser_value(head) + after);
        lemma_parse_value(head, after);
        lemma_parse_items(tail, acc.push(head@), rest);
        assert(acc.push(head@) + items_view(tail) =~= acc + items_view(items));
    }
}

/// Entries that were written are read back, and what followed them is
/// left.
pub proof fn lemma_parse_pairs(
    pairs: Seq<(String, WindValue)>,
    acc: Map<Seq<char>, ValueView>,
    rest: Seq<u8>,
)
    requires
        ser_pairs(pairs).len() < pow256(8),
    ensures
        parse_pairs(ser_pairs(pairs) + rest, pairs.len(), acc) == Some((put_all(acc, pairs), rest)),
    decreases pairs, pairs.len(),
{
    if pairs.len() == 0 {
        assert(ser_pairs(pairs) + rest =~= rest);
    } else {
        let head = pairs.first();
        let tail = pairs.drop_first();
        lemma_ser_pairs_front(pairs);
        lemma_ser_value_nonempty(head.1);
        let after_value = ser_pairs(tail) + rest;
        let after_key = ser_value(head.1) + after_value;
        assert(ser_pairs(pairs) + rest =~= ser_text(head.0@) + after_key);
        lemma_parse_text(head.0@, after_key);
        lemma_parse_value(head.1, after_value);
        lemma_parse_pairs(tail, acc.insert(head.0@, head.1@), rest);
        lemma_put_all_front(acc, pairs);
    }
}

/// A number, a truth value, a text or a byte string that was written is read
/// back, and what followed it is left.
pub proof fn lemma_parse_scalar(v: WindValue, rest: Seq<u8>)
    requires
        ser_value(v).len() < pow256(8),
        !(v is Array),
        !(v is Mapping),
    ensures
        parse_value(ser_value(v) + rest) == Some((v@, rest)),
{
    let all = ser_value(v) + rest;
    match v {
        WindValue::Bool(b) => {
            assert(all.skip(1).skip(1) =~= rest);
        },
        WindValue::I32(x) => {
            lemma_pow256();
            let n = (x + 0x8000_0000) as nat;
            assert(all.skip(1) =~= be_bytes(n, 4) + rest);
            lemma_parse_be(n, 4, rest);
        },
        WindValue::I64(x) => {
            lemma_pow256();
            let n = (x + 0x8000_0000_0000_0000) as nat;
            assert(all.skip(1) =~= be_bytes(n, 8) + rest);
            lemma_parse_be(n, 8, rest);
        },
        WindValue::F32(x) => {
            lemma_pow256();
            assert(all.skip(1) =~= be_bytes(x as nat, 4) + rest);
            lemma_parse_be(x as nat, 4, rest);
        },
        WindValue::F64(x) => {
            lemma_pow256();
            assert(all.skip(1) =~= be_bytes(x as nat, 8) + rest);
            lemma_parse_be(x as nat, 8, rest);
        },
        WindValue::String(s) => {
            assert(all.skip(1) =~= ser_text(s@) + rest);
            lemma_parse_text(s@, rest);
        },
        WindValue::Bytes(b) => {
            assert(all.skip(1) =~= ser_bytes(b@) + rest);
            lemma_parse_bytes(b@, rest);
        },
        _ => {},
    }
}

/// A value that was written is read back, and what followed it is left.
pub proof fn lemma_parse_value(v: WindValue, rest: Seq<u8>)
    requires
        ser_value(v).len() < pow256(8),
    ensures
        parse_value(ser_value(v) + rest) == Some((v@, rest)),
    decreases v, 0nat,
{
    let all = ser_value(v) + rest;
    match v {
        WindValue::Array(items) => {
            lemma_pow256();
            let n = items@.len();
            assert(n == items.len());
            let after = ser_items(items@) + rest;
            assert(all.skip(1) =~= be_bytes(n, 8) + after);
            lemma_parse_be(n, 8, after);
            lemma_parse_items(items@, Seq::empty(), rest);
            assert(Seq::<ValueView>::empty() + items_view(items@) =~= items_view(items@));
        },
        WindValue::Mapping(pairs) => {
            lemma_pow256();
            let n = pairs@.len();
            assert(n == pairs.len());
            let after = ser_pairs(pairs@) + rest;
            assert(all.skip(1) =~= be_bytes(n, 8) + after);
            lemma_parse_be(n, 8, after);
            lemma_parse_pairs(pairs@, Map::empty(), rest);
            lemma_put_all_empty(pairs@);
        },
        _ => {
            lemma_parse_scalar(v, rest);
        },
    }
}

} // verus!
