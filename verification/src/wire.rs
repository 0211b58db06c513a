//! The wire form of numbers, byte strings and texts.
//!
//! Numbers are written big-endian in a fixed width. A byte string or a text
//! is written as its length in bytes, in eight bytes, and then the bytes; a
//! text is written in UTF-8. Each kind has a function that says what is
//! written and one that reads it back from the front of a byte sequence,
//! giving what was read and what is left.

use vstd::prelude::*;
use vstd::slice::slice_subrange;
use vstd::utf8::{decode_utf8, encode_utf8, valid_utf8};

verus! {

/// 256 to the power of `width`.
pub open spec fn pow256(width: nat) -> nat
    decreases width,
{
    if width == 0 {
        1
    } else {
        256 * pow256((width - 1) as nat)
    }
}

/// The `width` low bytes of `n`, most significant first.
pub open spec fn be_bytes(n: nat, width: nat) -> Seq<u8>
    decreases width,
{
    if width == 0 {
        Seq::empty()
    } else {
        be_bytes(n / 256, (width - 1) as nat).push((n % 256) as u8)
    }
}

/// The number that bytes stand for, most significant first.
pub open spec fn be_value(bytes: Seq<u8>) -> nat
    decreases bytes.len(),
{
    if bytes.len() == 0 {
        0
    } else {
        be_value(bytes.drop_last()) * 256 + bytes.last() as nat
    }
}

/// Bytes stand for a number below 256 to the power of their count.
pub proof fn lemma_be_value_bound(bytes: Seq<u8>)
    ensures
        be_value(bytes) < pow256(bytes.len()),
    decreases bytes.len(),
{
    if bytes.len() > 0 {
        lemma_be_value_bound(bytes.drop_last());
    }
}

/// Writing a number that fits and reading it back gives the number.
pub proof fn lemma_be_round_trip(n: nat, width: nat)
    requires
        n < pow256(width),
    ensures
        be_bytes(n, width).len() == width,
        be_value(be_bytes(n, width)) == n,
    decreases width,
{
    if width > 0 {
        lemma_be_round_trip(n / 256, (width - 1) as nat);
        assert(be_bytes(n, width).drop_last() =~= be_bytes(n / 256, (width - 1) as nat));
    }
}

/// The powers of 256 that bound the integer types.
pub proof fn lemma_pow256()
    ensures
        pow256(1) == 0x100,
        pow256(4) == 0x1_0000_0000,
        pow256(8) == 0x1_0000_0000_0000_0000,
        pow256(16) == 0x1_0000_0000_0000_0000_0000_0000_0000_0000,
{
    assert(pow256(0) == 1);
    assert(pow256(1) == 0x100);
    assert(pow256(2) == 0x1_0000);
    assert(pow256(3) == 0x100_0000);
    assert(pow256(4) == 0x1_0000_0000);
    assert(pow256(5) == 0x100_0000_0000);
    assert(pow256(6) == 0x1_0000_0000_0000);
    assert(pow256(7) == 0x100_0000_0000_0000);
    assert(pow256(8) == 0x1_0000_0000_0000_0000);
    assert(pow256(9) == 0x100_0000_0000_0000_0000);
    assert(pow256(10) == 0x1_0000_0000_0000_0000_0000);
    assert(pow256(11) == 0x100_0000_0000_0000_0000_0000);
    assert(pow256(12) == 0x1_0000_0000_0000_0000_0000_0000);
    assert(pow256(13) == 0x100_0000_0000_0000_0000_0000_0000);
    assert(pow256(14) == 0x1_0000_0000_0000_0000_0000_0000_0000);
    assert(pow256(15) == 0x100_0000_0000_0000_0000_0000_0000_0000);
    assert(pow256(16) == 0x1_0000_0000_0000_0000_0000_0000_0000_0000);
}

/// What reading a number of `width` bytes from the front of `bytes` gives:
/// the number and the bytes after it, or nothing where the bytes are too
/// few.
pub open spec fn parse_be(bytes: Seq<u8>, width: nat) -> Option<(nat, Seq<u8>)> {
    if bytes.len() >= width {
        Some((be_value(bytes.take(width as int)), bytes.skip(width as int)))
    } else {
        None
    }
}

/// A number that was written is read back, and what followed it is left.
pub proof fn lemma_parse_be(n: nat, width: nat, rest: Seq<u8>)
    requires
        n < pow256(width),
    ensures
        parse_be(be_bytes(n, width) + rest, width) == Some((n, rest)),
{
    lemma_be_round_trip(n, width);
    let all = be_bytes(n, width) + rest;
    assert(all.take(width as int) =~= be_bytes(n, width));
    assert(all.skip(width as int) =~= rest);
}

/// Appends the `width` low bytes of `n`, most significant first.
pub fn write_be(out: &mut Vec<u8>, n: u128, width: usize)
    ensures
        final(out)@ == old(out)@ + be_bytes(n as nat, width as nat),
    decreases width,
{
    if width > 0 {
        write_be(out, n / 256, width - 1);
        out.push((n % 256) as u8);
        assert(out@ =~= old(out)@ + be_bytes(n as nat, width as nat));
    } else {
        assert(out@ =~= old(out)@ + be_bytes(n as nat, width as nat));
    }
}

/// Reads a number of `width` bytes at `pos`. Returns it with the position
/// after it, or nothing where the bytes are too few.
pub fn read_be(bytes: &[u8], pos: usize, width: usize) -> (r: Option<(u128, usize)>)
    requires
        pos <= bytes@.len(),
        width <= 16,
    ensures
        match parse_be(bytes@.skip(pos as int), width as nat) {
            Some((n, rest)) => r is Some && r->Some_0.0 == n && r->Some_0.1 == pos + width && n
                < pow256(width as nat) && pos + width <= bytes@.len() && rest == bytes@.skip(
                pos + width,
            ),
            None => r is None,
        },
{
    if bytes.len() - pos < width {
        return None;
    }
    let ghost field = bytes@.skip(pos as int).take(width as int);
    let mut acc: u128 = 0;
    let mut i: usize = 0;
    assert(field.take(0) =~= Seq::<u8>::empty());
    proof {
        lemma_pow256();
    }
    while i < width
        invariant
            i <= width <= 16,
            pos + width <= bytes@.len() <= usize::MAX,
            field == bytes@.skip(pos as int).take(width as int),
            acc == be_value(field.take(i as int)),
            acc < pow256(i as nat),
            pow256(16) == 0x1_0000_0000_0000_0000_0000_0000_0000_0000,
        decreases width - i,
    {
        let b = bytes[pos + i];
        proof {
            assert(field.take(i + 1).drop_last() =~= field.take(i as int));
            assert(field.take(i + 1).last() == b);
            lemma_be_value_bound(field.take(i + 1));
            lemma_pow256_monotone((i + 1) as nat, 16);
        }
        acc = acc * 256 + b as u128;
        i = i + 1;
    }
    assert(field.take(width as int) =~= field);
    assert(bytes@.skip(pos as int).skip(width as int) =~= bytes@.skip(pos + width));
    Some((acc, pos + width))
}

/// A greater power is not less.
pub proof fn lemma_pow256_monotone(a: nat, b: nat)
    requires
        a <= b,
    ensures
        pow256(a) <= pow256(b),
    decreases b,
{
    if a < b {
        lemma_pow256_monotone(a, (b - 1) as nat);
    }
}

/// The wire form of a byte string: its length, then its bytes.
pub open spec fn ser_bytes(b: Seq<u8>) -> Seq<u8> {
    be_bytes(b.len(), 8) + b
}

/// What reading a byte string from the front of `bytes` gives.
pub open spec fn parse_bytes(bytes: Seq<u8>) -> Option<(Seq<u8>, Seq<u8>)> {
    match parse_be(bytes, 8) {
        Some((n, rest)) => if rest.len() >= n {
            Some((rest.take(n as int), rest.skip(n as int)))
        } else {
            None
        },
        None => None,
    }
}

/// A byte string that was written is read back, where its length fits in
/// eight bytes.
pub proof fn lemma_parse_bytes(b: Seq<u8>, rest: Seq<u8>)
    requires
        b.len() < pow256(8),
    ensures
        parse_bytes(ser_bytes(b) + rest) == Some((b, rest)),
{
    lemma_parse_be(b.len(), 8, b + rest);
    assert(ser_bytes(b) + rest =~= be_bytes(b.len(), 8) + (b + rest));
    assert((b + rest).take(b.len() as int) =~= b);
    assert((b + rest).skip(b.len() as int) =~= rest);
}

/// The wire form of a text: the length of its UTF-8 form, then that form.
pub open spec fn ser_text(s: Seq<char>) -> Seq<u8> {
    ser_bytes(encode_utf8(s))
}

/// What reading a text from the front of `bytes` gives: nothing where the
/// bytes are too few or are not UTF-8.
pub open spec fn parse_text(bytes: Seq<u8>) -> Option<(Seq<char>, Seq<u8>)> {
    match parse_bytes(bytes) {
        Some((raw, rest)) => if valid_utf8(raw) {
            Some((decode_utf8(raw), rest))
        } else {
            None
        },
        None => None,
    }
}

/// A text that was written is read back, where the length of its UTF-8
/// form fits in eight bytes.
pub proof fn lemma_parse_text(s: Seq<char>, rest: Seq<u8>)
    requires
        encode_utf8(s).len() < pow256(8),
    ensures
        parse_text(ser_text(s) + rest) == Some((s, rest)),
{
    lemma_parse_bytes(encode_utf8(s), rest);
    vstd::utf8::encode_utf8_valid_utf8(s);
    vstd::utf8::encode_utf8_decode_utf8(s);
}

/// Appends the wire form of a byte string.
pub fn write_bytes(out: &mut Vec<u8>, b: &[u8])
    ensures
        final(out)@ == old(out)@ + ser_bytes(b@),
{
    write_be(out, b.len() as u128, 8);
    let ghost mid = out@;
    out.extend_from_slice(b);
    assert(out@ =~= mid + b@);
    assert(out@ =~= old(out)@ + ser_bytes(b@));
}

/// Appends the wire form of a text.
pub fn write_text(out: &mut Vec<u8>, s: &str)
    ensures
        final(out)@ == old(out)@ + ser_text(s@),
{
    write_bytes(out, s.as_bytes());
}

/// Reads a byte string at `pos`. Returns the positions at which its bytes
/// begin and end, or nothing where the bytes are too few.
pub fn read_bytes(bytes: &[u8], pos: usize) -> (r: Option<(usize, usize)>)
    requires
        pos <= bytes@.len(),
    ensures
        match parse_bytes(bytes@.skip(pos as int)) {
            Some((b, rest)) => r is Some && pos <= r->Some_0.0 <= r->Some_0.1 <= bytes@.len() && b
                == bytes@.subrange(r->Some_0.0 as int, r->Some_0.1 as int) && rest == bytes@.skip(
                r->Some_0.1 as int,
            ),
            None => r is None,
        },
{
    match read_be(bytes, pos, 8) {
        Some((n, start)) => {
            if n > (bytes.len() - start) as u128 {
                return None;
            }
            let end = start + n as usize;
            assert(bytes@.skip(start as int).take(n as int) =~= bytes@.subrange(
                start as int,
                end as int,
            ));
            assert(bytes@.skip(start as int).skip(n as int) =~= bytes@.skip(end as int));
            Some((start, end))
        },
        None => None,
    }
}

/// `std::str::from_utf8`, with the text copied into a `String`. It succeeds
/// exactly on well-formed UTF-8, and the text is what the bytes encode.
#[verifier::external_body]
pub(crate) fn text_from_utf8(bytes: &[u8]) -> (r: Option<String>)
    ensures
        r is Some == valid_utf8(bytes@),
        r is Some ==> r->Some_0@ == decode_utf8(bytes@),
{
    match std::str::from_utf8(bytes) {
        Ok(s) => Some(s.to_owned()),
        Err(_) => None,
    }
}

/// Reads a text at `pos`. Returns it with the position after it, or nothing
/// where the bytes are too few or are not UTF-8.
pub fn read_text(bytes: &[u8], pos: usize) -> (r: Option<(String, usize)>)
    requires
        pos <= bytes@.len(),
    ensures
        match parse_text(bytes@.skip(pos as int)) {
            Some((s, rest)) => r is Some && r->Some_0.0@ == s && pos <= r->Some_0.1 <= bytes@.len()
                && rest == bytes@.skip(r->Some_0.1 as int),
            None => r is None,
        },
{
    match read_bytes(bytes, pos) {
        Some((start, end)) => match text_from_utf8(slice_subrange(bytes, start, end)) {
            Some(s) => Some((s, end)),
            None => None,
        },
        None => None,
    }
}

/// A number is written in as many bytes as the width says.
pub proof fn lemma_be_len(n: nat, width: nat)
    ensures
        be_bytes(n, width).len() == width,
    decreases width,
{
    if width > 0 {
        lemma_be_len(n / 256, (width - 1) as nat);
    }
}

/// The wire form of an optional text: a zero byte for none, or a one byte
/// and the text.
pub open spec fn ser_opt_text(o: Option<Seq<char>>) -> Seq<u8> {
    match o {
        None => seq![0u8],
        Some(s) => seq![1u8] + ser_text(s),
    }
}

/// What reading an optional text from the front of `bytes` gives.
pub open spec fn parse_opt_text(bytes: Seq<u8>) -> Option<(Option<Seq<char>>, Seq<u8>)> {
    if bytes.len() == 0 {
        None
    } else if bytes[0] == 0 {
        Some((None, bytes.skip(1)))
    } else if bytes[0] == 1 {
        match parse_text(bytes.skip(1)) {
            Some((s, rest)) => Some((Some(s), rest)),
            None => None,
        }
    } else {
        None
    }
}

/// An optional text that was written is read back.
pub proof fn lemma_parse_opt_text(o: Option<Seq<char>>, rest: Seq<u8>)
    requires
        ser_opt_text(o).len() < pow256(8),
    ensures
        parse_opt_text(ser_opt_text(o) + rest) == Some((o, rest)),
{
    let all = ser_opt_text(o) + rest;
    match o {
        None => {
            assert(all.skip(1) =~= rest);
        },
        Some(s) => {
            assert(all.skip(1) =~= ser_text(s) + rest);
            lemma_parse_text(s, rest);
        },
    }
}

/// The wire form of texts, one after the other.
pub open spec fn ser_texts(t: Seq<Seq<char>>) -> Seq<u8>
    decreases t.len(),
{
    if t.len() == 0 {
        Seq::empty()
    } else {
        ser_texts(t.drop_last()) + ser_text(t.last())
    }
}

/// The wire form of a list of texts: their number, then the texts.
pub open spec fn ser_text_list(t: Seq<Seq<char>>) -> Seq<u8> {
    be_bytes(t.len(), 8) + ser_texts(t)
}

/// What reading `n` texts from the front of `bytes` gives, after `acc`.
pub open spec fn parse_texts(bytes: Seq<u8>, n: nat, acc: Seq<Seq<char>>) -> Option<
    (Seq<Seq<char>>, Seq<u8>),
>
    decreases n,
{
    if n == 0 {
        Some((acc, bytes))
    } else {
        match parse_text(bytes) {
            Some((s, rest)) => parse_texts(rest, (n - 1) as nat, acc.push(s)),
            None => None,
        }
    }
}

/// What reading a list of texts from the front of `bytes` gives.
pub open spec fn parse_text_list(bytes: Seq<u8>) -> Option<(Seq<Seq<char>>, Seq<u8>)> {
    match parse_be(bytes, 8) {
        Some((n, rest)) => parse_texts(rest, n, Seq::empty()),
        None => None,
    }
}

/// The wire form of texts is that of the first and then that of the others.
pub proof fn lemma_ser_texts_front(t: Seq<Seq<char>>)
    requires
        t.len() > 0,
    ensures
        ser_texts(t) == ser_text(t.first()) + ser_texts(t.drop_first()),
    decreases t.len(),
{
    let tail = t.drop_first();
    if t.len() == 1 {
        assert(t.drop_last() =~= Seq::<Seq<char>>::empty());
        assert(ser_texts(t.drop_last()) =~= Seq::<u8>::empty());
        assert(ser_texts(tail) =~= Seq::<u8>::empty());
        assert(ser_texts(t) =~= ser_text(t.first()) + ser_texts(tail));
    } else {
        lemma_ser_texts_front(t.drop_last());
        assert(t.drop_last().drop_first() =~= tail.drop_last());
        assert(tail.last() == t.last());
        assert(t.drop_last().first() == t.first());
        assert(ser_texts(t) =~= ser_text(t.first()) + ser_texts(tail));
    }
}

/// Texts take at least as many bytes as they are.
pub proof fn lemma_ser_texts_len(t: Seq<Seq<char>>)
    ensures
        ser_texts(t).len() >= t.len(),
    decreases t.len(),
{
    if t.len() > 0 {
        lemma_ser_texts_len(t.drop_last());
        lemma_be_len(encode_utf8(t.last()).len(), 8);
    }
}

/// Texts that were written are read back.
pub proof fn lemma_parse_texts(t: Seq<Seq<char>>, acc: Seq<Seq<char>>, rest: Seq<u8>)
    requires
        ser_texts(t).len() < pow256(8),
    ensures
        parse_texts(ser_texts(t) + rest, t.len(), acc) == Some((acc + t, rest)),
    decreases t.len(),
{
    if t.len() == 0 {
        assert(ser_texts(t) + rest =~= rest);
        assert(acc + t =~= acc);
    } else {
        let tail = t.drop_first();
        lemma_ser_texts_front(t);
        let after = ser_texts(tail) + rest;
        assert(ser_texts(t) + rest =~= ser_text(t.first()) + after);
        lemma_parse_text(t.first(), after);
        lemma_parse_texts(tail, acc.push(t.first()), rest);
        assert(acc.push(t.first()) + tail =~= acc + t);
    }
}

/// A list of texts that was written is read back.
pub proof fn lemma_parse_text_list(t: Seq<Seq<char>>, rest: Seq<u8>)
    requires
        ser_text_list(t).len() < pow256(8),
    ensures
        parse_text_list(ser_text_list(t) + rest) == Some((t, rest)),
{
    lemma_ser_texts_len(t);
    let after = ser_texts(t) + rest;
    assert(ser_text_list(t) + rest =~= be_bytes(t.len(), 8) + after);
    lemma_parse_be(t.len(), 8, after);
    lemma_parse_texts(t, Seq::empty(), rest);
    assert(Seq::<Seq<char>>::empty() + t =~= t);
}

/// Appends the wire form of an optional text.
pub fn write_opt_text(out: &mut Vec<u8>, o: &Option<String>)
    ensures
        final(out)@ == old(out)@ + ser_opt_text(crate::text::text_opt(*o)),
{
    match o {
        None => {
            out.push(0);
        },
        Some(s) => {
            out.push(1);
            write_text(out, s.as_str());
        },
    }
    assert(out@ =~= old(out)@ + ser_opt_text(crate::text::text_opt(*o)));
}

/// Reads an optional text at `pos`.
pub fn read_opt_text(bytes: &[u8], pos: usize) -> (r: Option<(Option<String>, usize)>)
    requires
        pos <= bytes@.len(),
    ensures
        match parse_opt_text(bytes@.skip(pos as int)) {
            Some((o, rest)) => r is Some && crate::text::text_opt(r->Some_0.0) == o && pos
                < r->Some_0.1 <= bytes@.len() && rest == bytes@.skip(r->Some_0.1 as int),
            None => r is None,
        },
{
    if pos >= bytes.len() {
        return None;
    }
    let tag = bytes[pos];
    assert(bytes@.skip(pos as int)[0] == tag);
    assert(bytes@.skip(pos as int).skip(1) =~= bytes@.skip(pos + 1));
    if tag == 0 {
        Some((None, pos + 1))
    } else if tag == 1 {
        match read_text(bytes, pos + 1) {
            Some((s, next)) => Some((Some(s), next)),
            None => None,
        }
    } else {
        None
    }
}

/// Appends the wire form of a list of texts.
pub fn write_text_list(out: &mut Vec<u8>, t: &Vec<String>)
    ensures
        final(out)@ == old(out)@ + ser_text_list(crate::text::texts(t@)),
{
    let ghost views = crate::text::texts(t@);
    write_be(out, t.len() as u128, 8);
    let ghost start = out@;
    let mut i: usize = 0;
    assert(out@ =~= start + ser_texts(views.take(0)));
    while i < t.len()
        invariant
            i <= t.len(),
            views == crate::text::texts(t@),
            out@ == start + ser_texts(views.take(i as int)),
        decreases t.len() - i,
    {
        write_text(out, t[i].as_str());
        proof {
            assert(views.take(i + 1).drop_last() =~= views.take(i as int));
            assert(views.take(i + 1).last() == t@[i as int]@);
            assert(out@ =~= start + ser_texts(views.take(i + 1)));
        }
        i = i + 1;
    }
    assert(views.take(i as int) =~= views);
    assert(out@ =~= old(out)@ + ser_text_list(views));
}

/// Reads a list of texts at `pos`.
#[verifier::loop_isolation(false)]
pub fn read_text_list(bytes: &[u8], pos: usize) -> (r: Option<(Vec<String>, usize)>)
    requires
        pos <= bytes@.len(),
    ensures
        match parse_text_list(bytes@.skip(pos as int)) {
            Some((t, rest)) => r is Some && crate::text::texts(r->Some_0.0@) == t && pos
                < r->Some_0.1 <= bytes@.len() && rest == bytes@.skip(r->Some_0.1 as int),
            None => r is None,
        },
{
    match read_be(bytes, pos, 8) {
        Some((n, start)) => {
            let mut out: Vec<String> = Vec::new();
            let mut p: usize = start;
            let mut left: u128 = n;
            assert(crate::text::texts(out@) =~= Seq::<Seq<char>>::empty());
            assert(parse_text_list(bytes@.skip(pos as int)) == parse_texts(
                bytes@.skip(start as int),
                n as nat,
                Seq::empty(),
            ));
            while left > 0
                invariant
                    pos < start <= p <= bytes@.len(),
                    parse_text_list(bytes@.skip(pos as int)) == parse_texts(
                        bytes@.skip(start as int),
                        n as nat,
                        Seq::empty(),
                    ),
                    parse_texts(bytes@.skip(start as int), n as nat, Seq::empty()) == parse_texts(
                        bytes@.skip(p as int),
                        left as nat,
                        crate::text::texts(out@),
                    ),
                decreases left,
            {
                match read_text(bytes, p) {
                    Some((s, next)) => {
                        let ghost before = crate::text::texts(out@);
                        out.push(s);
                        assert(crate::text::texts(out@) =~= before.push(s@));
                        p = next;
                        left = left - 1;
                    },
                    None => {
                        return None;
                    },
                }
            }
            Some((out, p))
        },
        None => None,
    }
}

} // verus!
