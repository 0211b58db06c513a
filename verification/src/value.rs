//! Dynamically typed values and their mathematical model.
//!
//! A [`WindValue`] is what publishers publish and what RPC calls carry. Its
//! view, [`ValueView`], forgets the order in which the entries of a mapping
//! are stored: two values are the same value exactly when their views are
//! equal, and `==` on [`WindValue`] decides that.

use crate::error::{ErrorView, WindError};
use vstd::prelude::*;
use vstd::string::StringExecFns;
use vstd::std_specs::cmp::PartialEqSpecImpl;
use vstd::std_specs::convert::{FromSpecImpl, TryFromSpecImpl};

verus! {

/// A dynamically typed value.
///
/// `F32` and `F64` hold the IEEE-754 bit pattern of the number (what
/// `to_bits` gives), so that equality is equality of representations.
/// `Mapping` holds its entries in insertion order; where a key occurs more
/// than once the last entry is the one that counts.
#[derive(Debug)]
pub enum WindValue {
    Bool(bool),
    I32(i32),
    I64(i64),
    F32(u32),
    F64(u64),
    String(String),
    Bytes(Vec<u8>),
    Array(Vec<WindValue>),
    Mapping(Vec<(String, WindValue)>),
}

/// The mathematical value that a [`WindValue`] stands for.
pub enum ValueView {
    Bool(bool),
    I32(i32),
    I64(i64),
    F32(u32),
    F64(u64),
    String(Seq<char>),
    Bytes(Seq<u8>),
    Array(Seq<ValueView>),
    Mapping(Map<Seq<char>, ValueView>),
}

/// The views of the elements of an array, in order.
pub open spec fn items_view(items: Seq<WindValue>) -> Seq<ValueView>
    decreases items, 0nat,
{
    Seq::new(
        items.len(),
        |i: int|
            if 0 <= i < items.len() {
                value_view(items[i])
            } else {
                ValueView::Bool(false)
            },
    )
}

/// The finite map that a list of entries stands for: later entries override
/// earlier ones with the same key.
pub open spec fn pairs_view(pairs: Seq<(String, WindValue)>) -> Map<Seq<char>, ValueView>
    decreases pairs, pairs.len(),
{
    if pairs.len() == 0 {
        Map::empty()
    } else {
        pairs_view(pairs.drop_last()).insert(pairs.last().0@, value_view(pairs.last().1))
    }
}

/// The model of a value.
pub open spec fn value_view(v: WindValue) -> ValueView
    decreases v, 0nat,
{
    match v {
        WindValue::Bool(b) => ValueView::Bool(b),
        WindValue::I32(x) => ValueView::I32(x),
        WindValue::I64(x) => ValueView::I64(x),
        WindValue::F32(x) => ValueView::F32(x),
        WindValue::F64(x) => ValueView::F64(x),
        WindValue::String(s) => ValueView::String(s@),
        WindValue::Bytes(b) => ValueView::Bytes(b@),
        WindValue::Array(items) => ValueView::Array(items_view(items@)),
        WindValue::Mapping(pairs) => ValueView::Mapping(pairs_view(pairs@)),
    }
}

impl View for WindValue {
    type V = ValueView;

    open spec fn view(&self) -> ValueView {
        value_view(*self)
    }
}

/// The position of the entry that decides what `key` maps to: the last one
/// with that key, or -1 where there is none.
pub open spec fn key_index(pairs: Seq<(String, WindValue)>, key: Seq<char>) -> int
    decreases pairs.len(),
{
    if pairs.len() == 0 {
        -1
    } else if pairs.last().0@ == key {
        pairs.len() - 1
    } else {
        key_index(pairs.drop_last(), key)
    }
}

/// `key_index` finds the entry that `pairs_view` maps the key to.
pub proof fn lemma_key_index(pairs: Seq<(String, WindValue)>, key: Seq<char>)
    ensures
        -1 <= key_index(pairs, key) < pairs.len(),
        key_index(pairs, key) < 0 <==> !pairs_view(pairs).contains_key(key),
        key_index(pairs, key) >= 0 ==> {
            &&& pairs[key_index(pairs, key)].0@ == key
            &&& pairs_view(pairs)[key] == value_view(pairs[key_index(pairs, key)].1)
        },
        forall|i: int| key_index(pairs, key) < i < pairs.len() ==> (#[trigger] pairs[i]).0@ != key,
    decreases pairs.len(),
{
    if pairs.len() > 0 {
        lemma_key_index(pairs.drop_last(), key);
        if pairs.last().0@ != key {
            assert forall|i: int| key_index(pairs, key) < i < pairs.len() implies (
            #[trigger] pairs[i]).0@ != key by {
                if i < pairs.len() - 1 {
                    assert(pairs[i] == pairs.drop_last()[i]);
                }
            }
        }
    }
}

/// Entries that agree position by position stand for the same map.
pub proof fn lemma_pairs_view_pointwise(p: Seq<(String, WindValue)>, q: Seq<(String, WindValue)>)
    requires
        p.len() == q.len(),
        forall|i: int|
            0 <= i < p.len() ==> (#[trigger] p[i]).0@ == q[i].0@ && value_view(p[i].1)
                == value_view(q[i].1),
    ensures
        pairs_view(p) == pairs_view(q),
    decreases p.len(),
{
    if p.len() > 0 {
        let p_init = p.drop_last();
        let q_init = q.drop_last();
        assert forall|i: int| 0 <= i < p_init.len() implies (#[trigger] p_init[i]).0@ == q_init[i].0@
            && value_view(p_init[i].1) == value_view(q_init[i].1) by {
            assert(p_init[i] == p[i]);
            assert(q_init[i] == q[i]);
        }
        lemma_pairs_view_pointwise(p_init, q_init);
        assert(p.last() == p[p.len() - 1]);
        assert(q.last() == q[q.len() - 1]);
    }
}

/// Appending an entry inserts it into the map.
pub proof fn lemma_pairs_view_push(p: Seq<(String, WindValue)>, e: (String, WindValue))
    ensures
        pairs_view(p.push(e)) == pairs_view(p).insert(e.0@, value_view(e.1)),
{
    assert(p.push(e).drop_last() =~= p);
}

/// Finds the entry that decides what `key` maps to.
pub fn find_key(pairs: &Vec<(String, WindValue)>, key: &String) -> (r: Option<usize>)
    ensures
        match r {
            Some(i) => i as int == key_index(pairs@, key@),
            None => key_index(pairs@, key@) < 0,
        },
{
    let mut i: usize = pairs.len();
    assert(pairs@.take(i as int) =~= pairs@);
    while i > 0
        invariant
            i <= pairs.len(),
            key_index(pairs@, key@) == key_index(pairs@.take(i as int), key@),
        decreases i,
    {
        i = i - 1;
        assert(pairs@.take(i + 1).drop_last() =~= pairs@.take(i as int));
        assert(pairs@.take(i + 1).last() == pairs@[i as int]);
        if pairs[i].0 == *key {
            return Some(i);
        }
    }
    None
}

fn bytes_equal(a: &Vec<u8>, b: &Vec<u8>) -> (r: bool)
    ensures
        r == (a@ == b@),
{
    if a.len() != b.len() {
        return false;
    }
    let mut i: usize = 0;
    while i < a.len()
        invariant
            i <= a.len(),
            a.len() == b.len(),
            forall|j: int| 0 <= j < i ==> a@[j] == b@[j],
        decreases a.len() - i,
    {
        if a[i] != b[i] {
            return false;
        }
        i = i + 1;
    }
    assert(a@ =~= b@);
    true
}

fn items_equal(x: &Vec<WindValue>, y: &Vec<WindValue>) -> (r: bool)
    ensures
        r == (items_view(x@) == items_view(y@)),
    decreases x,
{
    if x.len() != y.len() {
        assert(items_view(x@).len() != items_view(y@).len());
        return false;
    }
    let mut i: usize = 0;
    while i < x.len()
        invariant
            i <= x.len(),
            x.len() == y.len(),
            forall|j: int| 0 <= j < i ==> value_view(x@[j]) == value_view(y@[j]),
        decreases x.len() - i,
    {
        if !value_equal(&x[i], &y[i]) {
            assert(items_view(x@)[i as int] != items_view(y@)[i as int]);
            return false;
        }
        i = i + 1;
    }
    assert(items_view(x@) =~= items_view(y@));
    true
}

/// Whether the map of `x` is contained in the map of `y`: every key of `x`
/// is a key of `y`, with the same value.
fn pairs_within(x: &Vec<(String, WindValue)>, y: &Vec<(String, WindValue)>) -> (r: bool)
    ensures
        r == (forall|k: Seq<char>| #[trigger]
            pairs_view(x@).contains_key(k) ==> pairs_view(y@).contains_key(k) && pairs_view(
                x@,
            )[k] == pairs_view(y@)[k]),
    decreases x,
{
    let mut i: usize = 0;
    while i < x.len()
        invariant
            i <= x.len(),
            forall|j: int|
                0 <= j < i ==> {
                    &&& pairs_view(y@).contains_key((#[trigger] x@[j]).0@)
                    &&& pairs_view(y@)[x@[j].0@] == pairs_view(x@)[x@[j].0@]
                },
        decreases x.len() - i,
    {
        let key = &x[i].0;
        proof {
            lemma_key_index(x@, key@);
            lemma_key_index(y@, key@);
        }
        let mine = find_key(x, key);
        let theirs = find_key(y, key);
        match (mine, theirs) {
            (Some(m), Some(t)) => {
                if !value_equal(&x[m].1, &y[t].1) {
                    assert(pairs_view(x@).contains_key(key@));
                    return false;
                }
            },
            _ => {
                assert(pairs_view(x@).contains_key(key@));
                return false;
            },
        }
        i = i + 1;
    }
    assert forall|k: Seq<char>| #[trigger] pairs_view(x@).contains_key(k) implies pairs_view(
        y@,
    ).contains_key(k) && pairs_view(x@)[k] == pairs_view(y@)[k] by {
        lemma_key_index(x@, k);
        let j = key_index(x@, k);
        assert(x@[j].0@ == k);
    }
    true
}

/// Whether every key of `x` is a key of `y`.
fn keys_within(x: &Vec<(String, WindValue)>, y: &Vec<(String, WindValue)>) -> (r: bool)
    ensures
        r == (forall|k: Seq<char>| #[trigger]
            pairs_view(x@).contains_key(k) ==> pairs_view(y@).contains_key(k)),
{
    let mut i: usize = 0;
    while i < x.len()
        invariant
            i <= x.len(),
            forall|j: int| 0 <= j < i ==> pairs_view(y@).contains_key((#[trigger] x@[j]).0@),
        decreases x.len() - i,
    {
        let key = &x[i].0;
        proof {
            lemma_key_index(x@, key@);
            lemma_key_index(y@, key@);
        }
        if find_key(y, key).is_none() {
            assert(pairs_view(x@).contains_key(key@));
            return false;
        }
        i = i + 1;
    }
    assert forall|k: Seq<char>| #[trigger] pairs_view(x@).contains_key(k) implies pairs_view(
        y@,
    ).contains_key(k) by {
        lemma_key_index(x@, k);
        let j = key_index(x@, k);
        assert(x@[j].0@ == k);
    }
    true
}

/// Decides whether two values are the same value.
pub fn value_equal(a: &WindValue, b: &WindValue) -> (r: bool)
    ensures
        r == (a@ == b@),
    decreases a,
{
    match (a, b) {
        (WindValue::Bool(x), WindValue::Bool(y)) => *x == *y,
        (WindValue::I32(x), WindValue::I32(y)) => *x == *y,
        (WindValue::I64(x), WindValue::I64(y)) => *x == *y,
        (WindValue::F32(x), WindValue::F32(y)) => *x == *y,
        (WindValue::F64(x), WindValue::F64(y)) => *x == *y,
        (WindValue::String(x), WindValue::String(y)) => *x == *y,
        (WindValue::Bytes(x), WindValue::Bytes(y)) => bytes_equal(x, y),
        (WindValue::Array(x), WindValue::Array(y)) => items_equal(x, y),
        (WindValue::Mapping(x), WindValue::Mapping(y)) => {
            let forth = pairs_within(x, y);
            let back = keys_within(y, x);
            proof {
                if forth && back {
                    assert(pairs_view(x@) =~= pairs_view(y@));
                }
            }
            forth && back
        },
        _ => false,
    }
}

impl PartialEq for WindValue {
    fn eq(&self, other: &WindValue) -> (r: bool) {
        value_equal(self, other)
    }
}

impl PartialEqSpecImpl for WindValue {
    open spec fn obeys_eq_spec() -> bool {
        true
    }

    open spec fn eq_spec(&self, other: &WindValue) -> bool {
        self@ == other@
    }
}

fn clone_bytes(b: &Vec<u8>) -> (r: Vec<u8>)
    ensures
        r@ == b@,
{
    let mut out: Vec<u8> = Vec::with_capacity(b.len());
    let mut i: usize = 0;
    while i < b.len()
        invariant
            i <= b.len(),
            out@ == b@.take(i as int),
        decreases b.len() - i,
    {
        out.push(b[i]);
        assert(b@.take(i + 1) =~= b@.take(i as int).push(b@[i as int]));
        i = i + 1;
    }
    assert(b@.take(b.len() as int) =~= b@);
    out
}

fn clone_items(x: &Vec<WindValue>) -> (r: Vec<WindValue>)
    ensures
        items_view(r@) == items_view(x@),
    decreases x,
{
    let mut out: Vec<WindValue> = Vec::with_capacity(x.len());
    let mut i: usize = 0;
    while i < x.len()
        invariant
            i <= x.len(),
            out@.len() == i,
            forall|j: int| 0 <= j < i ==> value_view(out@[j]) == value_view(x@[j]),
        decreases x.len() - i,
    {
        out.push(clone_value(&x[i]));
        i = i + 1;
    }
    assert(items_view(out@) =~= items_view(x@));
    out
}

fn clone_pairs(x: &Vec<(String, WindValue)>) -> (r: Vec<(String, WindValue)>)
    ensures
        r@.len() == x@.len(),
        forall|j: int|
            0 <= j < x@.len() ==> (#[trigger] r@[j]).0@ == x@[j].0@ && value_view(r@[j].1)
                == value_view(x@[j].1),
        pairs_view(r@) == pairs_view(x@),
    decreases x,
{
    let mut out: Vec<(String, WindValue)> = Vec::with_capacity(x.len());
    let mut i: usize = 0;
    while i < x.len()
        invariant
            i <= x.len(),
            out@.len() == i,
            forall|j: int|
                0 <= j < i ==> (#[trigger] out@[j]).0@ == x@[j].0@ && value_view(out@[j].1)
                    == value_view(x@[j].1),
        decreases x.len() - i,
    {
        out.push((x[i].0.clone(), clone_value(&x[i].1)));
        i = i + 1;
    }
    proof {
        lemma_pairs_view_pointwise(out@, x@);
    }
    out
}

/// A deep copy: the result is the same value.
pub fn clone_value(v: &WindValue) -> (r: WindValue)
    ensures
        r@ == v@,
    decreases v,
{
    match v {
        WindValue::Bool(x) => WindValue::Bool(*x),
        WindValue::I32(x) => WindValue::I32(*x),
        WindValue::I64(x) => WindValue::I64(*x),
        WindValue::F32(x) => WindValue::F32(*x),
        WindValue::F64(x) => WindValue::F64(*x),
        WindValue::String(s) => WindValue::String(s.clone()),
        WindValue::Bytes(b) => WindValue::Bytes(clone_bytes(b)),
        WindValue::Array(items) => WindValue::Array(clone_items(items)),
        WindValue::Mapping(pairs) => WindValue::Mapping(clone_pairs(pairs)),
    }
}

impl Clone for WindValue {
    fn clone(&self) -> (r: WindValue)
        ensures
            r@ == self@,
    {
        clone_value(self)
    }
}

impl WindValue {
    /// Looks a key up in a mapping. `None` for a value that is no mapping
    /// and for a key that the mapping lacks.
    pub fn get(&self, key: &String) -> (r: Option<&WindValue>)
        ensures
            match self@ {
                ValueView::Mapping(m) => match r {
                    Some(v) => m.contains_key(key@) && v@ == m[key@],
                    None => !m.contains_key(key@),
                },
                _ => r.is_none(),
            },
    {
        match self {
            WindValue::Mapping(pairs) => {
                proof {
                    lemma_key_index(pairs@, key@);
                }
                match find_key(pairs, key) {
                    Some(i) => Some(&pairs[i].1),
                    None => None,
                }
            },
            _ => None,
        }
    }
}

impl From<bool> for WindValue {
    fn from(v: bool) -> (r: WindValue) {
        WindValue::Bool(v)
    }
}

impl FromSpecImpl<bool> for WindValue {
    open spec fn obeys_from_spec() -> bool {
        true
    }

    open spec fn from_spec(v: bool) -> WindValue {
        WindValue::Bool(v)
    }
}

impl From<i32> for WindValue {
    fn from(v: i32) -> (r: WindValue) {
        WindValue::I32(v)
    }
}

impl FromSpecImpl<i32> for WindValue {
    open spec fn obeys_from_spec() -> bool {
        true
    }

    open spec fn from_spec(v: i32) -> WindValue {
        WindValue::I32(v)
    }
}

impl From<i64> for WindValue {
    fn from(v: i64) -> (r: WindValue) {
        WindValue::I64(v)
    }
}

impl FromSpecImpl<i64> for WindValue {
    open spec fn obeys_from_spec() -> bool {
        true
    }

    open spec fn from_spec(v: i64) -> WindValue {
        WindValue::I64(v)
    }
}

impl From<String> for WindValue {
    fn from(v: String) -> (r: WindValue) {
        WindValue::String(v)
    }
}

impl FromSpecImpl<String> for WindValue {
    open spec fn obeys_from_spec() -> bool {
        true
    }

    open spec fn from_spec(v: String) -> WindValue {
        WindValue::String(v)
    }
}

impl From<Vec<u8>> for WindValue {
    fn from(v: Vec<u8>) -> (r: WindValue) {
        WindValue::Bytes(v)
    }
}

impl FromSpecImpl<Vec<u8>> for WindValue {
    open spec fn obeys_from_spec() -> bool {
        true
    }

    open spec fn from_spec(v: Vec<u8>) -> WindValue {
        WindValue::Bytes(v)
    }
}

/// How the kind of a value is written in an error message.
pub open spec fn kind_text(v: ValueView) -> Seq<char> {
    match v {
        ValueView::Bool(_) => "Bool"@,
        ValueView::I32(_) => "I32"@,
        ValueView::I64(_) => "I64"@,
        ValueView::F32(_) => "F32"@,
        ValueView::F64(_) => "F64"@,
        ValueView::String(_) => "String"@,
        ValueView::Bytes(_) => "Bytes"@,
        ValueView::Array(_) => "Array"@,
        ValueView::Mapping(_) => "Map"@,
    }
}

/// Writes the kind of a value as error messages show it.
pub fn kind_name(v: &WindValue) -> (r: String)
    ensures
        r@ == kind_text(v@),
{
    match v {
        WindValue::Bool(_) => String::from_str("Bool"),
        WindValue::I32(_) => String::from_str("I32"),
        WindValue::I64(_) => String::from_str("I64"),
        WindValue::F32(_) => String::from_str("F32"),
        WindValue::F64(_) => String::from_str("F64"),
        WindValue::String(_) => String::from_str("String"),
        WindValue::Bytes(_) => String::from_str("Bytes"),
        WindValue::Array(_) => String::from_str("Array"),
        WindValue::Mapping(_) => String::from_str("Map"),
    }
}

/// The error of a value asked for as another kind than it has.
pub open spec fn mismatch(expected: Seq<char>, v: ValueView) -> ErrorView {
    ErrorView::TypeMismatch { expected, actual: kind_text(v) }
}

/// The truth value that a value holds, or the error of a value of another
/// kind.
pub open spec fn as_bool(v: ValueView) -> Result<bool, ErrorView> {
    match v {
        ValueView::Bool(b) => Ok(b),
        _ => Err(mismatch("bool"@, v)),
    }
}

/// The 32-bit integer that a value holds, or the error of a value of
/// another kind.
pub open spec fn as_i32(v: ValueView) -> Result<i32, ErrorView> {
    match v {
        ValueView::I32(x) => Ok(x),
        _ => Err(mismatch("i32"@, v)),
    }
}

/// The text that a value holds, or the error of a value of another kind.
pub open spec fn as_text(v: ValueView) -> Result<Seq<char>, ErrorView> {
    match v {
        ValueView::String(s) => Ok(s),
        _ => Err(mismatch("String"@, v)),
    }
}

impl WindValue {
    /// The truth value that the value holds.
    pub fn into_bool(self) -> (r: Result<bool, WindError>)
        ensures
            match as_bool(self@) {
                Ok(b) => r == Ok::<bool, WindError>(b),
                Err(e) => r is Err && r->Err_0@ == e,
            },
    {
        match self {
            WindValue::Bool(b) => Ok(b),
            _ => Err(
                WindError::TypeMismatch {
                    expected: String::from_str("bool"),
                    actual: kind_name(&self),
                },
            ),
        }
    }

    /// The 32-bit integer that the value holds.
    pub fn into_i32(self) -> (r: Result<i32, WindError>)
        ensures
            match as_i32(self@) {
                Ok(x) => r == Ok::<i32, WindError>(x),
                Err(e) => r is Err && r->Err_0@ == e,
            },
    {
        match self {
            WindValue::I32(x) => Ok(x),
            _ => Err(
                WindError::TypeMismatch {
                    expected: String::from_str("i32"),
                    actual: kind_name(&self),
                },
            ),
        }
    }

    /// The text that the value holds.
    pub fn into_string(self) -> (r: Result<String, WindError>)
        ensures
            match as_text(self@) {
                Ok(s) => r is Ok && r->Ok_0@ == s,
                Err(e) => r is Err && r->Err_0@ == e,
            },
    {
        match self {
            WindValue::String(s) => Ok(s),
            _ => Err(
                WindError::TypeMismatch {
                    expected: String::from_str("String"),
                    actual: kind_name(&self),
                },
            ),
        }
    }
}

impl TryFrom<WindValue> for bool {
    type Error = WindError;

    fn try_from(v: WindValue) -> (r: Result<bool, WindError>)
        ensures
            match as_bool(v@) {
                Ok(b) => r == Ok::<bool, WindError>(b),
                Err(e) => r is Err && r->Err_0@ == e,
            },
    {
        v.into_bool()
    }
}

impl TryFromSpecImpl<WindValue> for bool {
    open spec fn obeys_try_from_spec() -> bool {
        false
    }

    open spec fn try_from_spec(v: WindValue) -> Result<bool, WindError> {
        arbitrary()
    }
}

impl TryFrom<WindValue> for i32 {
    type Error = WindError;

    fn try_from(v: WindValue) -> (r: Result<i32, WindError>)
        ensures
            match as_i32(v@) {
                Ok(x) => r == Ok::<i32, WindError>(x),
                Err(e) => r is Err && r->Err_0@ == e,
            },
    {
        v.into_i32()
    }
}

impl TryFromSpecImpl<WindValue> for i32 {
    open spec fn obeys_try_from_spec() -> bool {
        false
    }

    open spec fn try_from_spec(v: WindValue) -> Result<i32, WindError> {
        arbitrary()
    }
}

impl TryFrom<WindValue> for String {
    type Error = WindError;

    fn try_from(v: WindValue) -> (r: Result<String, WindError>)
        ensures
            match as_text(v@) {
                Ok(s) => r is Ok && r->Ok_0@ == s,
                Err(e) => r is Err && r->Err_0@ == e,
            },
    {
        v.into_string()
    }
}

impl TryFromSpecImpl<WindValue> for String {
    open spec fn obeys_try_from_spec() -> bool {
        false
    }

    open spec fn try_from_spec(v: WindValue) -> Result<String, WindError> {
        arbitrary()
    }
}

impl<'a> From<&'a str> for WindValue {
    fn from(v: &'a str) -> (r: WindValue)
        ensures
            r@ == ValueView::String(v@),
    {
        WindValue::String(v.to_owned())
    }
}

impl<'a> FromSpecImpl<&'a str> for WindValue {
    open spec fn obeys_from_spec() -> bool {
        false
    }

    open spec fn from_spec(v: &'a str) -> WindValue {
        arbitrary()
    }
}

} // verus!
