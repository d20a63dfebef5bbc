//! Canonical bytes: the CBOR encoding that verdicts are signed over and audit
//! records are hashed over, and the SHA-256 digest of bytes.
use vstd::prelude::*;

use crate::ids::{GateId, HandEditRef, OperatorId, Sig, TaskId, Timestamp};

verus! {

/// A dynamic CBOR value of the `ciborium` crate.
#[verifier::external_type_specification]
#[verifier::external_body]
pub struct ExValue(ciborium::value::Value);

/// A CBOR data item, as far as this crate builds them.
pub enum Item {
    Int(int),
    Text(Seq<char>),
    Null,
    Array(Seq<Item>),
    Table(Seq<(Item, Item)>),
}

/// The data item that a `ciborium` value holds.
pub uninterp spec fn cbor_item(v: ciborium::value::Value) -> Item;

/// The bytes that `ciborium::into_writer` writes for a data item.
pub uninterp spec fn cbor_bytes(item: Item) -> Seq<u8>;

/// The SHA-256 digest of a byte string.
pub uninterp spec fn sha256_digest(bytes: Seq<u8>) -> Seq<u8>;

/// No other data item has the encoding of `item`.
pub open spec fn encodes_only(item: Item) -> bool {
    forall|other: Item| #[trigger] cbor_bytes(other) == cbor_bytes(item) ==> other == item
}

/// `ciborium::value::Value::Text`: a value that holds the text `s`.
#[verifier::external_body]
pub(crate) fn text_value(s: &str) -> (r: ciborium::value::Value)
    ensures
        cbor_item(r) == Item::Text(s@),
{
    ciborium::value::Value::Text(s.to_owned())
}

/// `ciborium::value::Value::from` on an unsigned integer: a value that holds
/// that integer.
#[verifier::external_body]
pub(crate) fn unsigned_value(n: u64) -> (r: ciborium::value::Value)
    ensures
        cbor_item(r) == Item::Int(n as int),
{
    ciborium::value::Value::from(n)
}

/// `ciborium::value::Value::from` on a signed integer: a value that holds that
/// integer.
#[verifier::external_body]
pub(crate) fn signed_value(n: i64) -> (r: ciborium::value::Value)
    ensures
        cbor_item(r) == Item::Int(n as int),
{
    ciborium::value::Value::from(n)
}

/// `ciborium::value::Value::Null`.
#[verifier::external_body]
pub(crate) fn null_value() -> (r: ciborium::value::Value)
    ensures
        cbor_item(r) == Item::Null,
{
    ciborium::value::Value::Null
}

/// `ciborium::value::Value::Array`: a value that holds the given values in
/// order.
#[verifier::external_body]
pub(crate) fn array_value(vs: Vec<ciborium::value::Value>) -> (r: ciborium::value::Value)
    ensures
        cbor_item(r) == Item::Array(vs@.map_values(|v: ciborium::value::Value| cbor_item(v))),
{
    ciborium::value::Value::Array(vs)
}

/// `ciborium::value::Value::Map`: a value that holds the given pairs of key and
/// value in order.
#[verifier::external_body]
pub(crate) fn table_value(
    vs: Vec<(ciborium::value::Value, ciborium::value::Value)>,
) -> (r: ciborium::value::Value)
    ensures
        cbor_item(r) == Item::Table(
            vs@.map_values(
                |p: (ciborium::value::Value, ciborium::value::Value)|
                    (cbor_item(p.0), cbor_item(p.1)),
            ),
        ),
{
    ciborium::value::Value::Map(vs)
}

/// `ciborium::into_writer` into a byte vector, which cannot fail: the encoding
/// depends on the data item alone, and every item starts with its kind and its
/// length, so no two items share an encoding.
#[verifier::external_body]
pub(crate) fn encode_value(v: &ciborium::value::Value) -> (r: Vec<u8>)
    ensures
        r@ == cbor_bytes(cbor_item(*v)),
        forall|other: Item| #[trigger] cbor_bytes(other) == r@ ==> other == cbor_item(*v),
{
    let mut buf: Vec<u8> = Vec::new();
    ciborium::into_writer(v, &mut buf).expect("writing to a vector does not fail");
    buf
}

/// `sha2::Sha256`: the digest of the bytes, which is 32 bytes long.
#[verifier::external_body]
fn sha256_array(bytes: &[u8]) -> (r: [u8; 32])
    ensures
        r@ == sha256_digest(bytes@),
{
    <sha2::Sha256 as sha2::Digest>::digest(bytes).into()
}

/// One entry of a table.
pub(crate) fn field(
    name: &str,
    value: ciborium::value::Value,
) -> (r: (ciborium::value::Value, ciborium::value::Value))
    ensures
        cbor_item(r.0) == Item::Text(name@),
        cbor_item(r.1) == cbor_item(value),
{
    (text_value(name), value)
}

/// A value with a canonical encoding. Structs encode as tables of their fields
/// in declaration order, so identical values always produce identical bytes.
pub trait Canonical {
    /// The data item that stands for this value.
    spec fn item(&self) -> Item;

    fn to_value(&self) -> (r: ciborium::value::Value)
        ensures
            cbor_item(r) == self.item(),
    ;
}

/// Deterministic CBOR encoding.
pub fn canonical_bytes<T: Canonical>(value: &T) -> (r: Vec<u8>)
    ensures
        r@ == cbor_bytes(value.item()),
        encodes_only(value.item()),
{
    let v = value.to_value();
    encode_value(&v)
}

/// SHA-256 of an arbitrary byte slice.
pub fn sha256(bytes: &[u8]) -> (r: crate::ids::Hash)
    ensures
        r.0@ == sha256_digest(bytes@),
{
    crate::ids::Hash(sha256_array(bytes))
}

/// The item of a byte array: an array of integers.
pub open spec fn bytes_item(bytes: Seq<u8>) -> Item {
    Item::Array(bytes.map_values(|b: u8| Item::Int(b as int)))
}

/// Different byte strings have different items.
pub proof fn bytes_item_is_injective(a: Seq<u8>, b: Seq<u8>)
    requires
        bytes_item(a) == bytes_item(b),
    ensures
        a == b,
{
    let x = a.map_values(|b: u8| Item::Int(b as int));
    let y = b.map_values(|b: u8| Item::Int(b as int));
    assert(x.len() == y.len());
    assert forall|i: int| 0 <= i < a.len() implies a[i] == b[i] by {
        assert(x[i] == y[i]);
    }
}

fn bytes_value(bytes: &[u8]) -> (r: ciborium::value::Value)
    ensures
        cbor_item(r) == bytes_item(bytes@),
{
    let mut vs: Vec<ciborium::value::Value> = Vec::new();
    let mut i: usize = 0;
    while i < bytes.len()
        invariant
            0 <= i <= bytes.len(),
            vs@.len() == i,
            forall|j: int| 0 <= j < i ==> cbor_item(#[trigger] vs@[j]) == Item::Int(
                bytes@[j] as int,
            ),
        decreases bytes.len() - i,
    {
        vs.push(unsigned_value(bytes[i] as u64));
        i = i + 1;
    }
    let r = array_value(vs);
    assert(cbor_item(r)->Array_0 =~= bytes@.map_values(|b: u8| Item::Int(b as int)));
    r
}

impl Canonical for OperatorId {
    open spec fn item(&self) -> Item {
        bytes_item(self.0@)
    }

    fn to_value(&self) -> (r: ciborium::value::Value) {
        bytes_value(self.0.as_slice())
    }
}

impl Canonical for crate::ids::Hash {
    open spec fn item(&self) -> Item {
        bytes_item(self.0@)
    }

    fn to_value(&self) -> (r: ciborium::value::Value) {
        bytes_value(self.0.as_slice())
    }
}

impl Canonical for Sig {
    open spec fn item(&self) -> Item {
        bytes_item(self.0@)
    }

    fn to_value(&self) -> (r: ciborium::value::Value) {
        bytes_value(self.0.as_slice())
    }
}

impl Canonical for GateId {
    open spec fn item(&self) -> Item {
        Item::Text(self@)
    }

    fn to_value(&self) -> (r: ciborium::value::Value) {
        text_value(self.0.as_str())
    }
}

impl Canonical for TaskId {
    open spec fn item(&self) -> Item {
        Item::Text(self@)
    }

    fn to_value(&self) -> (r: ciborium::value::Value) {
        text_value(self.0.as_str())
    }
}

impl Canonical for HandEditRef {
    open spec fn item(&self) -> Item {
        Item::Text(self@)
    }

    fn to_value(&self) -> (r: ciborium::value::Value) {
        text_value(self.0.as_str())
    }
}

impl Canonical for Timestamp {
    open spec fn item(&self) -> Item {
        Item::Int(self.0 as int)
    }

    fn to_value(&self) -> (r: ciborium::value::Value) {
        signed_value(self.0)
    }
}

/// The item of an optional text.
pub open spec fn optional_text_item(t: Option<String>) -> Item {
    match t {
        Some(s) => Item::Text(s@),
        None => Item::Null,
    }
}

pub(crate) fn optional_text_value(t: &Option<String>) -> (r: ciborium::value::Value)
    ensures
        cbor_item(r) == optional_text_item(*t),
{
    match t {
        Some(s) => text_value(s.as_str()),
        None => null_value(),
    }
}

/// The item of a list of texts.
pub open spec fn text_list_item(v: Seq<String>) -> Item {
    Item::Array(v.map_values(|s: String| Item::Text(s@)))
}

pub(crate) fn text_list_value(v: &Vec<String>) -> (r: ciborium::value::Value)
    ensures
        cbor_item(r) == text_list_item(v@),
{
    let mut vs: Vec<ciborium::value::Value> = Vec::new();
    let mut i: usize = 0;
    while i < v.len()
        invariant
            0 <= i <= v.len(),
            vs@.len() == i,
            forall|j: int| 0 <= j < i ==> cbor_item(#[trigger] vs@[j]) == Item::Text(v@[j]@),
        decreases v.len() - i,
    {
        vs.push(text_value(v[i].as_str()));
        i = i + 1;
    }
    let r = array_value(vs);
    assert(cbor_item(r)->Array_0 =~= v@.map_values(|s: String| Item::Text(s@)));
    r
}

} // verus!
