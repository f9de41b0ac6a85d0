//! Identifier spaces.
//!
//! Entity identifiers are globally unique and carry a marker type, so that a
//! graph identifier cannot stand where an aggregate identifier is expected.
//! Node and edge identifiers are local: they are meaningful only as keys
//! inside one graph.
//!
//! Every identifier holds the 128 bits of a UUID. Fresh identifiers are random
//! (version 4) UUIDs.

use core::marker::PhantomData;
use vstd::arithmetic::power::pow;
use vstd::prelude::*;

verus! {

/// Whether `value` carries the version and variant bits of a random
/// (version 4, RFC 9562) UUID.
pub open spec fn is_random_uuid(value: u128) -> bool {
    value & 0xF000_C000_0000_0000_0000u128 == 0x4000_8000_0000_0000_0000u128
}

/// The lower-case hexadecimal digit for `n` in `0..16`.
pub open spec fn hex_digit(n: int) -> char {
    seq!['0', '1', '2', '3', '4', '5', '6', '7', '8', '9', 'a', 'b', 'c', 'd', 'e', 'f'][n]
}

/// The `k`-th hexadecimal digit of `value`, counted from the most significant
/// one (`k` in `0..32`).
pub open spec fn uuid_nibble(value: u128, k: int) -> int {
    (value as int / pow(16, (31 - k) as nat)) % 16
}

/// The canonical text of a UUID: 32 lower-case hexadecimal digits, most
/// significant first, in groups of 8, 4, 4, 4 and 12 separated by hyphens.
pub open spec fn uuid_text(value: u128) -> Seq<char> {
    Seq::new(
        36,
        |i: int|
            if i == 8 || i == 13 || i == 18 || i == 23 {
                '-'
            } else if i < 8 {
                hex_digit(uuid_nibble(value, i))
            } else if i < 13 {
                hex_digit(uuid_nibble(value, i - 1))
            } else if i < 18 {
                hex_digit(uuid_nibble(value, i - 2))
            } else if i < 23 {
                hex_digit(uuid_nibble(value, i - 3))
            } else {
                hex_digit(uuid_nibble(value, i - 4))
            },
    )
}

/// Draws a random UUID with `uuid::Uuid::new_v4` and hands out its 128 bits
/// (`Uuid::as_u128`). Nothing is claimed of the random bits; the version and
/// variant bits are those that `new_v4` sets.
#[verifier::external_body]
fn random_uuid() -> (value: u128)
    ensures
        is_random_uuid(value),
{
    uuid::Uuid::new_v4().as_u128()
}

/// Formats 128 bits as a UUID with `uuid::Uuid`'s `Display`, which writes the
/// hyphenated lower-case form.
#[verifier::external_body]
fn format_uuid(value: u128) -> (text: String)
    ensures
        text@ == uuid_text(value),
{
    uuid::Uuid::from_u128(value).to_string()
}

/// Identifier of a node, local to one graph.
#[derive(Clone, Copy, Debug, PartialEq, Eq, Hash, Structural)]
pub struct NodeId(pub u128);

impl NodeId {
    /// A fresh random identifier.
    pub fn new() -> (id: Self)
        ensures
            is_random_uuid(id.0),
    {
        NodeId(random_uuid())
    }

    /// The identifier with the given raw value.
    pub fn from_u128(raw: u128) -> (id: Self)
        ensures
            id.0 == raw,
    {
        NodeId(raw)
    }

    /// The raw value.
    pub fn as_u128(&self) -> (raw: u128)
        ensures
            raw == self.0,
    {
        self.0
    }

    /// The canonical UUID text of the identifier.
    pub fn to_string(&self) -> (text: String)
        ensures
            text@ == uuid_text(self.0),
    {
        format_uuid(self.0)
    }
}

impl Default for NodeId {
    /// A fresh random identifier.
    fn default() -> (id: Self)
        ensures
            is_random_uuid(id.0),
    {
        NodeId::new()
    }
}

/// The raw values of a list of node identifiers.
pub open spec fn raw_ids(ids: Seq<NodeId>) -> Seq<u128> {
    Seq::new(ids.len(), |i: int| ids[i].0)
}

/// Identifier of an edge, local to one graph.
#[derive(Clone, Copy, Debug, PartialEq, Eq, Hash, Structural)]
pub struct EdgeId(pub u128);

impl EdgeId {
    /// A fresh random identifier.
    pub fn new() -> (id: Self)
        ensures
            is_random_uuid(id.0),
    {
        EdgeId(random_uuid())
    }

    /// The identifier with the given raw value.
    pub fn from_u128(raw: u128) -> (id: Self)
        ensures
            id.0 == raw,
    {
        EdgeId(raw)
    }

    /// The raw value.
    pub fn as_u128(&self) -> (raw: u128)
        ensures
            raw == self.0,
    {
        self.0
    }

    /// The canonical UUID text of the identifier.
    pub fn to_string(&self) -> (text: String)
        ensures
            text@ == uuid_text(self.0),
    {
        format_uuid(self.0)
    }
}

impl Default for EdgeId {
    /// A fresh random identifier.
    fn default() -> (id: Self)
        ensures
            is_random_uuid(id.0),
    {
        EdgeId::new()
    }
}

/// Marker of graph identifiers.
#[derive(Clone, Copy, Debug, PartialEq, Eq, Hash)]
pub struct GraphMarker;

/// Marker of aggregate identifiers.
#[derive(Clone, Copy, Debug, PartialEq, Eq, Hash)]
pub struct AggregateMarker;

/// Marker of bounded-context identifiers.
#[derive(Clone, Copy, Debug, PartialEq, Eq, Hash)]
pub struct BoundedContextMarker;

/// Marker of entity identifiers.
#[derive(Clone, Copy, Debug, PartialEq, Eq, Hash)]
pub struct EntityMarker;

/// Marker of value-object identifiers.
#[derive(Clone, Copy, Debug, PartialEq, Eq, Hash)]
pub struct ValueObjectMarker;

/// Marker of service identifiers.
#[derive(Clone, Copy, Debug, PartialEq, Eq, Hash)]
pub struct ServiceMarker;

/// Marker of event identifiers.
#[derive(Clone, Copy, Debug, PartialEq, Eq, Hash)]
pub struct EventMarker;

/// Marker of command identifiers.
#[derive(Clone, Copy, Debug, PartialEq, Eq, Hash)]
pub struct CommandMarker;

/// Marker of query identifiers.
#[derive(Clone, Copy, Debug, PartialEq, Eq, Hash)]
pub struct QueryMarker;

/// A globally unique identifier of an entity of kind `M`.
///
/// Two identifiers are the same when their raw values are; the marker has no
/// run-time representation.
#[derive(Debug, PartialEq, Eq, Hash)]
pub struct EntityId<M> {
    pub value: u128,
    pub marker: PhantomData<M>,
}

impl<M> Clone for EntityId<M> {
    fn clone(&self) -> (copy: Self)
        ensures
            copy == *self,
    {
        EntityId { value: self.value, marker: PhantomData }
    }
}

impl<M> Copy for EntityId<M> {

}

impl<M> EntityId<M> {
    /// A fresh random identifier.
    pub fn new() -> (id: Self)
        ensures
            is_random_uuid(id.value),
    {
        EntityId { value: random_uuid(), marker: PhantomData }
    }

    /// The identifier with the given raw value.
    pub fn from_u128(raw: u128) -> (id: Self)
        ensures
            id.value == raw,
    {
        EntityId { value: raw, marker: PhantomData }
    }

    /// The raw value.
    pub fn as_u128(&self) -> (raw: u128)
        ensures
            raw == self.value,
    {
        self.value
    }

    /// The canonical UUID text of the identifier.
    pub fn to_string(&self) -> (text: String)
        ensures
            text@ == uuid_text(self.value),
    {
        format_uuid(self.value)
    }
}

/// Identifier of a graph.
pub type GraphId = EntityId<GraphMarker>;

/// Identifier of an aggregate.
pub type AggregateId = EntityId<AggregateMarker>;

/// Identifier of a bounded context.
pub type BoundedContextId = EntityId<BoundedContextMarker>;

} // verus!
