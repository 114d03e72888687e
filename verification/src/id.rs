//! Strong identifier types that keep entities, mutations and state nodes apart.
use uuid::Uuid;
use vstd::prelude::*;

verus! {

/// The bits that RFC 9562 fixes in a version 4 UUID: the version nibble and
/// the two variant bits.
pub const UUID_V4_FIXED_MASK: u128 = 0xF000_C000_0000_0000_0000;

/// The value of the fixed bits of a version 4 UUID (version 4, variant `10`).
pub const UUID_V4_FIXED_BITS: u128 = 0x4000_8000_0000_0000_0000;

/// Whether `bits`, read as a big-endian UUID, is a well-formed random (version 4) UUID.
pub open spec fn is_v4_bits(bits: u128) -> bool {
    bits & UUID_V4_FIXED_MASK == UUID_V4_FIXED_BITS
}

#[verifier::external_type_specification]
#[verifier::external_body]
pub struct ExUuid(Uuid);

/// Calls `uuid::Uuid::new_v4` and returns the UUID as its 128 bits, big-endian
/// (`Uuid::as_u128`).
///
/// Trusted: the bits come from the operating system's random source, so only
/// what holds of every outcome is stated: `new_v4` masks the version nibble to
/// 4 and the variant bits to `10`. The call panics if the system offers no
/// random bytes; that case is not excluded here.
#[verifier::external_body]
fn random_v4_bits() -> (bits: u128)
    ensures
        is_v4_bits(bits),
{
    Uuid::new_v4().as_u128()
}

/// The UUID whose 16 bytes, big-endian, are `bits`.
pub uninterp spec fn uuid_with_bits(bits: u128) -> Uuid;

/// Calls `uuid::Uuid::from_u128`, which builds the UUID whose big-endian bytes
/// are `bits`.
///
/// Trusted: the result is named [`uuid_with_bits`] of the argument, so equal
/// bits give equal UUIDs; and, as `from_u128` only lays the bits out as bytes
/// (`Uuid::from_bytes(v.to_be_bytes())`), no other bits give the same UUID. A
/// `Uuid` is opaque here, so its bytes are not stated.
#[verifier::external_body]
fn uuid_from_bits(bits: u128) -> (uuid: Uuid)
    ensures
        uuid == uuid_with_bits(bits),
        forall|other: u128| #[trigger] uuid_with_bits(other) == uuid ==> other == bits,
{
    Uuid::from_u128(bits)
}

/// Strongly typed identifier of a logical entity managed by GraphNet.
///
/// An [`EntityId`] identifies the logical object across all of its versions;
/// each immutable version has its own [`NodeId`].
#[derive(Debug, Clone, Copy, PartialEq, Eq, Hash)]
pub struct EntityId(u128);

impl View for EntityId {
    type V = u128;

    /// The 128 bits of the identifier's UUID, big-endian.
    closed spec fn view(&self) -> u128 {
        self.0
    }
}

impl EntityId {
    /// Creates a new random entity identifier.
    pub fn new() -> (id: Self)
        ensures
            is_v4_bits(id@),
    {
        EntityId(random_v4_bits())
    }

    /// Returns the underlying UUID value.
    pub fn as_uuid(&self) -> (uuid: Uuid)
        ensures
            uuid == uuid_with_bits(self@),
            forall|other: Self| #[trigger] uuid_with_bits(other@) == uuid <==> other == *self,
    {
        let uuid = uuid_from_bits(self.0);
        proof {
            assert forall|other: Self| #[trigger]
                uuid_with_bits(other@) == uuid implies other == *self by {
                self.lemma_view_determines(other);
            }
        }
        uuid
    }

    /// An identifier is determined by its bits.
    pub proof fn lemma_view_determines(self, other: Self)
        ensures
            self@ == other@ ==> self == other,
    {
    }

    /// The 128 bits of the identifier, by which the engine files it.
    pub(crate) fn bits(&self) -> (bits: u128)
        ensures
            bits == self@,
    {
        self.0
    }
}

impl Default for EntityId {
    /// Creates a new random entity identifier.
    fn default() -> (id: Self)
        ensures
            is_v4_bits(id@),
    {
        Self::new()
    }
}

/// Strongly typed identifier of a mutation.
///
/// A mutation is an atomic logical operation that may read several state
/// versions and create several new state versions.
#[derive(Debug, Clone, Copy, PartialEq, Eq, Hash)]
pub struct MutationId(u128);

impl View for MutationId {
    type V = u128;

    /// The 128 bits of the identifier's UUID, big-endian.
    closed spec fn view(&self) -> u128 {
        self.0
    }
}

impl MutationId {
    /// Creates a new random mutation identifier.
    pub fn new() -> (id: Self)
        ensures
            is_v4_bits(id@),
    {
        MutationId(random_v4_bits())
    }

    /// Returns the underlying UUID value.
    pub fn as_uuid(&self) -> (uuid: Uuid)
        ensures
            uuid == uuid_with_bits(self@),
            forall|other: Self| #[trigger] uuid_with_bits(other@) == uuid <==> other == *self,
    {
        let uuid = uuid_from_bits(self.0);
        proof {
            assert forall|other: Self| #[trigger]
                uuid_with_bits(other@) == uuid implies other == *self by {
                self.lemma_view_determines(other);
            }
        }
        uuid
    }

    /// An identifier is determined by its bits.
    pub proof fn lemma_view_determines(self, other: Self)
        ensures
            self@ == other@ ==> self == other,
    {
    }

    /// The 128 bits of the identifier, by which the engine files it.
    pub(crate) fn bits(&self) -> (bits: u128)
        ensures
            bits == self@,
    {
        self.0
    }
}

impl Default for MutationId {
    /// Creates a new random mutation identifier.
    fn default() -> (id: Self)
        ensures
            is_v4_bits(id@),
    {
        Self::new()
    }
}

/// Strongly typed identifier of an immutable state node.
///
/// One logical entity can have many [`NodeId`] values because every committed
/// version is represented by its own state node.
#[derive(Debug, Clone, Copy, PartialEq, Eq, Hash)]
pub struct NodeId(u128);

impl View for NodeId {
    type V = u128;

    /// The 128 bits of the identifier's UUID, big-endian.
    closed spec fn view(&self) -> u128 {
        self.0
    }
}

impl NodeId {
    /// Creates a new random node identifier.
    pub fn new() -> (id: Self)
        ensures
            is_v4_bits(id@),
    {
        NodeId(random_v4_bits())
    }

    /// Returns the underlying UUID value.
    pub fn as_uuid(&self) -> (uuid: Uuid)
        ensures
            uuid == uuid_with_bits(self@),
            forall|other: Self| #[trigger] uuid_with_bits(other@) == uuid <==> other == *self,
    {
        let uuid = uuid_from_bits(self.0);
        proof {
            assert forall|other: Self| #[trigger]
                uuid_with_bits(other@) == uuid implies other == *self by {
                self.lemma_view_determines(other);
            }
        }
        uuid
    }

    /// An identifier is determined by its bits.
    pub proof fn lemma_view_determines(self, other: Self)
        ensures
            self@ == other@ ==> self == other,
    {
    }

    /// The identifier with the given bits.
    pub(crate) fn from_bits(bits: u128) -> (id: Self)
        ensures
            id@ == bits,
    {
        Self(bits)
    }

    /// The 128 bits of the identifier, by which the engine files it.
    pub(crate) fn bits(&self) -> (bits: u128)
        ensures
            bits == self@,
    {
        self.0
    }
}

impl Default for NodeId {
    /// Creates a new random node identifier.
    fn default() -> (id: Self)
        ensures
            is_v4_bits(id@),
    {
        Self::new()
    }
}

} // verus!
