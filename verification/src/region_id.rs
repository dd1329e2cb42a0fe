//! Region identity: a table identifier and a region number, packed into one
//! comparable, hashable 64-bit key that also drives worker sharding.

use vstd::prelude::*;

verus! {

/// Identifies a region uniquely within the engine. Immutable token: equality
/// and hashing are structural over the pair, and the packed 64-bit form keys
/// every region mapping and the sharding function.
#[derive(Clone, Copy, Debug, PartialEq, Eq, Hash, Structural)]
pub struct RegionId {
    pub table_id: u32,
    pub region_number: u32,
}

impl RegionId {
    /// The packed form: table id in the high 32 bits, region number in the
    /// low 32 bits.
    pub open spec fn packed(self) -> u64 {
        ((self.table_id as u64) << 32u64) | (self.region_number as u64)
    }

    pub fn new(table_id: u32, region_number: u32) -> (r: Self)
        ensures
            r.table_id == table_id,
            r.region_number == region_number,
    {
        RegionId { table_id, region_number }
    }

    pub fn table_id(&self) -> (r: u32)
        ensures
            r == self.table_id,
    {
        self.table_id
    }

    pub fn region_number(&self) -> (r: u32)
        ensures
            r == self.region_number,
    {
        self.region_number
    }

    /// The packed 64-bit key of this identifier.
    pub fn as_u64(&self) -> (r: u64)
        ensures
            r == self.packed(),
    {
        ((self.table_id as u64) << 32u64) | (self.region_number as u64)
    }

    /// Rebuilds the identifier from its packed form.
    pub fn from_u64(v: u64) -> (r: Self)
        ensures
            r.packed() == v,
            r.table_id == (v >> 32u64) as u32,
            r.region_number == v as u32,
    {
        let table_id: u32 = (v >> 32u64) as u32;
        let region_number: u32 = v as u32;
        proof {
            assert((((v >> 32u64) as u32 as u64) << 32u64) | (v as u32 as u64) == v)
                by (bit_vector);
        }
        RegionId { table_id, region_number }
    }
}

/// Packing loses nothing: both components are recovered from the packed key,
/// so distinct identifiers always give distinct keys.
pub proof fn lemma_packed_injective(a: RegionId, b: RegionId)
    ensures
        a.packed() == b.packed() ==> a == b,
{
    let (t1, r1, t2, r2) = (a.table_id, a.region_number, b.table_id, b.region_number);
    assert((((t1 as u64) << 32u64) | (r1 as u64)) == (((t2 as u64) << 32u64) | (r2 as u64))
        ==> t1 == t2 && r1 == r2) by (bit_vector);
}

} // verus!
