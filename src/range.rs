//! Source ranges and their packing into a single 60-bit word.
//!
//! A packed range holds the file id in bits 48..60, the end offset in
//! bits 24..48 and the start offset in bits 0..24.
use vstd::prelude::*;

verus! {

/// A span of source text: the file it belongs to and two byte offsets.
#[derive(Clone, Copy, Debug, PartialEq, Eq, Structural)]
pub struct Range {
    pub ctx: u64,
    pub start: u64,
    pub end: u64,
}

/// A range packed into one machine word.
#[derive(Clone, Copy, Debug, PartialEq, Eq, Structural)]
pub struct EncodedRange(pub u64);

/// The largest file id plus one.
pub const CTX_LIMIT: u64 = 0x1000;

/// The largest offset plus one.
pub const POS_LIMIT: u64 = 0x100_0000;

/// The ranges that the packed format can hold.
pub open spec fn range_fits(r: Range) -> bool {
    r.ctx < CTX_LIMIT && r.start < POS_LIMIT && r.end < POS_LIMIT
}

pub open spec fn pack_range(r: Range) -> u64 {
    (r.ctx << 48u64) | ((r.end & 0xFF_FFFFu64) << 24u64) | (r.start & 0xFF_FFFFu64)
}

pub open spec fn unpack_range(n: u64) -> Range {
    Range { ctx: n >> 48u64, start: n & 0xFF_FFFFu64, end: (n >> 24u64) & 0xFF_FFFFu64 }
}

/// The range that stands for generated code.
pub open spec fn ghost_range_spec() -> Range {
    Range { ctx: 0, start: 0, end: 0 }
}

impl Range {
    pub fn new(ctx: u64, start: u64, end: u64) -> (r: Range)
        ensures
            r == (Range { ctx, start, end }),
    {
        Range { ctx, start, end }
    }

    pub fn ghost_range() -> (r: Range)
        ensures
            r == ghost_range_spec(),
    {
        Range { ctx: 0, start: 0, end: 0 }
    }

    /// Packs the range; a range that fits gives a word below 2^60.
    pub fn encode(&self) -> (r: EncodedRange)
        ensures
            r.0 == pack_range(*self),
            range_fits(*self) ==> r.0 < 0x1000_0000_0000_0000u64,
    {
        let r = EncodedRange((self.ctx << 48u64) | ((self.end & 0xFF_FFFFu64) << 24u64) | (
        self.start & 0xFF_FFFFu64));
        proof {
            lemma_pack_bound(*self);
        }
        r
    }
}

impl EncodedRange {
    pub fn to_range(&self) -> (r: Range)
        ensures
            r == unpack_range(self.0),
    {
        Range { ctx: self.0 >> 48u64, start: self.0 & 0xFF_FFFFu64, end: (self.0 >> 24u64) & 0xFF_FFFFu64 }
    }
}

proof fn lemma_pack_bound(r: Range)
    ensures
        range_fits(r) ==> pack_range(r) < 0x1000_0000_0000_0000u64,
{
    let (c, s, e) = (r.ctx, r.start, r.end);
    assert(c < 0x1000u64 && s < 0x100_0000u64 && e < 0x100_0000u64 ==> (c << 48u64) | ((e
        & 0xFF_FFFFu64) << 24u64) | (s & 0xFF_FFFFu64) < 0x1000_0000_0000_0000u64) by (bit_vector);
}

/// Unpacking a packed range gives the range back, for every range whose
/// file id and offsets fit the packed format.
pub proof fn lemma_range_round_trip(r: Range)
    requires
        range_fits(r),
    ensures
        unpack_range(pack_range(r)) == r,
        pack_range(r) < 0x1000_0000_0000_0000u64,
{
    let (c, s, e) = (r.ctx, r.start, r.end);
    lemma_pack_bound(r);
    assert(c < 0x1000u64 && s < 0x100_0000u64 && e < 0x100_0000u64 ==> ((c << 48u64) | ((e
        & 0xFF_FFFFu64) << 24u64) | (s & 0xFF_FFFFu64)) >> 48u64 == c) by (bit_vector);
    assert(c < 0x1000u64 && s < 0x100_0000u64 && e < 0x100_0000u64 ==> ((c << 48u64) | ((e
        & 0xFF_FFFFu64) << 24u64) | (s & 0xFF_FFFFu64)) & 0xFF_FFFFu64 == s) by (bit_vector);
    assert(c < 0x1000u64 && s < 0x100_0000u64 && e < 0x100_0000u64 ==> (((c << 48u64) | ((e
        & 0xFF_FFFFu64) << 24u64) | (s & 0xFF_FFFFu64)) >> 24u64) & 0xFF_FFFFu64 == e)
        by (bit_vector);
}

} // verus!
