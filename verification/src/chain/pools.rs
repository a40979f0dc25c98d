//! Discovery of pools in the chain's logs.
use vstd::prelude::*;

use crate::address::Address;
use crate::models::PoolInfo;

verus! {

/// How far a range of blocks in one log query reaches beyond its first block.
pub const LOG_CHUNK_SIZE: u64 = 5_000;

/// A range of blocks, both ends included.
#[derive(Debug, Clone, Copy, PartialEq, Eq, Structural)]
pub struct BlockRange {
    pub from: u64,
    pub to: u64,
}

/// The last block of the chunk that starts at `start`.
pub open spec fn chunk_end(start: int, to: int) -> int {
    if start + LOG_CHUNK_SIZE < to {
        start + LOG_CHUNK_SIZE
    } else {
        to
    }
}

/// The blocks from `start` to `to`, cut into chunks.
pub open spec fn chunks(start: int, to: int) -> Seq<(int, int)>
    decreases to - start + 1,
{
    if start > to {
        Seq::empty()
    } else {
        seq![(start, chunk_end(start, to))] + chunks(chunk_end(start, to) + 1, to)
    }
}

/// The ranges as pairs of block numbers.
pub open spec fn ends_of(ranges: Seq<BlockRange>) -> Seq<(int, int)> {
    ranges.map_values(|r: BlockRange| (r.from as int, r.to as int))
}

/// The blocks from `from` to `to`, cut into the ranges of single log queries.
pub fn log_chunks(from: u64, to: u64) -> (r: Vec<BlockRange>)
    requires
        to <= u64::MAX - LOG_CHUNK_SIZE - 1,
    ensures
        ends_of(r@) == chunks(from as int, to as int),
{
    let mut r: Vec<BlockRange> = Vec::new();
    let mut start: u64 = from;
    assert(ends_of(r@) + chunks(from as int, to as int) =~= chunks(from as int, to as int));
    while start <= to
        invariant
            to <= u64::MAX - LOG_CHUNK_SIZE - 1,
            ends_of(r@) + chunks(start as int, to as int) == chunks(from as int, to as int),
        decreases to - start + 1,
    {
        let end: u64 = if start + LOG_CHUNK_SIZE < to {
            start + LOG_CHUNK_SIZE
        } else {
            to
        };
        let ghost before = ends_of(r@);
        r.push(BlockRange { from: start, to: end });
        proof {
            let c = seq![(start as int, end as int)];
            assert(ends_of(r@) =~= before + c);
            assert(before + c + chunks(end + 1, to as int) =~= before + (c + chunks(
                end + 1,
                to as int,
            )));
        }
        start = end + 1;
    }
    assert(ends_of(r@) + chunks(start as int, to as int) =~= ends_of(r@));
    r
}

/// The chunks of a range cover every block of it once, in order: each starts right
/// after the one before, the first at the start and the last at the end, and none
/// reaches further than a query may.
pub proof fn law_chunks_cover(start: int, to: int)
    requires
        start <= to,
    ensures
        chunks(start, to).len() > 0,
        chunks(start, to)[0].0 == start,
        chunks(start, to).last().1 == to,
        forall|i: int|
            0 <= i < chunks(start, to).len() ==> (#[trigger] chunks(start, to)[i]).0 <= chunks(
                start,
                to,
            )[i].1 <= chunks(start, to)[i].0 + LOG_CHUNK_SIZE,
        forall|i: int, j: int|
            #![trigger chunks(start, to)[i], chunks(start, to)[j]]
            0 <= i && j == i + 1 && j < chunks(start, to).len() ==> chunks(start, to)[j].0
                == chunks(start, to)[i].1 + 1,
    decreases to - start,
{
    let s = chunks(start, to);
    let next = chunk_end(start, to) + 1;
    let t = chunks(next, to);
    if next <= to {
        law_chunks_cover(next, to);
        assert forall|i: int| 0 <= i < s.len() implies (#[trigger] s[i]).0 <= s[i].1 <= s[i].0
            + LOG_CHUNK_SIZE by {
            if i > 0 {
                assert(s[i] == t[i - 1]);
            }
        }
        assert forall|i: int, j: int|
            #![trigger s[i], s[j]]
            0 <= i && j == i + 1 && j < s.len() implies s[j].0 == s[i].1 + 1 by {
            assert(s[j] == t[j - 1]);
            if i > 0 {
                assert(s[i] == t[i - 1]);
            }
        }
        assert(s.last() == t.last());
    } else {
        assert(t.len() == 0);
    }
}

/// What a scan of the factory's logs covers: the queries to make, and the block that
/// it stops at.
#[derive(Debug)]
pub struct ScanPlan {
    pub ranges: Vec<BlockRange>,
    pub stop: u64,
}

/// The queries of a scan and the block that it stops at.
pub open spec fn planned(from_block: int, latest: int) -> (Seq<(int, int)>, int) {
    if from_block > latest {
        (Seq::empty(), from_block)
    } else {
        (chunks(from_block, latest), latest)
    }
}

/// The scan for new pools from `from_block` up to the chain's head, both included.
/// There is nothing to scan where the head is before `from_block`.
pub fn discover_new_pools(from_block: u64, latest: u64) -> (r: ScanPlan)
    requires
        latest <= u64::MAX - LOG_CHUNK_SIZE - 1,
    ensures
        ends_of(r.ranges@) == planned(from_block as int, latest as int).0,
        r.stop == planned(from_block as int, latest as int).1,
{
    if from_block > latest {
        let r = ScanPlan { ranges: Vec::new(), stop: from_block };
        assert(ends_of(r.ranges@) =~= Seq::<(int, int)>::empty());
        r
    } else {
        ScanPlan { ranges: log_chunks(from_block, latest), stop: latest }
    }
}

/// A `PoolCreated` event, with the number of its block.
#[derive(Debug, Clone, Copy, PartialEq, Eq, Structural)]
pub struct PoolCreated {
    pub token0: Address,
    pub token1: Address,
    pub fee: u32,
    pub pool: Address,
    pub block: u64,
}

/// The pool that an event tells of, given the time of its block if that is known.
pub fn created_pool(event: PoolCreated, block_timestamp: Option<u64>) -> (r: PoolInfo)
    ensures
        r == (PoolInfo {
            address: event.pool,
            token0: event.token0,
            token1: event.token1,
            fee: event.fee,
            created_block: event.block,
            created_timestamp: match block_timestamp {
                Some(t) => t,
                None => 0,
            },
        }),
{
    PoolInfo {
        address: event.pool,
        token0: event.token0,
        token1: event.token1,
        fee: event.fee,
        created_block: event.block,
        created_timestamp: match block_timestamp {
            Some(t) => t,
            None => 0,
        },
    }
}

/// A pool that was looked up by its address; when it was created is not known.
pub fn lookup_pool_by_address(
    pool_address: Address,
    token0: Address,
    token1: Address,
    fee: u32,
) -> (r: PoolInfo)
    ensures
        r == (PoolInfo {
            address: pool_address,
            token0,
            token1,
            fee,
            created_block: 0,
            created_timestamp: 0,
        }),
{
    PoolInfo {
        address: pool_address,
        token0,
        token1,
        fee,
        created_block: 0,
        created_timestamp: 0,
    }
}

} // verus!
