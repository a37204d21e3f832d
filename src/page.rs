use vstd::prelude::*;
use crate::address::Address;
use crate::error::IndexError;

verus! {

/// How many record references one index page can hold.
pub const PAGE_CAPACITY: usize = 100;

/// A cache record supplied as the neighbor of an insertion point: its slot
/// address and its timestamp.
#[derive(Clone, Copy, Debug, PartialEq, Eq)]
pub struct Neighbor {
    pub key: Address,
    pub timestamp: i64,
}

/// The page's references are ordered newest first under `stamp`, which gives
/// each record address its timestamp.
pub open spec fn sorted_desc(caches: Seq<Address>, stamp: spec_fn(Seq<u8>) -> int) -> bool {
    forall|i: int, j: int|
        0 <= i < j < caches.len() ==> #[trigger] stamp(caches[i]@) >= #[trigger] stamp(caches[j]@)
}

/// A supplied neighbor carries the timestamp that `stamp` records for it.
pub open spec fn stamped(n: Option<Neighbor>, stamp: spec_fn(Seq<u8>) -> int) -> bool {
    n matches Some(m) ==> stamp(m.key@) == m.timestamp as int
}

/// The outcome of inserting `key` (with timestamp `ts`) at `offset` into the
/// sequence `caches`, checked against the record after the offset (`above`)
/// and the record before it (`below`); the first failed check decides the
/// error.
pub open spec fn insert_outcome(
    caches: Seq<Address>,
    offset: int,
    key: Address,
    ts: int,
    above: Option<Neighbor>,
    below: Option<Neighbor>,
) -> Result<Seq<Address>, IndexError> {
    if offset < 0 || offset > caches.len() {
        Err(IndexError::InvalidOffset)
    } else if offset < caches.len() && above is None {
        Err(IndexError::MissingAboveNeighbor)
    } else if offset < caches.len() && above.unwrap().key@ != caches[offset]@ {
        Err(IndexError::NeighborMismatch)
    } else if offset < caches.len() && above.unwrap().timestamp > ts {
        Err(IndexError::AboveIsNewer)
    } else if offset > 0 && below is None {
        Err(IndexError::MissingBelowNeighbor)
    } else if offset > 0 && below.unwrap().key@ != caches[offset - 1]@ {
        Err(IndexError::NeighborMismatch)
    } else if offset > 0 && below.unwrap().timestamp < ts {
        Err(IndexError::BelowIsOlder)
    } else if caches.len() + 1 > PAGE_CAPACITY {
        Err(IndexError::PageFull)
    } else {
        Ok(caches.insert(offset, key))
    }
}

/// The contents of a result that holds a vector.
pub open spec fn result_view(r: Result<Vec<Address>, IndexError>) -> Result<Seq<Address>, IndexError> {
    match r {
        Ok(v) => Ok(v@),
        Err(e) => Err(e),
    }
}

/// Checks the insertion point against its neighbors and builds the new
/// sequence of references, leaving `caches` itself untouched.
pub fn insert_at(
    caches: &Vec<Address>,
    offset: u64,
    key: Address,
    timestamp: i64,
    above: Option<Neighbor>,
    below: Option<Neighbor>,
) -> (r: Result<Vec<Address>, IndexError>)
    ensures
        result_view(r) == insert_outcome(caches@, offset as int, key, timestamp as int, above, below),
{
    let len = caches.len();
    if offset > len as u64 {
        return Err(IndexError::InvalidOffset);
    }
    let off = offset as usize;
    if off < len {
        match above {
            None => {
                return Err(IndexError::MissingAboveNeighbor);
            },
            Some(a) => {
                if !a.key.same_as(&caches[off]) {
                    return Err(IndexError::NeighborMismatch);
                }
                if a.timestamp > timestamp {
                    return Err(IndexError::AboveIsNewer);
                }
            },
        }
    }
    if off > 0 {
        match below {
            None => {
                return Err(IndexError::MissingBelowNeighbor);
            },
            Some(b) => {
                if !b.key.same_as(&caches[off - 1]) {
                    return Err(IndexError::NeighborMismatch);
                }
                if b.timestamp < timestamp {
                    return Err(IndexError::BelowIsOlder);
                }
            },
        }
    }
    if len >= PAGE_CAPACITY {
        return Err(IndexError::PageFull);
    }
    let mut out: Vec<Address> = Vec::new();
    let mut n: usize = 0;
    while n < off
        invariant
            off <= len == caches@.len(),
            n <= off,
            out@ == caches@.subrange(0, n as int),
        decreases off - n,
    {
        out.push(caches[n]);
        n = n + 1;
        assert(out@ =~= caches@.subrange(0, n as int));
    }
    out.push(key);
    let ghost front = out@;
    while n < len
        invariant
            off <= n <= len == caches@.len(),
            front == caches@.subrange(0, off as int).push(key),
            out@ == front + caches@.subrange(off as int, n as int),
        decreases len - n,
    {
        out.push(caches[n]);
        n = n + 1;
        assert(out@ =~= front + caches@.subrange(off as int, n as int));
    }
    assert(out@ =~= caches@.insert(off as int, key));
    Ok(out)
}

/// An insert that passes every check keeps a page that was ordered newest
/// first ordered, and makes it one reference longer.
pub proof fn lemma_insert_keeps_order(
    caches: Seq<Address>,
    offset: int,
    key: Address,
    ts: int,
    above: Option<Neighbor>,
    below: Option<Neighbor>,
    stamp: spec_fn(Seq<u8>) -> int,
)
    requires
        sorted_desc(caches, stamp),
        stamp(key@) == ts,
        stamped(above, stamp),
        stamped(below, stamp),
        insert_outcome(caches, offset, key, ts, above, below) is Ok,
    ensures
        sorted_desc(insert_outcome(caches, offset, key, ts, above, below)->Ok_0, stamp),
        insert_outcome(caches, offset, key, ts, above, below)->Ok_0.len() == caches.len() + 1,
{
    let out = caches.insert(offset, key);
    assert forall|i: int, j: int| 0 <= i < j < out.len() implies #[trigger] stamp(out[i]@) >= #[trigger] stamp(
        out[j]@,
    ) by {
        if j < offset {
            assert(out[i] == caches[i] && out[j] == caches[j]);
        } else if j == offset {
            assert(stamp(caches[i]@) >= stamp(caches[offset - 1]@) || i == offset - 1);
        } else if i > offset {
            assert(out[i] == caches[i - 1] && out[j] == caches[j - 1]);
        } else if i == offset {
            assert(out[j] == caches[j - 1]);
            assert(stamp(caches[offset]@) >= stamp(caches[j - 1]@) || j - 1 == offset);
        } else {
            assert(out[i] == caches[i] && out[j] == caches[j - 1]);
        }
    }
}

/// At offset zero of a non-empty page no record before the offset is
/// consulted, and the first reference must be supplied as the record after it.
pub proof fn lemma_front_offset(
    caches: Seq<Address>,
    key: Address,
    ts: int,
    above: Option<Neighbor>,
    below: Option<Neighbor>,
)
    requires
        caches.len() > 0,
    ensures
        insert_outcome(caches, 0, key, ts, above, below) == insert_outcome(caches, 0, key, ts, above, None),
        above is None ==> insert_outcome(caches, 0, key, ts, above, below) == Err::<Seq<Address>, IndexError>(
            IndexError::MissingAboveNeighbor,
        ),
        above matches Some(a) && a.key@ != caches[0]@ ==> insert_outcome(caches, 0, key, ts, above, below)
            == Err::<Seq<Address>, IndexError>(IndexError::NeighborMismatch),
{
}

/// At the end of a page no record after the offset is consulted, and a
/// non-empty page's last reference must be supplied as the record before it.
pub proof fn lemma_back_offset(
    caches: Seq<Address>,
    key: Address,
    ts: int,
    above: Option<Neighbor>,
    below: Option<Neighbor>,
)
    ensures
        insert_outcome(caches, caches.len() as int, key, ts, above, below) == insert_outcome(
            caches,
            caches.len() as int,
            key,
            ts,
            None,
            below,
        ),
        caches.len() > 0 && below is None ==> insert_outcome(caches, caches.len() as int, key, ts, above, below)
            == Err::<Seq<Address>, IndexError>(IndexError::MissingBelowNeighbor),
        caches.len() > 0 && (below matches Some(b) && b.key@ != caches.last()@) ==> insert_outcome(
            caches,
            caches.len() as int,
            key,
            ts,
            above,
            below,
        ) == Err::<Seq<Address>, IndexError>(IndexError::NeighborMismatch),
{
}

/// The record after the offset passes its checks: there is none, or it is
/// supplied, is the stored one, and is not newer than the inserted record.
pub open spec fn above_passes(caches: Seq<Address>, offset: int, ts: int, above: Option<Neighbor>) -> bool {
    offset == caches.len() || (above matches Some(a) && a.key@ == caches[offset]@ && a.timestamp <= ts)
}

/// A neighbor whose address is not the one stored next to the offset is
/// refused as a mismatch, whatever its timestamp. For the record before the
/// offset this holds once the record after it has passed, as that one is
/// checked first.
pub proof fn lemma_neighbor_mismatch(
    caches: Seq<Address>,
    offset: int,
    key: Address,
    ts: int,
    above: Option<Neighbor>,
    below: Option<Neighbor>,
)
    requires
        0 <= offset <= caches.len(),
    ensures
        offset < caches.len() && (above matches Some(a) && a.key@ != caches[offset]@) ==> insert_outcome(
            caches,
            offset,
            key,
            ts,
            above,
            below,
        ) == Err::<Seq<Address>, IndexError>(IndexError::NeighborMismatch),
        offset > 0 && above_passes(caches, offset, ts, above) && (below matches Some(b) && b.key@ != caches[offset
            - 1]@) ==> insert_outcome(caches, offset, key, ts, above, below) == Err::<Seq<Address>, IndexError>(
            IndexError::NeighborMismatch,
        ),
{
}

/// A record newer than the stored record after the offset is refused, and so
/// is one older than the stored record before the offset (once the record
/// after it has passed).
pub proof fn lemma_order_violation(
    caches: Seq<Address>,
    offset: int,
    key: Address,
    ts: int,
    above: Option<Neighbor>,
    below: Option<Neighbor>,
)
    requires
        0 <= offset <= caches.len(),
    ensures
        offset < caches.len() && (above matches Some(a) && a.key@ == caches[offset]@ && a.timestamp > ts)
            ==> insert_outcome(caches, offset, key, ts, above, below) == Err::<Seq<Address>, IndexError>(
            IndexError::AboveIsNewer,
        ),
        offset > 0 && above_passes(caches, offset, ts, above) && (below matches Some(b) && b.key@ == caches[offset
            - 1]@ && b.timestamp < ts) ==> insert_outcome(caches, offset, key, ts, above, below) == Err::<
            Seq<Address>,
            IndexError,
        >(IndexError::BelowIsOlder),
{
}

} // verus!
