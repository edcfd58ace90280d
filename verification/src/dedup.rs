//! The deduplication filter: a probabilistic set of transaction ids that
//! gates deposit and withdrawal rows before they reach the partitioner.
//!
//! A row whose id the filter reports as present is dropped as a likely
//! duplicate; otherwise the id is recorded and the row forwarded. The
//! filter may report a novel id as present (a false positive, at a rate
//! bounded by its sizing) and then a legitimate row is silently dropped —
//! an accepted trade-off for bounded memory. It never reports an id it
//! has recorded as absent: no false negatives.

use vstd::prelude::*;

use bloomfilter::Bloom;

use crate::transactions::TransactionRow;
use crate::transactions::TxKind;

verus! {

#[verifier::external_type_specification]
#[verifier::external_body]
#[verifier::reject_recursive_types(T)]
pub struct ExBloom<T: ?Sized>(Bloom<T>);

/// The ids a filter reports as present: the set of ids whose probe bits
/// are all set in the filter's bitmap. Recording an id can only grow
/// this set, and can grow it by more than the id recorded — that surplus
/// is exactly the filter's false positives.
pub uninterp spec fn bloom_contents(b: Bloom<u32>) -> Set<u32>;

/// Relies on bloomfilter::Bloom::new: a fresh filter allocates a zeroed
/// bitmap and at least one hash function, so it reports every id absent.
/// Fails only when the process's randomness source fails; panics on a
/// zero size or on a bitmap beyond the bit-count range, which the
/// preconditions exclude.
#[verifier::external_body]
fn bloom_new(bitmap_size: usize, items_count: usize) -> (r: Result<Bloom<u32>, &'static str>)
    requires
        1 <= bitmap_size,
        1 <= items_count,
        8 * bitmap_size <= u64::MAX,
    ensures
        r is Ok ==> bloom_contents(r->Ok_0) == Set::<u32>::empty(),
{
    Bloom::new(bitmap_size, items_count)
}

/// Relies on bloomfilter::Bloom::check_and_set: returns whether every
/// probe bit of the id was already set, then sets them all. Bits are only
/// ever set, never cleared, so the set of ids reported present grows and
/// afterwards contains this id.
#[verifier::external_body]
fn bloom_check_and_set(b: &mut Bloom<u32>, item: &u32) -> (present: bool)
    ensures
        present == bloom_contents(*old(b)).contains(*item),
        bloom_contents(*final(b)).contains(*item),
        bloom_contents(*old(b)).subset_of(bloom_contents(*final(b))),
{
    b.check_and_set(item)
}

/// Filter sizing: bytes of bitmap per expected id. Twenty-four bits per
/// id targets a false-positive rate of about one in a hundred thousand.
pub const DEDUP_BYTES_PER_ID: usize = 3;

/// The process-wide deduplication filter, fed by the single dispatching
/// thread before rows are routed to workers.
pub struct DedupFilter {
    bloom: Bloom<u32>,
}

impl DedupFilter {
    /// The transaction ids this filter currently reports as present.
    pub closed spec fn seen(&self) -> Set<u32> {
        bloom_contents(self.bloom)
    }

    /// A filter sized for `expected_items` deposit and withdrawal rows,
    /// reporting nothing present yet. Returns nothing only when the
    /// process's randomness source fails.
    pub fn new(expected_items: usize) -> (r: Option<DedupFilter>)
        requires
            1 <= expected_items,
            24 * expected_items <= u64::MAX,
            DEDUP_BYTES_PER_ID * expected_items <= usize::MAX,
        ensures
            match r {
                Some(f) => f.seen() == Set::<u32>::empty(),
                None => true,
            },
    {
        let bitmap_size = expected_items * DEDUP_BYTES_PER_ID;
        match bloom_new(bitmap_size, expected_items) {
            Ok(bloom) => Some(DedupFilter { bloom }),
            Err(_) => None,
        }
    }

    /// Gates one input row: forwards every dispute-family row untouched,
    /// and forwards a deposit or withdrawal row exactly when its id was
    /// not already reported present — recording the id either way, so the
    /// id is reported present from now on (no false negatives).
    pub fn should_forward(&mut self, row: &TransactionRow) -> (forward: bool)
        ensures
            old(self).seen().subset_of(final(self).seen()),
            !(row.tx_type == TxKind::Deposit || row.tx_type == TxKind::Withdrawal) ==> forward
                && final(self).seen() == old(self).seen(),
            (row.tx_type == TxKind::Deposit || row.tx_type == TxKind::Withdrawal) ==> (forward
                == !old(self).seen().contains(row.tx)) && final(self).seen().contains(row.tx),
    {
        if row.should_dedupe() {
            let present = bloom_check_and_set(&mut self.bloom, &row.tx);
            !present
        } else {
            true
        }
    }
}

} // verus!
