//! Replay protection.
//!
//! [`ReplayStore`] is the contract a resource implements with its own
//! storage (anything with atomic insert-if-absent semantics);
//! [`MemoryReplayStore`] keeps the consumed identifiers in memory.

use vstd::prelude::*;

use crate::error::SdkError;
use crate::text::copy_bytes;
use crate::validator::pubkey_constant_time_eq;

verus! {

/// What a replay store may answer to consuming `id` when the identifiers
/// `before` were consumed, leaving `after` consumed: `Ok(fresh)` with
/// `fresh` exactly when `id` was not consumed, and `id` added; or a
/// storage error that forgets nothing.
pub open spec fn store_answer(
    before: Set<Seq<u8>>,
    after: Set<Seq<u8>>,
    id: Seq<u8>,
    answer: Result<bool, SdkError>,
) -> bool {
    match answer {
        Ok(fresh) => fresh == !before.contains(id) && after == before.insert(id),
        Err(_) => before.subset_of(after),
    }
}

/// Storage for the set of receipt identifiers already processed.
///
/// Atomicity: of two uses of the same identifier, exactly one is newly
/// consumed, so exactly one is answered `Ok(true)`.
pub trait ReplayStore {
    /// The identifiers consumed so far.
    spec fn consumed(&self) -> Set<Seq<u8>>;

    /// Whether the store's storage cannot fail (an in-memory store), so
    /// that every consumption is answered.
    spec fn never_fails(&self) -> bool;

    /// Marks `receipt_id` as consumed: `Ok(true)` when it was not consumed
    /// before (first sighting), `Ok(false)` when it was (a replay), an error
    /// when the storage fails, which a store that never fails does not. An
    /// identifier once consumed stays consumed, whatever the answer.
    fn try_consume(&mut self, receipt_id: &[u8]) -> (r: Result<bool, SdkError>)
        ensures
            store_answer(old(self).consumed(), final(self).consumed(), receipt_id@, r),
            old(self).never_fails() ==> r is Ok && final(self).never_fails(),
    ;
}

/// Single use: once an identifier is consumed (from the identifiers
/// `consumed`), a later consumption of it is reported as a replay, not
/// fresh, and changes nothing.
pub proof fn consumption_is_single_use(consumed: Set<Seq<u8>>, id: Seq<u8>)
    ensures
        consumed.insert(id).contains(id),
        consumed.insert(id).insert(id) == consumed.insert(id),
{
    assert(consumed.insert(id).insert(id) =~= consumed.insert(id));
}

/// In-memory replay store.
#[derive(Debug)]
pub struct MemoryReplayStore {
    seen: Vec<Vec<u8>>,
}

impl MemoryReplayStore {
    /// No identifier occurs twice.
    #[verifier::type_invariant]
    spec fn distinct(&self) -> bool {
        forall|i: int, j: int|
            0 <= i < j < self.seen@.len() ==> #[trigger] self.seen@[i]@ != #[trigger] self.seen@[j]@
    }

    /// An empty store.
    pub fn new() -> (s: Self)
        ensures
            s.consumed() == Set::<Seq<u8>>::empty(),
    {
        let s = MemoryReplayStore { seen: Vec::new() };
        proof {
            assert(s.consumed() =~= Set::<Seq<u8>>::empty());
        }
        s
    }

    /// The number of identifiers consumed so far.
    pub fn len(&self) -> (n: usize)
        ensures
            n == self.consumed().len(),
    {
        proof {
            use_type_invariant(self);
            self.lemma_len();
        }
        self.seen.len()
    }

    proof fn lemma_len(&self)
        requires
            self.distinct(),
        ensures
            self.consumed().len() == self.seen@.len(),
            self.consumed().finite(),
    {
        let s = self.seen@.map_values(|v: Vec<u8>| v@);
        assert(s.no_duplicates()) by {
            assert forall|i: int, j: int| 0 <= i < s.len() && 0 <= j < s.len() && i != j implies s[i]
                != s[j] by {
                if i < j {
                    assert(self.seen@[i]@ != self.seen@[j]@);
                } else {
                    assert(self.seen@[j]@ != self.seen@[i]@);
                }
            }
        }
        s.unique_seq_to_set();
    }

    /// Whether `id` was consumed.
    fn contains(&self, id: &[u8]) -> (b: bool)
        ensures
            b == self.consumed().contains(id@),
    {
        let mut k: usize = 0;
        while k < self.seen.len()
            invariant
                k <= self.seen@.len(),
                forall|i: int| 0 <= i < k ==> #[trigger] self.seen@[i]@ != id@,
            decreases self.seen@.len() - k,
        {
            if pubkey_constant_time_eq(self.seen[k].as_slice(), id) {
                proof {
                    assert(self.seen@.map_values(|v: Vec<u8>| v@)[k as int] == id@);
                }
                return true;
            }
            k = k + 1;
        }
        proof {
            if self.consumed().contains(id@) {
                let s = self.seen@.map_values(|v: Vec<u8>| v@);
                let i = choose|i: int| 0 <= i < s.len() && s[i] == id@;
                assert(self.seen@[i]@ == id@);
            }
        }
        false
    }
}

impl View for MemoryReplayStore {
    type V = Set<Seq<u8>>;

    closed spec fn view(&self) -> Set<Seq<u8>> {
        self.seen@.map_values(|v: Vec<u8>| v@).to_set()
    }
}

impl ReplayStore for MemoryReplayStore {
    closed spec fn consumed(&self) -> Set<Seq<u8>> {
        self@
    }

    /// Memory does not fail.
    open spec fn never_fails(&self) -> bool {
        true
    }

    /// Never fails.
    fn try_consume(&mut self, receipt_id: &[u8]) -> (r: Result<bool, SdkError>)
        ensures
            r is Ok,
    {
        proof {
            use_type_invariant(&*self);
        }
        if self.contains(receipt_id) {
            proof {
                assert(self.consumed().insert(receipt_id@) =~= self.consumed());
            }
            return Ok(false);
        }
        let id: Vec<u8> = copy_bytes(receipt_id);
        let mut seen: Vec<Vec<u8>> = Vec::new();
        std::mem::swap(&mut seen, &mut self.seen);
        let ghost before = seen@;
        seen.push(id);
        proof {
            let s0 = before.map_values(|v: Vec<u8>| v@);
            let s1 = seen@.map_values(|v: Vec<u8>| v@);
            assert(s1 =~= s0.push(receipt_id@));
            s0.lemma_push_to_set_commute(receipt_id@);
            assert forall|i: int, j: int| 0 <= i < j < seen@.len() implies #[trigger] seen@[i]@
                != #[trigger] seen@[j]@ by {
                if j == before.len() {
                    assert(s0[i] == before[i]@);
                    assert(s0.contains(before[i]@));
                    assert(s0.to_set().contains(before[i]@));
                } else {
                    assert(before[i]@ != before[j]@);
                }
            }
        }
        self.seen = seen;
        Ok(true)
    }
}

} // verus!
