//! Receipt validation.
//!
//! [`ReceiptValidator`] runs the protocol-level checks that need no
//! resource-specific state, in this order:
//!
//! 1. the receipt parsed;
//! 2. it is signed by the trusted executor (constant-time key compare);
//! 3. its signature verifies;
//! 4. its action value decodes as the descriptor type;
//! 5. `executed_at` is not in the future and not older than `max_age`;
//! 6. its identifier is consumed atomically in the [`ReplayStore`].
//!
//! It does not compare the descriptor against the resource's state, does
//! not re-verify the delegation chain and does not fulfil the action.

use std::marker::PhantomData;
use std::time::Duration;

use vstd::prelude::*;

use crate::descriptor::{ActionDescriptor, DescriptorError};
use crate::error::SdkError;
use crate::executor_key::ExecutorKey;
use crate::protocol::{PublicKey, PublicKeyModel, Receipt};
use crate::replay::{store_answer, ReplayStore};
use crate::text::{decimal, push_decimal};
use crate::time::{duration_secs, secs_of, Clock, SystemClock};

verus! {

/// The maximum receipt age of a new validator, in seconds.
pub const DEFAULT_MAX_AGE_SECS: u64 = 60;

/// Constant-time comparison of two byte strings: every byte pair is
/// inspected whatever the earlier pairs were.
pub fn pubkey_constant_time_eq(a: &[u8], b: &[u8]) -> (r: bool)
    ensures
        r == (a@ == b@),
{
    if a.len() != b.len() {
        return false;
    }
    let mut diff: u8 = 0;
    let mut i: usize = 0;
    while i < a.len()
        invariant
            i <= a@.len(),
            a@.len() == b@.len(),
            (diff == 0) == (forall|j: int| 0 <= j < i ==> a@[j] == b@[j]),
        decreases a@.len() - i,
    {
        let x = a[i];
        let y = b[i];
        let d = diff;
        assert((d | (x ^ y)) == 0u8 <==> (d == 0u8 && x == y)) by (bit_vector);
        diff = d | (x ^ y);
        i = i + 1;
    }
    proof {
        if diff == 0 {
            assert(a@ =~= b@);
        }
    }
    diff == 0
}

/// The kind of an admission decision for a decoded receipt.
pub enum Admission {
    /// Executed after `now`.
    Future,
    /// Older than the maximum age.
    Stale,
    /// Its identifier was consumed before.
    Replayed,
    /// Fresh and unseen: accepted, and its identifier is now consumed.
    Accepted,
}

/// The admission decision for a receipt with identifier `id`, executed at
/// `executed_at`, checked at `now` against `max_age` seconds, when the
/// identifiers in `consumed` were used before.
pub open spec fn admission(
    consumed: Set<Seq<u8>>,
    id: Seq<u8>,
    executed_at: u64,
    now: u64,
    max_age: u64,
) -> Admission {
    if executed_at > now {
        Admission::Future
    } else if now - executed_at > max_age {
        Admission::Stale
    } else if consumed.contains(id) {
        Admission::Replayed
    } else {
        Admission::Accepted
    }
}

/// Result of a successful validation: the receipt and its typed descriptor.
#[derive(Debug)]
pub struct ValidatedReceipt<D> {
    pub receipt: Receipt,
    pub descriptor: D,
}

/// Why a receipt was refused.
#[derive(Debug)]
pub enum ValidationError {
    /// The receipt JSON did not parse.
    Malformed(String),
    /// The receipt is signed by an executor that is not trusted.
    UntrustedExecutor,
    /// The receipt's signature did not verify.
    InvalidSignature(String),
    /// The action value did not decode as the descriptor type.
    MalformedDescriptor(String),
    /// `executed_at` lies after `now`.
    FutureTimestamp { executed_at: u64, now: u64 },
    /// The receipt is older than the maximum age.
    TooOld { age_seconds: u64, max_age_seconds: u64 },
    /// The receipt was used before.
    Replay,
    /// The replay store failed.
    Storage(String),
}

impl ValidationError {
    /// The error's message.
    pub open spec fn message(&self) -> Seq<char> {
        match self {
            ValidationError::Malformed(m) => "receipt JSON malformed: "@ + m@,
            ValidationError::UntrustedExecutor => "receipt signed by an executor we don't trust"@,
            ValidationError::InvalidSignature(m) => "receipt signature is invalid: "@ + m@,
            ValidationError::MalformedDescriptor(m) => "descriptor decoding failed: "@ + m@,
            ValidationError::FutureTimestamp { executed_at, now } => "receipt executed_at ("@
                + decimal(*executed_at as nat) + ") is after now ("@ + decimal(*now as nat)
                + ")"@,
            ValidationError::TooOld { age_seconds, max_age_seconds } => "receipt too old: "@
                + decimal(*age_seconds as nat) + "s (limit "@ + decimal(*max_age_seconds as nat)
                + "s)"@,
            ValidationError::Replay => "receipt already used (replay attempt)"@,
            ValidationError::Storage(m) => "storage error: "@ + m@,
        }
    }

    /// The error's message, as an owned string.
    pub fn to_message(&self) -> (s: String)
        ensures
            s@ == self.message(),
    {
        match self {
            ValidationError::Malformed(m) => {
                let mut s = String::from_str("receipt JSON malformed: ");
                s.append(m.as_str());
                s
            },
            ValidationError::UntrustedExecutor => String::from_str(
                "receipt signed by an executor we don't trust",
            ),
            ValidationError::InvalidSignature(m) => {
                let mut s = String::from_str("receipt signature is invalid: ");
                s.append(m.as_str());
                s
            },
            ValidationError::MalformedDescriptor(m) => {
                let mut s = String::from_str("descriptor decoding failed: ");
                s.append(m.as_str());
                s
            },
            ValidationError::FutureTimestamp { executed_at, now } => {
                let mut s = String::from_str("receipt executed_at (");
                push_decimal(&mut s, *executed_at);
                s.append(") is after now (");
                push_decimal(&mut s, *now);
                s.append(")");
                s
            },
            ValidationError::TooOld { age_seconds, max_age_seconds } => {
                let mut s = String::from_str("receipt too old: ");
                push_decimal(&mut s, *age_seconds);
                s.append("s (limit ");
                push_decimal(&mut s, *max_age_seconds);
                s.append("s)");
                s
            },
            ValidationError::Replay => String::from_str("receipt already used (replay attempt)"),
            ValidationError::Storage(m) => {
                let mut s = String::from_str("storage error: ");
                s.append(m.as_str());
                s
            },
        }
    }
}

/// Freshness: a receipt executed after `now` is from the future, whatever
/// the maximum age and whatever was consumed; one executed at or before
/// `now` but more than `max_age` seconds earlier is stale; within that
/// window only the consumed identifiers decide, a replay exactly when its
/// identifier was consumed.
pub proof fn admission_by_time(
    consumed: Set<Seq<u8>>,
    id: Seq<u8>,
    executed_at: u64,
    now: u64,
    max_age: u64,
)
    ensures
        executed_at > now ==> admission(consumed, id, executed_at, now, max_age) is Future,
        executed_at <= now && now - executed_at > max_age ==> admission(
            consumed,
            id,
            executed_at,
            now,
            max_age,
        ) is Stale,
        executed_at <= now && now - executed_at <= max_age ==> ((admission(
            consumed,
            id,
            executed_at,
            now,
            max_age,
        ) is Accepted) <==> !consumed.contains(id)) && ((admission(
            consumed,
            id,
            executed_at,
            now,
            max_age,
        ) is Replayed) <==> consumed.contains(id)),
{
}

/// Single use: once a receipt identifier is accepted, and so consumed, no
/// later check accepts it again, whatever its time, the current time or
/// the maximum age; a fresh, unexpired receipt is refused there as a
/// replay.
pub proof fn accepted_identifier_is_never_accepted_again(
    consumed: Set<Seq<u8>>,
    id: Seq<u8>,
    executed_at: u64,
    now: u64,
    max_age: u64,
    later_executed_at: u64,
    later_now: u64,
    later_max_age: u64,
)
    requires
        admission(consumed, id, executed_at, now, max_age) is Accepted,
    ensures
        !(admission(consumed.insert(id), id, later_executed_at, later_now, later_max_age) is Accepted),
        later_executed_at <= later_now && later_now - later_executed_at <= later_max_age ==> admission(
            consumed.insert(id),
            id,
            later_executed_at,
            later_now,
            later_max_age,
        ) is Replayed,
{
}

/// Single use across calls: take a run of validations on one validator,
/// where `consumed[k]` holds the identifiers consumed before call `k` and
/// `accepted[k]` the identifier of the receipt call `k` accepted, if any.
/// As `validate` ensures, each call keeps every identifier consumed before,
/// and a call accepts a receipt only when its identifier was not consumed
/// and consumes it. Then no identifier is accepted by two calls.
pub proof fn no_identifier_is_accepted_twice(
    consumed: Seq<Set<Seq<u8>>>,
    accepted: Seq<Option<Seq<u8>>>,
    i: int,
    j: int,
)
    requires
        consumed.len() == accepted.len() + 1,
        forall|k: int| 0 <= k < accepted.len() ==> #[trigger] consumed[k].subset_of(consumed[k + 1]),
        forall|k: int|
            0 <= k < accepted.len() && #[trigger] accepted[k] is Some ==> !consumed[k].contains(
                accepted[k]->0,
            ) && consumed[k + 1].contains(accepted[k]->0),
        0 <= i < j < accepted.len(),
    ensures
        accepted[i] is Some ==> accepted[j] != accepted[i],
{
    if accepted[i] is Some {
        let id = accepted[i]->0;
        assert(consumed[i + 1].contains(id));
        lemma_consumed_grows(consumed, accepted.len() as int, i + 1, j);
        assert(consumed[j].contains(id));
    }
}

/// Along a run in which each step keeps the identifiers consumed before,
/// the identifiers consumed at step `a` are still consumed at step `b`.
proof fn lemma_consumed_grows(consumed: Seq<Set<Seq<u8>>>, n: int, a: int, b: int)
    requires
        consumed.len() == n + 1,
        forall|k: int| 0 <= k < n ==> #[trigger] consumed[k].subset_of(consumed[k + 1]),
        0 <= a <= b <= n,
    ensures
        consumed[a].subset_of(consumed[b]),
    decreases b - a,
{
    if a < b {
        lemma_consumed_grows(consumed, n, a + 1, b);
        assert(consumed[a].subset_of(consumed[a + 1]));
    }
}

/// Validates incoming receipts against a trusted executor key, a replay
/// store and a clock.
pub struct ReceiptValidator<D, S, C> {
    executor_key: ExecutorKey,
    replay: S,
    clock: C,
    max_age_secs: u64,
    _descriptor: PhantomData<D>,
}

impl<D: ActionDescriptor, S: ReplayStore> ReceiptValidator<D, S, SystemClock> {
    /// A validator that trusts `executor_key`, records identifiers in
    /// `replay`, reads the system clock and accepts receipts up to 60
    /// seconds old.
    pub fn new(executor_key: ExecutorKey, replay: S) -> (v: Self)
        ensures
            v.executor_key() == executor_key,
            v.replay() == replay,
            v.max_age_secs() == DEFAULT_MAX_AGE_SECS,
    {
        ReceiptValidator {
            executor_key,
            replay,
            clock: SystemClock,
            max_age_secs: DEFAULT_MAX_AGE_SECS,
            _descriptor: PhantomData,
        }
    }
}

impl<D: ActionDescriptor, S: ReplayStore, C: Clock> ReceiptValidator<D, S, C> {
    /// The trusted executor key.
    pub closed spec fn executor_key(&self) -> ExecutorKey {
        self.executor_key
    }

    /// The replay store.
    pub closed spec fn replay(&self) -> S {
        self.replay
    }

    /// The clock.
    pub closed spec fn clock(&self) -> C {
        self.clock
    }

    /// The maximum receipt age, in seconds.
    pub closed spec fn max_age_secs(&self) -> u64 {
        self.max_age_secs
    }

    /// Replaces the maximum receipt age by `max_age`, in whole seconds.
    pub fn with_max_age(self, max_age: Duration) -> (v: Self)
        ensures
            v.max_age_secs() == duration_secs(max_age),
            v.executor_key() == self.executor_key(),
            v.replay() == self.replay(),
            v.clock() == self.clock(),
    {
        let max_age_secs = secs_of(max_age);
        ReceiptValidator { max_age_secs, ..self }
    }

    /// Replaces the clock.
    pub fn with_clock<C2: Clock>(self, clock: C2) -> (v: ReceiptValidator<D, S, C2>)
        ensures
            v.clock() == clock,
            v.max_age_secs() == self.max_age_secs(),
            v.executor_key() == self.executor_key(),
            v.replay() == self.replay(),
    {
        ReceiptValidator {
            executor_key: self.executor_key,
            replay: self.replay,
            clock,
            max_age_secs: self.max_age_secs,
            _descriptor: PhantomData,
        }
    }

    /// Whether `executor` is the trusted executor key: same key bytes
    /// (compared in constant time) and same algorithm.
    pub fn trusts(&self, executor: &PublicKey) -> (b: bool)
        ensures
            b == (executor@ == self.executor_key().key@),
    {
        let same_key = pubkey_constant_time_eq(
            executor.key_data.as_slice(),
            self.executor_key.key.key_data.as_slice(),
        );
        same_key && executor.algorithm == self.executor_key.key.algorithm
    }

    /// Whether `r` and the validator `after` are what checks 4 to 6 give
    /// for the validator `before`, the receipt `receipt`, the outcome
    /// `descriptor` of decoding its action value, and the time `now`:
    ///
    /// - a decoding error is refused as a malformed descriptor;
    /// - a receipt executed after `now` or older than the maximum age is
    ///   refused with its times;
    /// - otherwise the replay store is asked to consume the identifier, and
    ///   its answer decides (see [`replay_outcome`]).
    ///
    /// The trusted key, the clock and the maximum age are kept; only the
    /// replay store's answer changes the store, and a store that never
    /// fails answers and still never fails.
    pub open spec fn decoded_outcome(
        before: Self,
        after: Self,
        receipt: Receipt,
        descriptor: Result<D, DescriptorError>,
        now: u64,
        r: Result<ValidatedReceipt<D>, ValidationError>,
    ) -> bool {
        &&& after.executor_key() == before.executor_key()
        &&& after.clock() == before.clock()
        &&& after.max_age_secs() == before.max_age_secs()
        &&& match descriptor {
            Err(e) => (r matches Err(ValidationError::MalformedDescriptor(m)) && m@ == e.message())
                && after == before,
            Ok(d) => match admission(
                before.replay().consumed(),
                receipt.id.0@,
                receipt.executed_at,
                now,
                before.max_age_secs(),
            ) {
                Admission::Future => r == Err::<ValidatedReceipt<D>, ValidationError>(
                    ValidationError::FutureTimestamp { executed_at: receipt.executed_at, now },
                ) && after == before,
                Admission::Stale => r == Err::<ValidatedReceipt<D>, ValidationError>(
                    ValidationError::TooOld {
                        age_seconds: (now - receipt.executed_at) as u64,
                        max_age_seconds: before.max_age_secs(),
                    },
                ) && after == before,
                _ => exists|answer: Result<bool, SdkError>|
                    #[trigger] store_answer(
                        before.replay().consumed(),
                        after.replay().consumed(),
                        receipt.id.0@,
                        answer,
                    ) && (before.replay().never_fails() ==> answer is Ok
                        && after.replay().never_fails()) && replay_outcome_holds(
                        receipt,
                        d,
                        answer,
                        r,
                    ),
            },
        }
    }

    /// Checks 4 to 6 for a receipt whose executor and signature were
    /// accepted, given the outcome of decoding its action value and the
    /// current time `now`.
    pub fn check_decoded(
        &mut self,
        receipt: Receipt,
        descriptor: Result<D, DescriptorError>,
        now: u64,
    ) -> (r: Result<ValidatedReceipt<D>, ValidationError>)
        ensures
            Self::decoded_outcome(*old(self), *final(self), receipt, descriptor, now, r),
    {
        let d = match descriptor {
            Ok(d) => d,
            Err(e) => {
                return Err(ValidationError::MalformedDescriptor(e.to_message()));
            },
        };
        let executed_at = receipt.executed_at;
        if executed_at > now {
            return Err(ValidationError::FutureTimestamp { executed_at, now });
        }
        let age = now - executed_at;
        if age > self.max_age_secs {
            return Err(ValidationError::TooOld { age_seconds: age, max_age_seconds: self.max_age_secs });
        }
        let ghost rc = receipt;
        let ghost dg = d;
        let answer = self.replay.try_consume(receipt.id.0.as_slice());
        let r = replay_outcome(receipt, d, answer);
        proof {
            assert(store_answer(old(self).replay().consumed(), self.replay().consumed(), rc.id.0@, answer));
            assert(old(self).replay().never_fails() ==> answer is Ok && self.replay().never_fails());
            assert(replay_outcome_holds(rc, dg, answer, r));
        }
        r
    }

    /// Runs the whole pipeline on `receipt`, the outcome of parsing the
    /// receipt bytes, and `signature`, the outcome of verifying the
    /// receipt's signature. Once checks 1 to 3 pass, decodes the receipt's
    /// action value as `D`, reads the clock once, and goes on as
    /// [`ReceiptValidator::check_decoded`] does with that outcome and time.
    ///
    /// Whatever happens, the trusted key, the clock and the maximum age are
    /// kept, and every identifier consumed before stays consumed.
    pub fn validate(
        &mut self,
        receipt: Result<Receipt, String>,
        signature: Result<(), String>,
    ) -> (r: Result<ValidatedReceipt<D>, ValidationError>)
        ensures
            final(self).executor_key() == old(self).executor_key(),
            final(self).clock() == old(self).clock(),
            final(self).max_age_secs() == old(self).max_age_secs(),
            old(self).replay().consumed().subset_of(final(self).replay().consumed()),
            old(self).replay().never_fails() ==> final(self).replay().never_fails(),
            r matches Ok(v) ==> !old(self).replay().consumed().contains(v.receipt.id.0@)
                && final(self).replay().consumed().contains(v.receipt.id.0@),
            match receipt {
                Err(m) => r == Err::<ValidatedReceipt<D>, ValidationError>(
                    ValidationError::Malformed(m),
                ) && *final(self) == *old(self),
                Ok(rc) => if rc.executor@ != old(self).executor_key().key@ {
                    r == Err::<ValidatedReceipt<D>, ValidationError>(
                        ValidationError::UntrustedExecutor,
                    ) && *final(self) == *old(self)
                } else if signature is Err {
                    r == Err::<ValidatedReceipt<D>, ValidationError>(
                        ValidationError::InvalidSignature(signature->Err_0),
                    ) && *final(self) == *old(self)
                } else {
                    exists|value: &[u8], decoded: Result<D, DescriptorError>, now: u64|
                        #![trigger call_ensures(D::from_action_value, (value,), decoded), call_ensures(C::now, (&old(self).clock(),), now)]
                        value@ == rc.action.value@
                        && call_ensures(D::from_action_value, (value,), decoded)
                        && call_ensures(C::now, (&old(self).clock(),), now)
                        && Self::decoded_outcome(*old(self), *final(self), rc, decoded, now, r)
                },
            },
    {
        let receipt = match receipt {
            Ok(rc) => rc,
            Err(m) => {
                return Err(ValidationError::Malformed(m));
            },
        };
        if !self.trusts(&receipt.executor) {
            return Err(ValidationError::UntrustedExecutor);
        }
        if let Err(m) = signature {
            return Err(ValidationError::InvalidSignature(m));
        }
        let value = receipt.action.value.as_slice();
        let descriptor = D::from_action_value(value);
        proof {
            assert(call_ensures(D::from_action_value, (value,), descriptor));
        }
        let now = self.clock.now();
        proof {
            assert(call_ensures(C::now, (&self.clock(),), now));
        }
        let ghost rc = receipt;
        let r = self.check_decoded(receipt, descriptor, now);
        proof {
            assert(Self::decoded_outcome(*old(self), *self, rc, descriptor, now, r));
        }
        r
    }
}

/// Whether `r` is the outcome for a receipt that passed every check before
/// the replay store, with descriptor `d`, when the store answered `answer`
/// to consuming its identifier: accepted when it was newly consumed, a
/// replay when it was consumed before, a storage error carrying the
/// store's message when the store failed.
pub open spec fn replay_outcome_holds<D>(
    receipt: Receipt,
    d: D,
    answer: Result<bool, SdkError>,
    r: Result<ValidatedReceipt<D>, ValidationError>,
) -> bool {
    match answer {
        Ok(true) => r == Ok::<ValidatedReceipt<D>, ValidationError>(
            ValidatedReceipt { receipt, descriptor: d },
        ),
        Ok(false) => r == Err::<ValidatedReceipt<D>, ValidationError>(ValidationError::Replay),
        Err(e) => r matches Err(ValidationError::Storage(m)) && m@ == e.message(),
    }
}

/// Check 6 once the replay store answered `answer` to consuming the
/// receipt's identifier.
pub fn replay_outcome<D>(receipt: Receipt, descriptor: D, answer: Result<bool, SdkError>) -> (r:
    Result<ValidatedReceipt<D>, ValidationError>)
    ensures
        replay_outcome_holds(receipt, descriptor, answer, r),
{
    match answer {
        Ok(true) => Ok(ValidatedReceipt { receipt, descriptor }),
        Ok(false) => Err(ValidationError::Replay),
        Err(e) => Err(ValidationError::Storage(e.to_message())),
    }
}

/// Time refusals of a decoded receipt: one executed after `now` is refused
/// with `FutureTimestamp` carrying its time and `now`, for every maximum
/// age; one executed more than the maximum age before `now` is refused with
/// `TooOld` carrying its age and the limit. Neither touches the validator,
/// so its identifier is not consumed.
pub proof fn time_refusals<D: ActionDescriptor, S: ReplayStore, C: Clock>(
    before: ReceiptValidator<D, S, C>,
    after: ReceiptValidator<D, S, C>,
    receipt: Receipt,
    d: D,
    now: u64,
    r: Result<ValidatedReceipt<D>, ValidationError>,
)
    requires
        ReceiptValidator::<D, S, C>::decoded_outcome(before, after, receipt, Ok(d), now, r),
    ensures
        receipt.executed_at > now ==> r == Err::<ValidatedReceipt<D>, ValidationError>(
            ValidationError::FutureTimestamp { executed_at: receipt.executed_at, now },
        ) && after == before,
        receipt.executed_at <= now && now - receipt.executed_at > before.max_age_secs() ==> r
            == Err::<ValidatedReceipt<D>, ValidationError>(
            ValidationError::TooOld {
                age_seconds: (now - receipt.executed_at) as u64,
                max_age_seconds: before.max_age_secs(),
            },
        ) && after == before,
        r is Ok ==> receipt.executed_at <= now && now - receipt.executed_at
            <= before.max_age_secs(),
{
    admission_by_time(
        before.replay().consumed(),
        receipt.id.0@,
        receipt.executed_at,
        now,
        before.max_age_secs(),
    );
}

} // verus!
