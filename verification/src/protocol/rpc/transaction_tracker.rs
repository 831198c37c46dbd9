//! Transaction tracking for RPC idempotency as described in RFC 5531 (previously RFC 1057).
//!
//! The tracker records, per transaction ID (XID) and client address, whether a
//! request is still being processed or has completed with a cached reply. It
//! gives NFS its at-most-once semantics: a retransmitted request is either
//! reported as still in progress or answered with the cached reply, and a
//! completed record is kept for a retention period measured from the last time
//! it was used.
//!
//! The state is modelled as a map from `(xid, client address)` to a
//! [`TransactionModel`]. Every operation that reads the clock has a companion
//! (`*_at`) that takes the time as an argument and has an exact contract over
//! that map.

use std::sync::Arc;
use std::time::Duration;
use vstd::prelude::*;

verus! {

/// A reading of the system clock, relative to the Unix epoch.
#[derive(Clone, Copy, Debug)]
pub enum Timestamp {
    /// This many nanoseconds at or after the epoch.
    SinceEpoch(u128),
    /// This many nanoseconds before the epoch.
    BeforeEpoch(u128),
}

impl Timestamp {
    /// The signed number of nanoseconds from the epoch.
    pub open spec fn nanos(self) -> int {
        match self {
            Timestamp::SinceEpoch(n) => n as int,
            Timestamp::BeforeEpoch(n) => -(n as int),
        }
    }
}

/// The key under which a transaction is tracked: its XID and the client address.
pub type TransactionKey = (u32, Seq<char>);

/// The abstract state of one tracked transaction.
pub enum TransactionModel {
    /// The request is being processed.
    InProgress,
    /// The request completed with `response`; the record was last used at
    /// `completion_time` (nanoseconds from the epoch).
    Completed { completion_time: int, response: Seq<u8> },
}

/// The abstract answer of a [`TransactionTracker::check`].
pub enum StatusModel {
    New,
    InProgress,
    Completed(Seq<u8>),
}

/// Status of a tracked transaction.
#[derive(Debug)]
pub enum TransactionStatus {
    /// First time seeing this transaction; it is now marked in-progress.
    New,
    /// A request with the same XID is already in progress.
    InProgress,
    /// A completed request with a cached response.
    Completed(Arc<Vec<u8>>),
}

impl View for TransactionStatus {
    type V = StatusModel;

    open spec fn view(&self) -> StatusModel {
        match self {
            TransactionStatus::New => StatusModel::New,
            TransactionStatus::InProgress => StatusModel::InProgress,
            TransactionStatus::Completed(r) => StatusModel::Completed(r@),
        }
    }
}

/// Whether a record in `state` survives housekeeping with the given cutoff:
/// in-progress records always do, completed ones when they were last used at
/// or after the cutoff.
pub open spec fn retained(state: TransactionModel, cutoff: int) -> bool {
    match state {
        TransactionModel::InProgress => true,
        TransactionModel::Completed { completion_time, .. } => completion_time >= cutoff,
    }
}

/// The records of `m` that survive housekeeping with the given cutoff.
pub open spec fn housekept(m: Map<TransactionKey, TransactionModel>, cutoff: int) -> Map<
    TransactionKey,
    TransactionModel,
> {
    Map::new(|k: TransactionKey| m.contains_key(k) && retained(m[k], cutoff), |k: TransactionKey| m[k])
}

/// What a check of `key` at time `now` answers, and the state it leaves,
/// starting from the state `m` with the given retention period.
pub open spec fn check_outcome(
    m: Map<TransactionKey, TransactionModel>,
    key: TransactionKey,
    now: int,
    retention: int,
) -> (StatusModel, Map<TransactionKey, TransactionModel>) {
    let live = housekept(m, now - retention);
    if !live.contains_key(key) {
        (StatusModel::New, live.insert(key, TransactionModel::InProgress))
    } else {
        match live[key] {
            TransactionModel::InProgress => (StatusModel::InProgress, live),
            TransactionModel::Completed { response, .. } => (
                StatusModel::Completed(response),
                live.insert(key, TransactionModel::Completed { completion_time: now, response }),
            ),
        }
    }
}

/// The state after recording `response` for `key` at time `now`.
pub open spec fn record_outcome(
    m: Map<TransactionKey, TransactionModel>,
    key: TransactionKey,
    now: int,
    response: Seq<u8>,
) -> Map<TransactionKey, TransactionModel> {
    m.insert(key, TransactionModel::Completed { completion_time: now, response })
}

/// A transaction seen for the first time is answered `New`, and every later
/// check of it, at any time, answers `InProgress` until its reply is recorded
/// or it is cleared.
pub proof fn law_first_check_then_in_progress(
    m: Map<TransactionKey, TransactionModel>,
    key: TransactionKey,
    first: int,
    later: int,
    retention: int,
)
    requires
        !m.contains_key(key),
    ensures
        check_outcome(m, key, first, retention).0 == StatusModel::New,
        check_outcome(check_outcome(m, key, first, retention).1, key, later, retention).0
            == StatusModel::InProgress,
{
}

/// A transaction in progress is answered `InProgress` and stays in progress,
/// however old it is.
pub proof fn law_in_progress_is_reported(
    m: Map<TransactionKey, TransactionModel>,
    key: TransactionKey,
    now: int,
    retention: int,
)
    requires
        m.contains_key(key),
        m[key] == TransactionModel::InProgress,
    ensures
        check_outcome(m, key, now, retention) == (StatusModel::InProgress, housekept(m, now - retention)),
        check_outcome(m, key, now, retention).1[key] == TransactionModel::InProgress,
{
}

/// A recorded reply is replayed to a retransmission that comes within the
/// retention period of the recording (or before it, by the clock).
pub proof fn law_recorded_reply_is_replayed(
    m: Map<TransactionKey, TransactionModel>,
    key: TransactionKey,
    response: Seq<u8>,
    recorded_at: int,
    checked_at: int,
    retention: int,
)
    requires
        checked_at - retention <= recorded_at,
    ensures
        check_outcome(record_outcome(m, key, recorded_at, response), key, checked_at, retention).0
            == StatusModel::Completed(response),
{
    let r = record_outcome(m, key, recorded_at, response);
    assert(housekept(r, checked_at - retention).contains_key(key));
}

/// A reply recorded longer ago than the retention period is forgotten: the
/// retransmission is answered `New`.
pub proof fn law_expired_reply_is_forgotten(
    m: Map<TransactionKey, TransactionModel>,
    key: TransactionKey,
    response: Seq<u8>,
    recorded_at: int,
    checked_at: int,
    retention: int,
)
    requires
        recorded_at < checked_at - retention,
    ensures
        check_outcome(record_outcome(m, key, recorded_at, response), key, checked_at, retention).0
            == StatusModel::New,
{
}

/// After a transaction is cleared, the next check of it answers `New`.
pub proof fn law_cleared_is_new(
    m: Map<TransactionKey, TransactionModel>,
    key: TransactionKey,
    now: int,
    retention: int,
)
    ensures
        check_outcome(m.remove(key), key, now, retention).0 == StatusModel::New,
{
}

/// A check touches no other transaction but to drop expired completed
/// records: every other record that is in progress or recent enough is
/// left as it was.
pub proof fn law_check_keeps_other_records(
    m: Map<TransactionKey, TransactionModel>,
    key: TransactionKey,
    other: TransactionKey,
    now: int,
    retention: int,
)
    requires
        other != key,
        m.contains_key(other),
        retained(m[other], now - retention),
    ensures
        check_outcome(m, key, now, retention).1.contains_key(other),
        check_outcome(m, key, now, retention).1[other] == m[other],
{
}

/// A check drops exactly the completed records of other transactions that
/// are older than the retention period.
pub proof fn law_check_drops_expired_records(
    m: Map<TransactionKey, TransactionModel>,
    key: TransactionKey,
    other: TransactionKey,
    now: int,
    retention: int,
)
    requires
        other != key,
    ensures
        check_outcome(m, key, now, retention).1.contains_key(other) <==> (m.contains_key(other)
            && retained(m[other], now - retention)),
{
}

/// Recording a reply for `key` makes it the completed record of `key`,
/// stamped with the recording time, and leaves every other transaction as it
/// was: present with the same state, or absent.
pub proof fn law_record_touches_only_its_key(
    m: Map<TransactionKey, TransactionModel>,
    key: TransactionKey,
    now: int,
    response: Seq<u8>,
    other: TransactionKey,
)
    requires
        other != key,
    ensures
        record_outcome(m, key, now, response).contains_key(key),
        record_outcome(m, key, now, response)[key] == (TransactionModel::Completed {
            completion_time: now,
            response,
        }),
        record_outcome(m, key, now, response).contains_key(other) == m.contains_key(other),
        m.contains_key(other) ==> record_outcome(m, key, now, response)[other] == m[other],
        record_outcome(m, key, now, response).remove(key) == m.remove(key),
{
    assert(record_outcome(m, key, now, response).remove(key) =~= m.remove(key));
}

/// Recording the reply of one call does not disturb another call still in
/// progress: its retransmission is still answered `InProgress`.
pub proof fn law_record_keeps_other_calls_in_progress(
    m: Map<TransactionKey, TransactionModel>,
    key: TransactionKey,
    other: TransactionKey,
    recorded_at: int,
    response: Seq<u8>,
    checked_at: int,
    retention: int,
)
    requires
        other != key,
        m.contains_key(other),
        m[other] == TransactionModel::InProgress,
    ensures
        check_outcome(record_outcome(m, key, recorded_at, response), other, checked_at, retention).0
            == StatusModel::InProgress,
{
    law_record_touches_only_its_key(m, key, recorded_at, response, other);
}

/// Recording the reply of one call does not disturb the recorded reply of
/// another: within its retention period it is still replayed.
pub proof fn law_record_keeps_other_replies(
    m: Map<TransactionKey, TransactionModel>,
    key: TransactionKey,
    other: TransactionKey,
    other_response: Seq<u8>,
    first_at: int,
    recorded_at: int,
    response: Seq<u8>,
    checked_at: int,
    retention: int,
)
    requires
        other != key,
        checked_at - retention <= first_at,
    ensures
        check_outcome(
            record_outcome(record_outcome(m, other, first_at, other_response), key, recorded_at, response),
            other,
            checked_at,
            retention,
        ).0 == StatusModel::Completed(other_response),
{
    let m1 = record_outcome(m, other, first_at, other_response);
    law_record_touches_only_its_key(m, other, first_at, other_response, key);
    law_record_touches_only_its_key(m1, key, recorded_at, response, other);
    let m2 = record_outcome(m1, key, recorded_at, response);
    assert(housekept(m2, checked_at - retention).contains_key(other));
}

/// Represents the current state of an RPC transaction
///
/// Either in-progress (currently being processed) or
/// completed (successfully processed with timestamp).
enum TransactionState {
    InProgress,
    Completed { completion_time: Timestamp, response: Arc<Vec<u8>> },
}

impl TransactionState {
    spec fn model(self) -> TransactionModel {
        match self {
            TransactionState::InProgress => TransactionModel::InProgress,
            TransactionState::Completed { completion_time, response } => TransactionModel::Completed {
                completion_time: completion_time.nanos(),
                response: response@,
            },
        }
    }
}

/// One tracked transaction.
struct TrackedTransaction {
    xid: u32,
    client_addr: String,
    state: TransactionState,
}

impl TrackedTransaction {
    spec fn key(self) -> TransactionKey {
        (self.xid, self.client_addr@)
    }
}

/// No key occurs twice in `s`.
spec fn distinct_keys(s: Seq<TrackedTransaction>) -> bool {
    forall|i: int, j: int| 0 <= i < s.len() && 0 <= j < s.len() && i != j ==> #[trigger] s[i].key() != #[trigger] s[j].key()
}

/// Some entry of `s` has key `k`.
spec fn has_key(s: Seq<TrackedTransaction>, k: TransactionKey) -> bool {
    exists|i: int| 0 <= i < s.len() && #[trigger] s[i].key() == k
}

/// The map from key to state that the entries of `s` stand for.
spec fn entries_model(s: Seq<TrackedTransaction>) -> Map<TransactionKey, TransactionModel> {
    Map::new(
        |k: TransactionKey| has_key(s, k),
        |k: TransactionKey| s[choose|i: int| 0 <= i < s.len() && #[trigger] s[i].key() == k].state.model(),
    )
}

/// With distinct keys, the model maps the key of each entry to its state.
proof fn lemma_entry_in_model(s: Seq<TrackedTransaction>, i: int)
    requires
        distinct_keys(s),
        0 <= i < s.len(),
    ensures
        entries_model(s).contains_key(s[i].key()),
        entries_model(s)[s[i].key()] == s[i].state.model(),
{
    let k = s[i].key();
    assert(has_key(s, k));
    let j = choose|j: int| 0 <= j < s.len() && #[trigger] s[j].key() == k;
    assert(j == i);
}

/// Appending an entry with a fresh key adds that key to the model.
proof fn lemma_push(s: Seq<TrackedTransaction>, e: TrackedTransaction)
    requires
        distinct_keys(s),
        !has_key(s, e.key()),
    ensures
        distinct_keys(s.push(e)),
        entries_model(s.push(e)) == entries_model(s).insert(e.key(), e.state.model()),
{
    let t = s.push(e);
    assert forall|i: int, j: int| 0 <= i < t.len() && 0 <= j < t.len() && i != j implies #[trigger] t[i].key() != #[trigger] t[j].key() by {
        if i < s.len() && j < s.len() {
            assert(t[i] == s[i] && t[j] == s[j]);
        } else if i < s.len() {
            assert(t[i] == s[i]);
        } else {
            assert(t[j] == s[j]);
        }
    }
    let m = entries_model(s).insert(e.key(), e.state.model());
    assert forall|k: TransactionKey| #[trigger] entries_model(t).contains_key(k) <==> m.contains_key(k) by {
        if has_key(t, k) {
            let j = choose|j: int| 0 <= j < t.len() && #[trigger] t[j].key() == k;
            if j < s.len() {
                assert(t[j] == s[j]);
                assert(has_key(s, k));
            }
        }
        if has_key(s, k) {
            let j = choose|j: int| 0 <= j < s.len() && #[trigger] s[j].key() == k;
            assert(t[j] == s[j]);
            assert(has_key(t, k));
        }
        if k == e.key() {
            assert(t[s.len() as int] == e);
            assert(has_key(t, k));
        }
    }
    assert forall|k: TransactionKey| #[trigger] entries_model(t).contains_key(k) implies entries_model(t)[k] == m[k] by {
        let j = choose|j: int| 0 <= j < t.len() && #[trigger] t[j].key() == k;
        lemma_entry_in_model(t, j);
        if j < s.len() {
            assert(t[j] == s[j]);
            lemma_entry_in_model(s, j);
        } else {
            assert(t[j] == e);
        }
    }
    assert(entries_model(t) =~= m);
}

/// Removing the entry at `i` removes its key from the model.
proof fn lemma_remove(s: Seq<TrackedTransaction>, i: int)
    requires
        distinct_keys(s),
        0 <= i < s.len(),
    ensures
        distinct_keys(s.remove(i)),
        entries_model(s.remove(i)) == entries_model(s).remove(s[i].key()),
{
    let t = s.remove(i);
    assert forall|a: int| 0 <= a < t.len() implies #[trigger] t[a] == s[if a < i { a } else { a + 1 }] by {}
    assert forall|a: int, b: int| 0 <= a < t.len() && 0 <= b < t.len() && a != b implies #[trigger] t[a].key() != #[trigger] t[b].key() by {
        let a2 = if a < i { a } else { a + 1 };
        let b2 = if b < i { b } else { b + 1 };
        assert(t[a] == s[a2]);
        assert(t[b] == s[b2]);
    }
    let m = entries_model(s).remove(s[i].key());
    assert forall|k: TransactionKey| #[trigger] entries_model(t).contains_key(k) <==> m.contains_key(k) by {
        if has_key(t, k) {
            let a = choose|a: int| 0 <= a < t.len() && #[trigger] t[a].key() == k;
            let a2 = if a < i { a } else { a + 1 };
            assert(t[a] == s[a2]);
            assert(has_key(s, k));
            assert(s[a2].key() != s[i].key());
        }
        if has_key(s, k) && k != s[i].key() {
            let b = choose|b: int| 0 <= b < s.len() && #[trigger] s[b].key() == k;
            assert(b != i);
            let b2 = if b < i { b } else { b - 1 };
            assert(t[b2] == s[b]);
            assert(has_key(t, k));
        }
    }
    assert forall|k: TransactionKey| #[trigger] entries_model(t).contains_key(k) implies entries_model(t)[k] == m[k] by {
        let a = choose|a: int| 0 <= a < t.len() && #[trigger] t[a].key() == k;
        let a2 = if a < i { a } else { a + 1 };
        assert(t[a] == s[a2]);
        lemma_entry_in_model(t, a);
        lemma_entry_in_model(s, a2);
    }
    assert(entries_model(t) =~= m);
}

/// `kept` holds exactly the entries of `orig` from index `from` on whose state
/// survives the cutoff.
spec fn kept_suffix(orig: Seq<TrackedTransaction>, kept: Seq<TrackedTransaction>, from: int, cutoff: int) -> bool {
    &&& forall|j: int| 0 <= j < kept.len() ==> exists|i: int| from <= i < orig.len() && #[trigger] orig[i] == #[trigger] kept[j]
    &&& forall|j: int| 0 <= j < kept.len() ==> retained(#[trigger] kept[j].state.model(), cutoff)
    &&& forall|i: int| from <= i < orig.len() && retained(#[trigger] orig[i].state.model(), cutoff) ==> exists|j: int| 0 <= j < kept.len() && orig[i] == #[trigger] kept[j]
}

/// Keeping the surviving entries of a whole sequence gives the housekept model.
proof fn lemma_kept_model(orig: Seq<TrackedTransaction>, kept: Seq<TrackedTransaction>, cutoff: int)
    requires
        distinct_keys(orig),
        distinct_keys(kept),
        kept_suffix(orig, kept, 0, cutoff),
    ensures
        entries_model(kept) == housekept(entries_model(orig), cutoff),
{
    let m = housekept(entries_model(orig), cutoff);
    assert forall|k: TransactionKey| #[trigger] entries_model(kept).contains_key(k) <==> m.contains_key(k) by {
        if has_key(kept, k) {
            let j = choose|j: int| 0 <= j < kept.len() && #[trigger] kept[j].key() == k;
            let i = choose|i: int| 0 <= i < orig.len() && #[trigger] orig[i] == #[trigger] kept[j];
            lemma_entry_in_model(orig, i);
            assert(retained(kept[j].state.model(), cutoff));
        }
        if m.contains_key(k) {
            let i = choose|i: int| 0 <= i < orig.len() && #[trigger] orig[i].key() == k;
            lemma_entry_in_model(orig, i);
            assert(retained(orig[i].state.model(), cutoff));
            let j = choose|j: int| 0 <= j < kept.len() && orig[i] == #[trigger] kept[j];
            assert(kept[j].key() == k);
            assert(has_key(kept, k));
        }
    }
    assert forall|k: TransactionKey| #[trigger] entries_model(kept).contains_key(k) implies entries_model(kept)[k] == m[k] by {
        let j = choose|j: int| 0 <= j < kept.len() && #[trigger] kept[j].key() == k;
        let i = choose|i: int| 0 <= i < orig.len() && #[trigger] orig[i] == #[trigger] kept[j];
        lemma_entry_in_model(orig, i);
        lemma_entry_in_model(kept, j);
    }
    assert(entries_model(kept) =~= m);
}

/// Whether a record in `state` is still to be kept at time `now`, given the
/// retention period `max_age` in nanoseconds.
fn still_retained(state: &TransactionState, max_age: u128, now: Timestamp) -> (keep: bool)
    ensures
        keep == retained(state.model(), now.nanos() - max_age),
{
    match state {
        TransactionState::InProgress => true,
        TransactionState::Completed { completion_time, .. } => match (now, *completion_time) {
            (Timestamp::SinceEpoch(n), Timestamp::SinceEpoch(c)) => c >= n || n - c <= max_age,
            (Timestamp::SinceEpoch(n), Timestamp::BeforeEpoch(c)) => match n.checked_add(c) {
                Some(elapsed) => elapsed <= max_age,
                None => false,
            },
            (Timestamp::BeforeEpoch(_), Timestamp::SinceEpoch(_)) => true,
            (Timestamp::BeforeEpoch(n), Timestamp::BeforeEpoch(c)) => c <= n || c - n <= max_age,
        },
    }
}

/// Removes expired transactions from the tracking map
///
/// Cleans up completed transactions that have exceeded the maximum retention age.
/// Keeps in-progress transactions regardless of age to prevent processing duplicates.
/// Called during transaction checks to maintain memory efficiency.
fn housekeeping(transactions: &mut Vec<TrackedTransaction>, max_age: u128, now: Timestamp)
    requires
        distinct_keys(old(transactions)@),
    ensures
        distinct_keys(final(transactions)@),
        entries_model(final(transactions)@) == housekept(
            entries_model(old(transactions)@),
            now.nanos() - max_age,
        ),
{
    let ghost cutoff = now.nanos() - max_age;
    let ghost orig = transactions@;
    let mut kept: Vec<TrackedTransaction> = Vec::new();
    while transactions.len() > 0
        invariant
            cutoff == now.nanos() - max_age,
            distinct_keys(orig),
            transactions@.len() <= orig.len(),
            transactions@ == orig.subrange(0, transactions@.len() as int),
            distinct_keys(kept@),
            kept_suffix(orig, kept@, transactions@.len() as int, cutoff),
        decreases transactions@.len(),
    {
        let ghost before = kept@;
        let ghost from = transactions@.len() - 1;
        let entry = transactions.pop().unwrap();
        assert(entry == orig[from]);
        let keep = still_retained(&entry.state, max_age, now);
        assert(keep == retained(orig[from].state.model(), cutoff));
        if keep {
            kept.push(entry);
            assert forall|a: int, b: int| 0 <= a < kept@.len() && 0 <= b < kept@.len() && a != b implies #[trigger] kept@[a].key() != #[trigger] kept@[b].key() by {
                if a < before.len() && b < before.len() {
                    assert(kept@[a] == before[a] && kept@[b] == before[b]);
                } else if a < before.len() {
                    assert(kept@[a] == before[a]);
                    let i = choose|i: int| from + 1 <= i < orig.len() && #[trigger] orig[i] == #[trigger] before[a];
                    assert(orig[i].key() != orig[from].key());
                } else {
                    assert(kept@[b] == before[b]);
                    let i = choose|i: int| from + 1 <= i < orig.len() && #[trigger] orig[i] == #[trigger] before[b];
                    assert(orig[i].key() != orig[from].key());
                }
            }
            assert forall|j: int| 0 <= j < kept@.len() implies exists|i: int| from <= i < orig.len() && #[trigger] orig[i] == #[trigger] kept@[j] by {
                if j < before.len() {
                    assert(kept@[j] == before[j]);
                    let i = choose|i: int| from + 1 <= i < orig.len() && #[trigger] orig[i] == #[trigger] before[j];
                    assert(orig[i] == kept@[j]);
                } else {
                    assert(orig[from] == kept@[j]);
                }
            }
            assert forall|j: int| 0 <= j < kept@.len() implies retained(#[trigger] kept@[j].state.model(), cutoff) by {
                if j < before.len() {
                    assert(kept@[j] == before[j]);
                } else {
                    assert(kept@[j] == entry);
                }
            }
            assert forall|i: int| from <= i < orig.len() && retained(#[trigger] orig[i].state.model(), cutoff) implies exists|j: int| 0 <= j < kept@.len() && orig[i] == #[trigger] kept@[j] by {
                if i == from {
                    assert(orig[i] == kept@[before.len() as int]);
                } else {
                    let j = choose|j: int| 0 <= j < before.len() && orig[i] == #[trigger] before[j];
                    assert(kept@[j] == before[j]);
                }
            }
        } else {
            assert forall|j: int| 0 <= j < kept@.len() implies exists|i: int| from <= i < orig.len() && #[trigger] orig[i] == #[trigger] kept@[j] by {
                let i = choose|i: int| from + 1 <= i < orig.len() && #[trigger] orig[i] == #[trigger] kept@[j];
            }
            assert forall|i: int| from <= i < orig.len() && retained(#[trigger] orig[i].state.model(), cutoff) implies exists|j: int| 0 <= j < kept@.len() && orig[i] == #[trigger] kept@[j] by {
                assert(i != from);
            }
        }
    }
    proof {
        lemma_kept_model(orig, kept@, cutoff);
    }
    *transactions = kept;
}

/// The index of the entry with key `(xid, client_addr)`, if there is one.
fn find_transaction(entries: &Vec<TrackedTransaction>, xid: u32, client_addr: &String) -> (found: Option<usize>)
    ensures
        match found {
            Some(i) => i < entries@.len() && entries@[i as int].key() == (xid, client_addr@),
            None => !has_key(entries@, (xid, client_addr@)),
        },
{
    let mut i: usize = 0;
    while i < entries.len()
        invariant
            i <= entries@.len(),
            forall|j: int| 0 <= j < i ==> #[trigger] entries@[j].key() != (xid, client_addr@),
        decreases entries@.len() - i,
    {
        if entries[i].xid == xid && entries[i].client_addr == *client_addr {
            return Some(i);
        }
        i = i + 1;
    }
    None
}

/// Tracks RPC transactions to detect and handle retransmissions
///
/// Implements idempotency for RPC operations by tracking transaction state
/// using a combination of transaction ID (XID) and client address.
/// Helps prevent duplicate processing of retransmitted requests
/// and maintains transaction state for a configurable retention period.
pub struct TransactionTracker {
    retention_nanos: u128,
    transactions: Vec<TrackedTransaction>,
}

impl View for TransactionTracker {
    type V = Map<TransactionKey, TransactionModel>;

    closed spec fn view(&self) -> Map<TransactionKey, TransactionModel> {
        entries_model(self.transactions@)
    }
}

impl TransactionTracker {
    /// The tracker's internal invariant: no transaction is recorded twice.
    pub closed spec fn wf(&self) -> bool {
        distinct_keys(self.transactions@)
    }

    /// How long, in nanoseconds, a completed transaction is kept after its last use.
    pub closed spec fn retention(&self) -> int {
        self.retention_nanos as int
    }

    /// Creates a new transaction tracker with specified retention period
    ///
    /// Initializes a transaction tracker that will maintain transaction state
    /// for the given duration. This helps balance memory usage with the ability
    /// to detect retransmissions over time.
    pub fn new(retention_period: Duration) -> (tracker: Self)
        ensures
            tracker.wf(),
            tracker@ == Map::<TransactionKey, TransactionModel>::empty(),
            tracker.retention() == spec_duration_nanos(retention_period) as int,
    {
        let tracker = TransactionTracker {
            retention_nanos: duration_as_nanos(retention_period),
            transactions: Vec::new(),
        };
        proof {
            assert(tracker@ =~= Map::<TransactionKey, TransactionModel>::empty());
        }
        tracker
    }

    /// Checks transaction status and records new calls as in-progress.
    ///
    /// Identifies whether the transaction with given XID and client address
    /// has been seen before. If it's a new transaction, marks it as in-progress.
    /// The clock is read once; whatever time it gives, the answer and the new
    /// state are those of [`Self::check_at`] at that time.
    pub fn check(&mut self, xid: u32, client_addr: &str) -> (status: TransactionStatus)
        requires
            old(self).wf(),
        ensures
            final(self).wf(),
            final(self).retention() == old(self).retention(),
            exists|now: int|
                #[trigger] check_outcome(old(self)@, (xid, client_addr@), now, old(self).retention()) == (
                status@,
                final(self)@,
            ),
    {
        let now = system_clock_now();
        let status = self.check_at(xid, client_addr, now);
        assert(check_outcome(old(self)@, (xid, client_addr@), now.nanos(), old(self).retention()) == (status@, self@));
        status
    }

    /// The check of [`Self::check`] at the given time: drops completed records
    /// older than the retention period, then answers `New` (and records the
    /// transaction as in progress) for an unknown key, `InProgress` for a
    /// transaction being processed, and `Completed` with the cached reply for
    /// a completed one, whose record is then refreshed to `now`.
    pub fn check_at(&mut self, xid: u32, client_addr: &str, now: Timestamp) -> (status: TransactionStatus)
        requires
            old(self).wf(),
        ensures
            final(self).wf(),
            final(self).retention() == old(self).retention(),
            (status@, final(self)@) == check_outcome(
                old(self)@,
                (xid, client_addr@),
                now.nanos(),
                old(self).retention(),
            ),
    {
        housekeeping(&mut self.transactions, self.retention_nanos, now);
        let ghost live = self.transactions@;
        let ghost key = (xid, client_addr@);
        let addr: String = client_addr.to_owned();
        match find_transaction(&self.transactions, xid, &addr) {
            None => {
                let entry = TrackedTransaction { xid, client_addr: addr, state: TransactionState::InProgress };
                proof {
                    lemma_push(live, entry);
                }
                self.transactions.push(entry);
                TransactionStatus::New
            },
            Some(i) => {
                proof {
                    lemma_entry_in_model(live, i as int);
                }
                let completed = match &self.transactions[i].state {
                    TransactionState::InProgress => false,
                    TransactionState::Completed { .. } => true,
                };
                if !completed {
                    return TransactionStatus::InProgress;
                }
                let TrackedTransaction { xid: entry_xid, client_addr: entry_addr, state } = self.transactions.remove(i);
                proof {
                    lemma_remove(live, i as int);
                }
                match state {
                    TransactionState::Completed { response, .. } => {
                        let replay = share_response(&response);
                        let refreshed = TrackedTransaction {
                            xid: entry_xid,
                            client_addr: entry_addr,
                            state: TransactionState::Completed { completion_time: now, response },
                        };
                        proof {
                            let removed = live.remove(i as int);
                            assert(!entries_model(removed).contains_key(key));
                            lemma_push(removed, refreshed);
                            assert(entries_model(removed.push(refreshed)) =~= entries_model(live).insert(key, refreshed.state.model()));
                        }
                        self.transactions.push(refreshed);
                        TransactionStatus::Completed(replay)
                    },
                    TransactionState::InProgress => TransactionStatus::InProgress,
                }
            },
        }
    }

    /// Records a completed transaction response for retransmission replay.
    ///
    /// Updates the state of a transaction from in-progress to completed,
    /// recording the completion time (read from the clock) for retention
    /// period calculations. Called after a transaction has been fully
    /// processed and responded to.
    pub fn record_response(&mut self, xid: u32, client_addr: &str, response: Arc<Vec<u8>>)
        requires
            old(self).wf(),
        ensures
            final(self).wf(),
            final(self).retention() == old(self).retention(),
            exists|now: int|
                #[trigger] record_outcome(old(self)@, (xid, client_addr@), now, response@) == final(self)@,
    {
        let now = system_clock_now();
        self.record_response_at(xid, client_addr, response, now);
        assert(record_outcome(old(self)@, (xid, client_addr@), now.nanos(), response@) == self@);
    }

    /// The recording of [`Self::record_response`] at the given completion time.
    pub fn record_response_at(&mut self, xid: u32, client_addr: &str, response: Arc<Vec<u8>>, now: Timestamp)
        requires
            old(self).wf(),
        ensures
            final(self).wf(),
            final(self).retention() == old(self).retention(),
            final(self)@ == record_outcome(old(self)@, (xid, client_addr@), now.nanos(), response@),
    {
        let ghost start = self.transactions@;
        let ghost key = (xid, client_addr@);
        let addr: String = client_addr.to_owned();
        let entry = TrackedTransaction {
            xid,
            client_addr: addr,
            state: TransactionState::Completed { completion_time: now, response },
        };
        match find_transaction(&self.transactions, xid, &entry.client_addr) {
            None => {
                proof {
                    lemma_push(start, entry);
                }
                self.transactions.push(entry);
            },
            Some(i) => {
                self.transactions.remove(i);
                proof {
                    lemma_remove(start, i as int);
                    let removed = start.remove(i as int);
                    assert(!entries_model(removed).contains_key(key));
                    lemma_push(removed, entry);
                    assert(entries_model(removed.push(entry)) =~= entries_model(start).insert(key, entry.state.model()));
                }
                self.transactions.push(entry);
            },
        }
    }

    /// Clears a transaction entry so a later retry can be processed.
    pub fn clear(&mut self, xid: u32, client_addr: &str)
        requires
            old(self).wf(),
        ensures
            final(self).wf(),
            final(self).retention() == old(self).retention(),
            final(self)@ == old(self)@.remove((xid, client_addr@)),
    {
        let ghost start = self.transactions@;
        let addr: String = client_addr.to_owned();
        match find_transaction(&self.transactions, xid, &addr) {
            None => {
                proof {
                    assert(self@ =~= old(self)@.remove((xid, client_addr@)));
                }
            },
            Some(i) => {
                proof {
                    lemma_remove(start, i as int);
                }
                self.transactions.remove(i);
            },
        }
    }
}

/// Reads the system clock (`std::time::SystemTime::now`) and gives the reading
/// relative to the Unix epoch (`SystemTime::duration_since`, whose error
/// carries how far before the epoch the reading lies). Nothing is promised of
/// the value: it is the current time.
#[verifier::external_body]
fn system_clock_now() -> Timestamp {
    match std::time::SystemTime::now().duration_since(std::time::UNIX_EPOCH) {
        Ok(elapsed) => Timestamp::SinceEpoch(elapsed.as_nanos()),
        Err(before) => Timestamp::BeforeEpoch(before.duration().as_nanos()),
    }
}

/// The whole length of the duration `d` in nanoseconds, as
/// `Duration::as_nanos` gives it: a function of `d` alone.
pub uninterp spec fn spec_duration_nanos(d: Duration) -> u128;

/// `Duration::as_nanos`: the whole length of `d` in nanoseconds, named by
/// [`spec_duration_nanos`]; nothing more is stated of its value.
#[verifier::external_body]
fn duration_as_nanos(d: Duration) -> (nanos: u128)
    ensures
        nanos == spec_duration_nanos(d),
{
    d.as_nanos()
}

/// `Arc::clone`: a second pointer to the same allocation, so it holds the
/// same bytes.
#[verifier::external_body]
fn share_response(response: &Arc<Vec<u8>>) -> (shared: Arc<Vec<u8>>)
    ensures
        shared@ == response@,
{
    Arc::clone(response)
}

} // verus!
