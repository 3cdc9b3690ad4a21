//! The watcher's decisions: turning lock events into pending records,
//! confirming them once enough blocks have followed, and booking the outcome
//! of each relay.
//!
//! A record is created Pending, becomes Confirmed, and ends Processed or
//! Failed. Nothing here moves a record any other way.

use vstd::prelude::*;
use crate::config::{Config, HolochainConfig};
use crate::database::{
    cursor_of, distinct_lock_ids, has_lock, row_views, row_with_status, rows_after_store,
    rows_with_status, LockDatabase,
};
use crate::hexcodec::{prefixed_hex, to_prefixed_hex};
use crate::holochain_bridge::{
    agent_key_bytes, build_create_parked_link_payload, is_payload_for, BridgingPayload,
    PayloadError,
};
use crate::primitives::{Address, B256};
use crate::types::{LockRecord, LockRow, LockStatus};
use crate::uint::{decimal_text, to_decimal, U256};

verus! {

/// Whether a record may go from the state `from` to the state `to` in one
/// step: it may stay as it is, be confirmed while pending, and be processed
/// or fail while confirmed.
pub open spec fn may_follow(from: LockStatus, to: LockStatus) -> bool {
    ||| from == to
    ||| (from == LockStatus::Pending && to == LockStatus::Confirmed)
    ||| (from == LockStatus::Confirmed && to == LockStatus::Processed)
    ||| (from == LockStatus::Confirmed && to == LockStatus::Failed)
}

/// Whether the table `after` comes from the table `before` by steps that
/// the records may take: every old row keeps its lock id and takes a step
/// of [`may_follow`], and every new row is pending.
pub open spec fn legal_step(before: Seq<LockRow>, after: Seq<LockRow>) -> bool {
    &&& before.len() <= after.len()
    &&& forall|i: int|
        0 <= i < before.len() ==> (#[trigger] after[i]).lock_id == before[i].lock_id && may_follow(
            before[i].status,
            after[i].status,
        )
    &&& forall|i: int|
        before.len() <= i < after.len() ==> (#[trigger] after[i]).status == LockStatus::Pending
}

/// Whether each state of `trace` may follow the one before it.
pub open spec fn legal_trace(trace: Seq<LockStatus>) -> bool {
    forall|i: int| 0 <= i < trace.len() - 1 ==> may_follow(#[trigger] trace[i], trace[i + 1])
}

/// A record that starts pending and ends processed or failed was confirmed
/// on the way, and was pending all the time before that.
pub proof fn lemma_terminal_only_via_confirmed(trace: Seq<LockStatus>)
    requires
        trace.len() > 0,
        trace[0] == LockStatus::Pending,
        legal_trace(trace),
        trace.last().is_terminal(),
    ensures
        exists|k: int|
            0 < k < trace.len() - 1 && #[trigger] trace[k] == LockStatus::Confirmed && forall|j: int|
                0 <= j < k ==> #[trigger] trace[j] == LockStatus::Pending,
{
    let n = trace.len() as int;
    let k = first_not_pending(trace, 0);
    lemma_first_not_pending(trace, 0);
    assert(k < n) by {
        if k >= n {
            assert(trace[n - 1] == LockStatus::Pending);
        }
    }
    assert(k > 0);
    assert(trace[k - 1] == LockStatus::Pending);
    assert(may_follow(trace[k - 1], trace[k - 1 + 1]));
    assert(trace[k] == LockStatus::Confirmed);
    assert(k < n - 1);
}

/// The place of the first state from `from` on that is not pending; the
/// length of the trace where all of them are.
pub open spec fn first_not_pending(trace: Seq<LockStatus>, from: int) -> int
    decreases trace.len() - from,
{
    if from < 0 || from >= trace.len() {
        trace.len() as int
    } else if trace[from] != LockStatus::Pending {
        from
    } else {
        first_not_pending(trace, from + 1)
    }
}

/// [`first_not_pending`] is a place from `from` on, every state between
/// `from` and it is pending, and the state at it is not.
pub proof fn lemma_first_not_pending(trace: Seq<LockStatus>, from: int)
    requires
        0 <= from <= trace.len(),
    ensures
        from <= first_not_pending(trace, from) <= trace.len(),
        forall|j: int|
            from <= j < first_not_pending(trace, from) ==> #[trigger] trace[j]
                == LockStatus::Pending,
        first_not_pending(trace, from) < trace.len() ==> trace[first_not_pending(trace, from)]
            != LockStatus::Pending,
    decreases trace.len() - from,
{
    if from < trace.len() && trace[from] == LockStatus::Pending {
        lemma_first_not_pending(trace, from + 1);
    }
}

/// No step leaves the states Processed and Failed.
pub proof fn lemma_terminal_states_stay(from: LockStatus, to: LockStatus)
    requires
        from.is_terminal(),
        may_follow(from, to),
    ensures
        to == from,
{
}

/// A lock event of the vault, decoded, with the time of its block.
#[derive(Debug, Clone, Copy, PartialEq, Eq)]
pub struct LockEvent {
    pub sender: Address,
    pub amount: U256,
    pub holochain_agent: B256,
    pub lock_id: U256,
    pub tx_hash: B256,
    pub block_number: u64,
    pub timestamp: u64,
}

/// The pending record that stands for a lock event: lock id and amount in
/// base ten, sender, agent key and transaction hash in hexadecimal behind
/// `0x`.
pub open spec fn event_row(event: LockEvent) -> LockRow {
    LockRow {
        id: 0,
        lock_id: decimal_text(event.lock_id.value()),
        sender: prefixed_hex(event.sender.bytes@),
        amount: decimal_text(event.amount.value()),
        holochain_agent: prefixed_hex(event.holochain_agent.bytes@),
        tx_hash: prefixed_hex(event.tx_hash.bytes@),
        block_number: event.block_number,
        timestamp: event.timestamp,
        status: LockStatus::Pending,
        error_message: None,
        created_at: 0,
        updated_at: 0,
    }
}

/// The pending record that stands for a lock event.
pub fn lock_record_from_event(event: &LockEvent) -> (r: LockRecord)
    ensures
        r@ == event_row(*event),
{
    LockRecord {
        id: 0,
        lock_id: to_decimal(event.lock_id),
        sender: to_prefixed_hex(vstd::array::array_as_slice(&event.sender.bytes)),
        amount: to_decimal(event.amount),
        holochain_agent: to_prefixed_hex(vstd::array::array_as_slice(&event.holochain_agent.bytes)),
        tx_hash: to_prefixed_hex(vstd::array::array_as_slice(&event.tx_hash.bytes)),
        block_number: event.block_number,
        timestamp: event.timestamp,
        status: LockStatus::Pending,
        error_message: None,
        created_at: 0,
        updated_at: 0,
    }
}

/// The table after the events `events` were stored at time `now`, one after
/// the other.
pub open spec fn rows_after_events(rows: Seq<LockRow>, events: Seq<LockEvent>, now: int) -> Seq<
    LockRow,
>
    decreases events.len(),
{
    if events.len() == 0 {
        rows
    } else {
        rows_after_store(
            rows_after_events(rows, events.drop_last(), now),
            event_row(events.last()),
            now,
        )
    }
}

/// The records that were new among `events`, in their order: those whose
/// lock id the table did not hold when their turn came.
pub open spec fn new_among_events(rows: Seq<LockRow>, events: Seq<LockEvent>, now: int) -> Seq<
    LockRow,
>
    decreases events.len(),
{
    if events.len() == 0 {
        Seq::empty()
    } else {
        let before = rows_after_events(rows, events.drop_last(), now);
        let earlier = new_among_events(rows, events.drop_last(), now);
        if has_lock(before, event_row(events.last()).lock_id) {
            earlier
        } else {
            earlier.push(event_row(events.last()))
        }
    }
}

/// Whether the table `after` is the table `before` with pending rows added
/// behind it, none of them with an error message.
pub open spec fn pending_extension(before: Seq<LockRow>, after: Seq<LockRow>) -> bool {
    &&& before.len() <= after.len()
    &&& forall|i: int| 0 <= i < before.len() ==> #[trigger] after[i] == before[i]
    &&& forall|i: int|
        before.len() <= i < after.len() ==> (#[trigger] after[i]).status == LockStatus::Pending
            && after[i].error_message.is_none()
}

/// Storing a pending record adds at most one pending row behind the table.
pub proof fn lemma_store_extends(rows: Seq<LockRow>, lock: LockRow, now: int)
    requires
        lock.status == LockStatus::Pending,
    ensures
        pending_extension(rows, rows_after_store(rows, lock, now)),
{
}

/// Pending rows added in two goes are pending rows added.
pub proof fn lemma_extensions_chain(a: Seq<LockRow>, b: Seq<LockRow>, c: Seq<LockRow>)
    requires
        pending_extension(a, b),
        pending_extension(b, c),
    ensures
        pending_extension(a, c),
{
    assert forall|i: int| 0 <= i < a.len() implies #[trigger] c[i] == a[i] by {
        assert(b[i] == a[i]);
        assert(c[i] == b[i]);
    }
    assert forall|i: int| a.len() <= i < c.len() implies (#[trigger] c[i]).status
        == LockStatus::Pending && c[i].error_message.is_none() by {
        if i < b.len() {
            assert(b[i].status == LockStatus::Pending);
            assert(c[i] == b[i]);
        }
    }
}

/// Adding pending rows is a step that the records may take, and it leaves
/// error messages with failed rows alone.
pub proof fn lemma_extension_is_legal(before: Seq<LockRow>, after: Seq<LockRow>)
    requires
        pending_extension(before, after),
    ensures
        legal_step(before, after),
        errors_only_on_failed(before) ==> errors_only_on_failed(after),
{
    assert forall|i: int| 0 <= i < before.len() implies (#[trigger] after[i]).lock_id
        == before[i].lock_id && may_follow(before[i].status, after[i].status) by {
        assert(after[i] == before[i]);
    }
    if errors_only_on_failed(before) {
        assert forall|i: int|
            0 <= i < after.len() && (#[trigger] after[i]).error_message.is_some() implies after[i].status
                == LockStatus::Failed by {
            if i < before.len() {
                assert(after[i] == before[i]);
            }
        }
    }
}

/// Storing lock events adds pending rows behind the table and changes no
/// row that was there.
pub proof fn lemma_events_extend(rows: Seq<LockRow>, events: Seq<LockEvent>, now: int)
    ensures
        pending_extension(rows, rows_after_events(rows, events, now)),
    decreases events.len(),
{
    if events.len() > 0 {
        let front = rows_after_events(rows, events.drop_last(), now);
        lemma_events_extend(rows, events.drop_last(), now);
        lemma_store_extends(front, event_row(events.last()), now);
        lemma_extensions_chain(rows, front, rows_after_events(rows, events, now));
    }
}

/// How many blocks have followed the block `block` when the chain is at
/// `current`; none where the chain is behind it.
pub open spec fn confirmations_of(current: u64, block: u64) -> nat {
    if current >= block {
        (current - block) as nat
    } else {
        0
    }
}

/// Whether a row is pending and has `required` confirmations or more.
pub open spec fn is_due(row: LockRow, current: u64, required: u64) -> bool {
    row.status == LockStatus::Pending && confirmations_of(current, row.block_number) >= required
}

/// The table after the confirmation check at time `now`: every row that is
/// due is confirmed, every other row is kept.
pub open spec fn rows_after_confirmations(
    rows: Seq<LockRow>,
    current: u64,
    required: u64,
    now: int,
) -> Seq<LockRow> {
    Seq::new(
        rows.len(),
        |i: int|
            if is_due(rows[i], current, required) {
                row_with_status(rows[i], LockStatus::Confirmed, None, now)
            } else {
                rows[i]
            },
    )
}

/// The table after the record `lock_id` went from Confirmed to `status` at
/// time `now`: a row with that lock id is changed if it is confirmed, every
/// other row is kept.
pub open spec fn rows_after_relay(
    rows: Seq<LockRow>,
    lock_id: Seq<char>,
    status: LockStatus,
    error_message: Option<Seq<char>>,
    now: int,
) -> Seq<LockRow> {
    Seq::new(
        rows.len(),
        |i: int|
            if rows[i].lock_id == lock_id && rows[i].status == LockStatus::Confirmed {
                row_with_status(rows[i], status, error_message, now)
            } else {
                rows[i]
            },
    )
}

/// Whether some row with the lock id `lock_id` is confirmed.
pub open spec fn is_confirmed(rows: Seq<LockRow>, lock_id: Seq<char>) -> bool {
    exists|i: int|
        0 <= i < rows.len() && (#[trigger] rows[i]).lock_id == lock_id && rows[i].status
            == LockStatus::Confirmed
}

/// The cursor after the blocks up to `to_block` were stored: `to_block`,
/// unless the cursor was past it already.
pub open spec fn advanced_cursor(last_processed: Option<u64>, to_block: u64) -> u64 {
    match last_processed {
        Some(last) => if last > to_block {
            last
        } else {
            to_block
        },
        None => to_block,
    }
}

/// Whether every cursor of `before` is still there in `after`, and not
/// behind where it was.
pub open spec fn cursor_never_falls(before: Map<u64, u64>, after: Map<u64, u64>) -> bool {
    forall|chain_id: u64| #[trigger]
        before.dom().contains(chain_id) ==> after.dom().contains(chain_id) && after[chain_id]
            >= before[chain_id]
}

/// Whether only failed rows carry an error message.
pub open spec fn errors_only_on_failed(rows: Seq<LockRow>) -> bool {
    forall|i: int|
        0 <= i < rows.len() ==> ((#[trigger] rows[i]).error_message.is_some() ==> rows[i].status
            == LockStatus::Failed)
}

/// What a cycle has to do on the block that the chain has reached.
#[derive(Debug, Clone, Copy, PartialEq, Eq, Structural)]
pub enum CyclePlan {
    /// No cursor was set: it is set to the current block now, nothing older
    /// is read, and the cycle is over.
    Initialized { block: u64 },
    /// New blocks are there: their lock events are to be fetched and handed
    /// to [`LockWatcher::fetch_historical_locks`].
    Fetch { from_block: u64, to_block: u64 },
    /// The chain has not moved past the cursor.
    UpToDate,
}

/// The plan for a cursor and the block that the chain has reached.
pub open spec fn plan_for(last_processed: Option<u64>, current_block: u64) -> CyclePlan {
    match last_processed {
        None => CyclePlan::Initialized { block: current_block },
        Some(last) => if current_block > last {
            CyclePlan::Fetch { from_block: (last + 1) as u64, to_block: current_block }
        } else {
            CyclePlan::UpToDate
        },
    }
}

/// What the relay call for a record came to.
#[derive(Debug, Clone, PartialEq, Eq)]
pub enum RelayOutcome {
    /// The target ledger took the payload.
    Committed,
    /// The target ledger refused the payload, with these words.
    Rejected(String),
    /// The target ledger could not be reached: nothing is known, and the
    /// record is to be tried again in the next cycle.
    Unreachable,
}

/// What is to be done for a confirmed record.
#[derive(Debug, Clone, PartialEq, Eq)]
pub enum RelayAction {
    /// The payload is to be sent to the target ledger, and the outcome
    /// handed to [`LockWatcher::complete_relay`].
    Relay(BridgingPayload),
    /// No payload can be built, for this reason: nothing is to be sent.
    Skip(PayloadError),
}

/// The calls that are made into the target ledger.
#[derive(Debug, Clone, Copy, PartialEq, Eq, Structural)]
pub enum RelayOperation {
    CreateParkedLink,
    InitiateDeposit,
    GetParkedLinksByEa,
    ExecuteTransaction,
    ExecuteRave,
}

impl RelayOperation {
    /// The module of the target ledger that holds the function.
    pub fn zome_name(&self) -> (r: &'static str)
        ensures
            r@ == "transactor"@,
    {
        "transactor"
    }

    /// The name of the function in the target ledger.
    pub fn function_name(&self) -> (r: &'static str)
        ensures
            r@ == match *self {
                RelayOperation::CreateParkedLink => "create_parked_link"@,
                RelayOperation::InitiateDeposit => "blockchain_bridging_agent_initiate_deposit"@,
                RelayOperation::GetParkedLinksByEa => "get_parked_links_by_ea"@,
                RelayOperation::ExecuteTransaction => "execute_transaction"@,
                RelayOperation::ExecuteRave => "execute_rave"@,
            },
    {
        match self {
            RelayOperation::CreateParkedLink => "create_parked_link",
            RelayOperation::InitiateDeposit => "blockchain_bridging_agent_initiate_deposit",
            RelayOperation::GetParkedLinksByEa => "get_parked_links_by_ea",
            RelayOperation::ExecuteTransaction => "execute_transaction",
            RelayOperation::ExecuteRave => "execute_rave",
        }
    }
}

/// The watcher of one vault: its configuration and its store.
pub struct LockWatcher {
    config: Config,
    db: LockDatabase,
}

impl LockWatcher {
    /// The rows of the store, oldest first.
    pub closed spec fn rows(&self) -> Seq<LockRow> {
        self.db.rows()
    }

    /// The sync cursors of the store, by chain id.
    pub closed spec fn cursors(&self) -> Map<u64, u64> {
        self.db.cursors()
    }

    /// The chain that is watched.
    pub closed spec fn chain_id(&self) -> u64 {
        self.config.network_config.chain_id
    }

    /// The confirmations that the network asks for.
    pub closed spec fn required_confirmations(&self) -> u64 {
        self.config.network_config.confirmations
    }

    /// The configuration of the target ledger, if there is one.
    pub closed spec fn holochain(&self) -> Option<HolochainConfig> {
        self.config.holochain
    }

    /// What holds of every watcher: no two rows of its store share a lock
    /// id.
    pub open spec fn wf(&self) -> bool {
        distinct_lock_ids(self.rows())
    }

    /// A watcher with the configuration `config` on the store `db`.
    pub fn new(config: Config, db: LockDatabase) -> (w: LockWatcher)
        requires
            db.wf(),
        ensures
            w.wf(),
            w.rows() == db.rows(),
            w.cursors() == db.cursors(),
            w.chain_id() == config.network_config.chain_id,
            w.required_confirmations() == config.network_config.confirmations,
            w.holochain() == config.holochain,
    {
        LockWatcher { config, db }
    }

    /// The store of the watcher.
    pub fn database(&self) -> (db: &LockDatabase)
        ensures
            db.rows() == self.rows(),
            db.cursors() == self.cursors(),
    {
        &self.db
    }

    /// The configuration of the watcher.
    pub fn config(&self) -> (c: &Config)
        ensures
            c.network_config.chain_id == self.chain_id(),
            c.network_config.confirmations == self.required_confirmations(),
            c.holochain == self.holochain(),
    {
        &self.config
    }

    /// Stores the pending record of one lock event at time `now`, and hands
    /// the record back if it was new. An event whose lock id is known
    /// changes nothing.
    pub fn process_lock_log(&mut self, event: &LockEvent, now: i64) -> (r: Option<LockRecord>)
        requires
            old(self).wf(),
        ensures
            final(self).wf(),
            final(self).rows() == rows_after_store(old(self).rows(), event_row(*event), now as int),
            final(self).cursors() == old(self).cursors(),
            final(self).chain_id() == old(self).chain_id(),
            final(self).required_confirmations() == old(self).required_confirmations(),
            final(self).holochain() == old(self).holochain(),
            r.is_some() == !has_lock(old(self).rows(), event_row(*event).lock_id),
            r.is_some() ==> r.unwrap()@ == event_row(*event),
            legal_step(old(self).rows(), final(self).rows()),
            errors_only_on_failed(old(self).rows()) ==> errors_only_on_failed(final(self).rows()),
    {
        let record = lock_record_from_event(event);
        let stored = self.db.store_lock(&record, now);
        proof {
            lemma_store_extends(old(self).rows(), event_row(*event), now as int);
            lemma_extension_is_legal(old(self).rows(), self.rows());
        }
        if stored {
            Some(record)
        } else {
            None
        }
    }

    /// Stores the lock events of the blocks up to `to_block`, in their
    /// order, and then moves the cursor of the chain to `to_block`. The
    /// records that were new are handed back.
    ///
    /// The cursor is moved after the last record is stored, and not before.
    /// It never moves back: a cursor that is past `to_block` already stays
    /// where it is.
    pub fn fetch_historical_locks(&mut self, events: &Vec<LockEvent>, to_block: u64, now: i64) -> (r:
        Vec<LockRecord>)
        requires
            old(self).wf(),
        ensures
            final(self).wf(),
            final(self).rows() == rows_after_events(old(self).rows(), events@, now as int),
            final(self).cursors() == old(self).cursors().insert(
                old(self).chain_id(),
                advanced_cursor(cursor_of(old(self).cursors(), old(self).chain_id()), to_block),
            ),
            cursor_never_falls(old(self).cursors(), final(self).cursors()),
            final(self).chain_id() == old(self).chain_id(),
            final(self).required_confirmations() == old(self).required_confirmations(),
            final(self).holochain() == old(self).holochain(),
            row_views(r@) == new_among_events(old(self).rows(), events@, now as int),
            pending_extension(old(self).rows(), final(self).rows()),
            legal_step(old(self).rows(), final(self).rows()),
            errors_only_on_failed(old(self).rows()) ==> errors_only_on_failed(final(self).rows()),
    {
        let mut records: Vec<LockRecord> = Vec::new();
        let mut i: usize = 0;
        assert(events@.take(0) =~= Seq::<LockEvent>::empty());
        assert(row_views(records@) =~= Seq::<LockRow>::empty());
        while i < events.len()
            invariant
                i <= events@.len(),
                self.wf(),
                self.rows() == rows_after_events(old(self).rows(), events@.take(i as int), now as int),
                self.cursors() == old(self).cursors(),
                self.chain_id() == old(self).chain_id(),
                self.required_confirmations() == old(self).required_confirmations(),
                self.holochain() == old(self).holochain(),
                row_views(records@) == new_among_events(
                    old(self).rows(),
                    events@.take(i as int),
                    now as int,
                ),
            decreases events@.len() - i,
        {
            let ghost earlier = row_views(records@);
            proof {
                let next = events@.take(i + 1);
                assert(next.drop_last() =~= events@.take(i as int));
                assert(next.last() == events@[i as int]);
            }
            match self.process_lock_log(&events[i], now) {
                Some(record) => {
                    records.push(record);
                    assert(row_views(records@) =~= earlier.push(event_row(events@[i as int])));
                },
                None => {},
            }
            i = i + 1;
        }
        proof {
            assert(events@.take(events@.len() as int) =~= events@);
            lemma_events_extend(old(self).rows(), events@, now as int);
            lemma_extension_is_legal(old(self).rows(), self.rows());
        }
        let chain_id = self.config.network_config.chain_id;
        let cursor = match self.db.get_last_processed_block(chain_id) {
            Some(last) => if last > to_block {
                last
            } else {
                to_block
            },
            None => to_block,
        };
        self.db.set_last_processed_block(chain_id, cursor);
        records
    }

    /// Confirms, at time `now`, every pending record that has the required
    /// confirmations when the chain is at `current_block`: those whose block
    /// is at least that many blocks back. Nothing else is changed.
    pub fn check_confirmations(&mut self, current_block: u64, now: i64)
        requires
            old(self).wf(),
        ensures
            final(self).wf(),
            final(self).rows() == rows_after_confirmations(
                old(self).rows(),
                current_block,
                old(self).required_confirmations(),
                now as int,
            ),
            final(self).cursors() == old(self).cursors(),
            final(self).chain_id() == old(self).chain_id(),
            final(self).required_confirmations() == old(self).required_confirmations(),
            final(self).holochain() == old(self).holochain(),
            legal_step(old(self).rows(), final(self).rows()),
            errors_only_on_failed(old(self).rows()) ==> errors_only_on_failed(final(self).rows()),
    {
        let required = self.config.network_config.confirmations;
        let pending = self.db.get_locks_by_status(LockStatus::Pending);
        let ghost rows0 = self.rows();
        let ghost due = row_views(pending@);
        let mut j: usize = 0;
        while j < pending.len()
            invariant
                j <= pending@.len(),
                self.wf(),
                distinct_lock_ids(rows0),
                rows0 == old(self).rows(),
                due == row_views(pending@),
                required == old(self).required_confirmations(),
                forall|row: LockRow| #[trigger]
                    due.contains(row) <==> rows0.contains(row) && row.status == LockStatus::Pending,
                self.rows().len() == rows0.len(),
                forall|i: int|
                    0 <= i < rows0.len() ==> #[trigger] self.rows()[i] == if is_due(
                        rows0[i],
                        current_block,
                        required,
                    ) && seen_before(due, rows0[i].lock_id, j as int) {
                        row_with_status(rows0[i], LockStatus::Confirmed, None, now as int)
                    } else {
                        rows0[i]
                    },
                self.cursors() == old(self).cursors(),
                self.chain_id() == old(self).chain_id(),
                self.required_confirmations() == old(self).required_confirmations(),
                self.holochain() == old(self).holochain(),
            decreases pending@.len() - j,
        {
            let lock = &pending[j];
            let ghost before = self.rows();
            let ghost this = due[j as int];
            assert(this == lock@);
            assert(due.contains(this));
            assert(rows0.contains(this));
            let ghost at = choose|k: int| 0 <= k < rows0.len() && rows0[k] == this;
            let confirmations = if current_block >= lock.block_number {
                current_block - lock.block_number
            } else {
                0
            };
            if confirmations >= required {
                self.db.update_lock_status(lock.lock_id.as_str(), LockStatus::Confirmed, None, now);
                assert forall|i: int| 0 <= i < rows0.len() implies #[trigger] self.rows()[i] == if is_due(
                    rows0[i],
                    current_block,
                    required,
                ) && seen_before(due, rows0[i].lock_id, j + 1) {
                    row_with_status(rows0[i], LockStatus::Confirmed, None, now as int)
                } else {
                    rows0[i]
                } by {
                    assert(before[i].lock_id == rows0[i].lock_id);
                    if rows0[i].lock_id == this.lock_id {
                        if i < at {
                            assert(rows0[i].lock_id != rows0[at].lock_id);
                        } else if at < i {
                            assert(rows0[at].lock_id != rows0[i].lock_id);
                        }
                        assert(i == at);
                        assert(due[j as int].lock_id == rows0[i].lock_id);
                        assert(seen_before(due, rows0[i].lock_id, j + 1));
                    } else {
                        lemma_seen_before_step(due, rows0[i].lock_id, j as int);
                    }
                }
                assert forall|a: int, b: int| 0 <= a < b < self.rows().len() implies (
                #[trigger] self.rows()[a]).lock_id != (#[trigger] self.rows()[b]).lock_id by {
                    assert(self.rows()[a].lock_id == rows0[a].lock_id);
                    assert(self.rows()[b].lock_id == rows0[b].lock_id);
                }
            } else {
                assert forall|i: int| 0 <= i < rows0.len() implies #[trigger] self.rows()[i] == if is_due(
                    rows0[i],
                    current_block,
                    required,
                ) && seen_before(due, rows0[i].lock_id, j + 1) {
                    row_with_status(rows0[i], LockStatus::Confirmed, None, now as int)
                } else {
                    rows0[i]
                } by {
                    if rows0[i].lock_id == this.lock_id {
                        if i < at {
                            assert(rows0[i].lock_id != rows0[at].lock_id);
                        } else if at < i {
                            assert(rows0[at].lock_id != rows0[i].lock_id);
                        }
                        assert(i == at);
                        assert(!is_due(rows0[i], current_block, required));
                    } else {
                        lemma_seen_before_step(due, rows0[i].lock_id, j as int);
                    }
                }
            }
            j = j + 1;
        }
        proof {
            let target = rows_after_confirmations(rows0, current_block, required, now as int);
            assert forall|i: int| 0 <= i < rows0.len() implies #[trigger] self.rows()[i]
                == target[i] by {
                if is_due(rows0[i], current_block, required) {
                    assert(rows0.contains(rows0[i]));
                    assert(due.contains(rows0[i]));
                    let t = choose|t: int| 0 <= t < due.len() && due[t] == rows0[i];
                    assert(due[t].lock_id == rows0[i].lock_id);
                    assert(seen_before(due, rows0[i].lock_id, due.len() as int));
                }
            }
            assert(self.rows() =~= target);
        }
    }

    /// Decides what a cycle has to do when the chain is at `current_block`.
    ///
    /// Without a cursor the watcher starts from now: the cursor is set to
    /// `current_block`, no older block is read, and the cycle is over. With
    /// a cursor behind `current_block`, the blocks after it are to be
    /// fetched. Nothing else is changed.
    pub fn run_cycle(&mut self, current_block: u64) -> (plan: CyclePlan)
        ensures
            plan == plan_for(cursor_of(old(self).cursors(), old(self).chain_id()), current_block),
            final(self).rows() == old(self).rows(),
            final(self).cursors() == match plan {
                CyclePlan::Initialized { block } => old(self).cursors().insert(
                    old(self).chain_id(),
                    block,
                ),
                _ => old(self).cursors(),
            },
            cursor_never_falls(old(self).cursors(), final(self).cursors()),
            final(self).chain_id() == old(self).chain_id(),
            final(self).required_confirmations() == old(self).required_confirmations(),
            final(self).holochain() == old(self).holochain(),
    {
        let chain_id = self.config.network_config.chain_id;
        match self.db.get_last_processed_block(chain_id) {
            Some(last) => {
                if current_block > last {
                    CyclePlan::Fetch { from_block: last + 1, to_block: current_block }
                } else {
                    CyclePlan::UpToDate
                }
            },
            None => {
                self.db.set_last_processed_block(chain_id, current_block);
                CyclePlan::Initialized { block: current_block }
            },
        }
    }

    /// The confirmed records, by ascending block number: those that are to
    /// be relayed in this cycle.
    pub fn confirmed_locks(&self) -> (r: Vec<LockRecord>)
        ensures
            row_views(r@) == rows_with_status(self.rows(), LockStatus::Confirmed),
            forall|row: LockRow| #[trigger]
                row_views(r@).contains(row) <==> self.rows().contains(row) && row.status
                    == LockStatus::Confirmed,
    {
        self.db.get_locks_by_status(LockStatus::Confirmed)
    }

    /// Moves the record `lock_id` from Confirmed to `status` at time `now`,
    /// and says whether there was a confirmed record to move.
    fn leave_confirmed(
        &mut self,
        lock_id: &str,
        status: LockStatus,
        error_message: Option<&str>,
        now: i64,
    ) -> (moved: bool)
        requires
            old(self).wf(),
            status == LockStatus::Processed || status == LockStatus::Failed,
            status == LockStatus::Failed || error_message.is_none(),
        ensures
            final(self).wf(),
            moved == is_confirmed(old(self).rows(), lock_id@),
            final(self).rows() == rows_after_relay(
                old(self).rows(),
                lock_id@,
                status,
                match error_message {
                    Some(m) => Some(m@),
                    None => None,
                },
                now as int,
            ),
            final(self).cursors() == old(self).cursors(),
            final(self).chain_id() == old(self).chain_id(),
            final(self).required_confirmations() == old(self).required_confirmations(),
            final(self).holochain() == old(self).holochain(),
            legal_step(old(self).rows(), final(self).rows()),
            errors_only_on_failed(old(self).rows()) ==> errors_only_on_failed(final(self).rows()),
    {
        let ghost message: Option<Seq<char>> = match error_message {
            Some(m) => Some(m@),
            None => None,
        };
        let ghost rows0 = self.rows();
        let confirmed = match self.db.get_lock(lock_id) {
            Some(record) => {
                proof {
                    let at = choose|k: int| 0 <= k < rows0.len() && rows0[k] == record@;
                    if record@.status == LockStatus::Confirmed {
                        assert(rows0[at].lock_id == lock_id@);
                    } else if is_confirmed(rows0, lock_id@) {
                        let w = choose|i: int|
                            0 <= i < rows0.len() && (#[trigger] rows0[i]).lock_id == lock_id@
                                && rows0[i].status == LockStatus::Confirmed;
                        if w < at {
                            assert(rows0[w].lock_id != rows0[at].lock_id);
                        } else if at < w {
                            assert(rows0[at].lock_id != rows0[w].lock_id);
                        }
                    }
                }
                record.status == LockStatus::Confirmed
            },
            None => {
                proof {
                    if is_confirmed(rows0, lock_id@) {
                        let w = choose|i: int|
                            0 <= i < rows0.len() && (#[trigger] rows0[i]).lock_id == lock_id@
                                && rows0[i].status == LockStatus::Confirmed;
                        assert(has_lock(rows0, lock_id@));
                    }
                }
                false
            },
        };
        if confirmed {
            self.db.update_lock_status(lock_id, status, error_message, now);
            proof {
                let target = rows_after_relay(rows0, lock_id@, status, message, now as int);
                let at = choose|i: int|
                    0 <= i < rows0.len() && (#[trigger] rows0[i]).lock_id == lock_id@ && rows0[i].status
                        == LockStatus::Confirmed;
                assert forall|i: int| 0 <= i < rows0.len() implies #[trigger] self.rows()[i]
                    == target[i] by {
                    if rows0[i].lock_id == lock_id@ {
                        if i < at {
                            assert(rows0[i].lock_id != rows0[at].lock_id);
                        } else if at < i {
                            assert(rows0[at].lock_id != rows0[i].lock_id);
                        }
                    }
                }
                assert(self.rows() =~= target);
            }
        } else {
            proof {
                let target = rows_after_relay(rows0, lock_id@, status, message, now as int);
                assert forall|i: int| 0 <= i < rows0.len() implies #[trigger] self.rows()[i]
                    == target[i] by {
                    if rows0[i].lock_id == lock_id@ && rows0[i].status == LockStatus::Confirmed {
                        assert(is_confirmed(rows0, lock_id@));
                    }
                }
                assert(self.rows() =~= target);
            }
        }
        confirmed
    }

    /// Prepares the relay of the confirmed record `lock` at time `now`.
    ///
    /// Where the payload can be built, it is handed back to be sent, and
    /// nothing is changed. Where it cannot, the record fails with the error
    /// in words, and nothing is to be sent. A record that the store does not
    /// hold as confirmed is not changed.
    pub fn process_confirmed_lock(
        &mut self,
        hc_config: &HolochainConfig,
        lock: &LockRecord,
        contract_address_hex: &str,
        now: i64,
    ) -> (action: RelayAction)
        requires
            old(self).wf(),
        ensures
            final(self).wf(),
            match action {
                RelayAction::Relay(payload) => {
                    &&& is_payload_for(payload, *hc_config, lock@, contract_address_hex@)
                    &&& final(self).rows() == old(self).rows()
                },
                RelayAction::Skip(error) => {
                    &&& agent_key_bytes(lock@.holochain_agent).is_none()
                    &&& final(self).rows() == rows_after_relay(
                        old(self).rows(),
                        lock@.lock_id,
                        LockStatus::Failed,
                        Some(error.spec_message()),
                        now as int,
                    )
                },
            },
            final(self).cursors() == old(self).cursors(),
            final(self).chain_id() == old(self).chain_id(),
            final(self).required_confirmations() == old(self).required_confirmations(),
            final(self).holochain() == old(self).holochain(),
            legal_step(old(self).rows(), final(self).rows()),
            errors_only_on_failed(old(self).rows()) ==> errors_only_on_failed(final(self).rows()),
    {
        match build_create_parked_link_payload(hc_config, lock, contract_address_hex) {
            Ok(payload) => RelayAction::Relay(payload),
            Err(e) => {
                let message = e.message();
                self.leave_confirmed(
                    lock.lock_id.as_str(),
                    LockStatus::Failed,
                    Some(message.as_str()),
                    now,
                );
                assert(self.rows() == rows_after_relay(
                    old(self).rows(),
                    lock@.lock_id,
                    LockStatus::Failed,
                    Some(message@),
                    now as int,
                ));
                RelayAction::Skip(e)
            },
        }
    }

    /// Books the outcome of the relay call for the record `lock_id` at time
    /// `now`, and says whether the follow-up call is to be made.
    ///
    /// A payload that was taken makes the record Processed, and the
    /// follow-up call is due; whatever comes of that call, the record stays
    /// Processed. A payload that was refused makes the record Failed, with
    /// the words of the refusal. Where the ledger could not be reached the
    /// record stays Confirmed. A record that the store does not hold as
    /// confirmed is not changed.
    pub fn complete_relay(&mut self, lock_id: &str, outcome: &RelayOutcome, now: i64) -> (follow_up:
        bool)
        requires
            old(self).wf(),
        ensures
            final(self).wf(),
            final(self).rows() == match *outcome {
                RelayOutcome::Committed => rows_after_relay(
                    old(self).rows(),
                    lock_id@,
                    LockStatus::Processed,
                    None,
                    now as int,
                ),
                RelayOutcome::Rejected(message) => rows_after_relay(
                    old(self).rows(),
                    lock_id@,
                    LockStatus::Failed,
                    Some(message@),
                    now as int,
                ),
                RelayOutcome::Unreachable => old(self).rows(),
            },
            follow_up == (*outcome == RelayOutcome::Committed && is_confirmed(
                old(self).rows(),
                lock_id@,
            )),
            final(self).cursors() == old(self).cursors(),
            final(self).chain_id() == old(self).chain_id(),
            final(self).required_confirmations() == old(self).required_confirmations(),
            final(self).holochain() == old(self).holochain(),
            legal_step(old(self).rows(), final(self).rows()),
            errors_only_on_failed(old(self).rows()) ==> errors_only_on_failed(final(self).rows()),
    {
        match outcome {
            RelayOutcome::Committed => self.leave_confirmed(lock_id, LockStatus::Processed, None, now),
            RelayOutcome::Rejected(message) => {
                self.leave_confirmed(lock_id, LockStatus::Failed, Some(message.as_str()), now);
                false
            },
            RelayOutcome::Unreachable => false,
        }
    }
}

/// Whether one of the first `upto` rows of `due` has the lock id `lock_id`.
pub open spec fn seen_before(due: Seq<LockRow>, lock_id: Seq<char>, upto: int) -> bool {
    exists|t: int| 0 <= t < upto && t < due.len() && (#[trigger] due[t]).lock_id == lock_id
}

/// Where the row at `upto` has another lock id, it makes no difference to
/// [`seen_before`].
pub proof fn lemma_seen_before_step(due: Seq<LockRow>, lock_id: Seq<char>, upto: int)
    requires
        0 <= upto < due.len(),
        due[upto].lock_id != lock_id,
    ensures
        seen_before(due, lock_id, upto + 1) == seen_before(due, lock_id, upto),
{
    if seen_before(due, lock_id, upto + 1) {
        let t = choose|t: int|
            0 <= t < upto + 1 && t < due.len() && (#[trigger] due[t]).lock_id == lock_id;
        assert(t < upto);
    }
}

/// The confirmation check is a step that the records may take.
pub proof fn lemma_confirmations_are_legal(rows: Seq<LockRow>, current: u64, required: u64, now: int)
    ensures
        legal_step(rows, rows_after_confirmations(rows, current, required, now)),
{
}

/// Leaving Confirmed for Processed or Failed is a step that the records may
/// take.
pub proof fn lemma_relay_is_legal(
    rows: Seq<LockRow>,
    lock_id: Seq<char>,
    status: LockStatus,
    error_message: Option<Seq<char>>,
    now: int,
)
    requires
        status == LockStatus::Processed || status == LockStatus::Failed,
    ensures
        legal_step(rows, rows_after_relay(rows, lock_id, status, error_message, now)),
{
}

} // verus!
