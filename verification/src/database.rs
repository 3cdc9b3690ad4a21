//! The store of lock records and of the per-chain sync cursor.
//!
//! Records are kept in the order in which they were first stored and are
//! never removed. No two records share a lock id.

use std::collections::HashMap;
use vstd::prelude::*;
use crate::types::{DatabaseStats, LockRecord, LockRow, LockStatus};

verus! {

broadcast use vstd::std_specs::hash::group_hash_axioms;

/// Whether some row carries the lock id `lock_id`.
pub open spec fn has_lock(rows: Seq<LockRow>, lock_id: Seq<char>) -> bool {
    exists|i: int| 0 <= i < rows.len() && (#[trigger] rows[i]).lock_id == lock_id
}

/// Whether no two rows share a lock id.
pub open spec fn distinct_lock_ids(rows: Seq<LockRow>) -> bool {
    forall|i: int, j: int|
        0 <= i < j < rows.len() ==> (#[trigger] rows[i]).lock_id != (#[trigger] rows[j]).lock_id
}

/// The number of a new row in a table of `len` rows: rows are counted from
/// one, and the count stops at the largest `i64`.
pub open spec fn next_row_id(len: nat) -> int {
    if len < i64::MAX {
        (len + 1) as int
    } else {
        i64::MAX as int
    }
}

/// The row that the store makes of a record handed to it at time `now`, in a
/// table of `len` rows: the record's own data and status, no error message,
/// and both times set to `now`.
pub open spec fn new_row(lock: LockRow, len: nat, now: int) -> LockRow {
    LockRow {
        id: next_row_id(len),
        error_message: None,
        created_at: now,
        updated_at: now,
        ..lock
    }
}

/// The table after a record was handed to it: unchanged where its lock id is
/// known, one row longer where it is new.
pub open spec fn rows_after_store(rows: Seq<LockRow>, lock: LockRow, now: int) -> Seq<LockRow> {
    if has_lock(rows, lock.lock_id) {
        rows
    } else {
        rows.push(new_row(lock, rows.len(), now))
    }
}

/// A row after its status was overwritten at time `now`.
pub open spec fn row_with_status(
    row: LockRow,
    status: LockStatus,
    error_message: Option<Seq<char>>,
    now: int,
) -> LockRow {
    LockRow { status, error_message, updated_at: now, ..row }
}

/// The table after the status of `lock_id` was overwritten: every row with
/// that lock id is changed, every other row is kept.
pub open spec fn rows_after_update(
    rows: Seq<LockRow>,
    lock_id: Seq<char>,
    status: LockStatus,
    error_message: Option<Seq<char>>,
    now: int,
) -> Seq<LockRow> {
    Seq::new(
        rows.len(),
        |i: int|
            if rows[i].lock_id == lock_id {
                row_with_status(rows[i], status, error_message, now)
            } else {
                rows[i]
            },
    )
}

/// How many rows are in the state `status`.
pub open spec fn count_status(rows: Seq<LockRow>, status: LockStatus) -> nat
    decreases rows.len(),
{
    if rows.len() == 0 {
        0
    } else {
        count_status(rows.drop_last(), status) + if rows.last().status == status {
            1nat
        } else {
            0nat
        }
    }
}

/// `row` put into `sorted` behind every row whose block number is not larger
/// than its own.
pub open spec fn insert_by_block(sorted: Seq<LockRow>, row: LockRow) -> Seq<LockRow>
    decreases sorted.len(),
{
    if sorted.len() == 0 {
        seq![row]
    } else if sorted.last().block_number <= row.block_number {
        sorted.push(row)
    } else {
        insert_by_block(sorted.drop_last(), row).push(sorted.last())
    }
}

/// The rows in the state `status`, by ascending block number; rows of one
/// block stay in the order in which they were stored.
pub open spec fn rows_with_status(rows: Seq<LockRow>, status: LockStatus) -> Seq<LockRow>
    decreases rows.len(),
{
    if rows.len() == 0 {
        Seq::empty()
    } else if rows.last().status == status {
        insert_by_block(rows_with_status(rows.drop_last(), status), rows.last())
    } else {
        rows_with_status(rows.drop_last(), status)
    }
}

/// Whether the block numbers of `rows` never fall.
pub open spec fn ascending_blocks(rows: Seq<LockRow>) -> bool {
    forall|i: int, j: int|
        0 <= i <= j < rows.len() ==> (#[trigger] rows[i]).block_number <= (
        #[trigger] rows[j]).block_number
}

/// The sync cursor of `chain_id`, where one was set.
pub open spec fn cursor_of(cursors: Map<u64, u64>, chain_id: u64) -> Option<u64> {
    if cursors.dom().contains(chain_id) {
        Some(cursors[chain_id])
    } else {
        None
    }
}

/// The place at which [`insert_by_block`] puts `row` into `sorted`.
pub open spec fn insert_position(sorted: Seq<LockRow>, row: LockRow) -> int
    decreases sorted.len(),
{
    if sorted.len() == 0 {
        0
    } else if sorted.last().block_number <= row.block_number {
        sorted.len() as int
    } else {
        insert_position(sorted.drop_last(), row)
    }
}

/// [`insert_by_block`] puts the row at [`insert_position`]: behind a row
/// whose block number is not larger, and before rows whose block numbers are.
pub proof fn lemma_insert_by_block(sorted: Seq<LockRow>, row: LockRow)
    ensures
        0 <= insert_position(sorted, row) <= sorted.len(),
        insert_by_block(sorted, row) == sorted.insert(insert_position(sorted, row), row),
        forall|k: int|
            insert_position(sorted, row) <= k < sorted.len() ==> (#[trigger] sorted[k]).block_number
                > row.block_number,
        insert_position(sorted, row) > 0 ==> sorted[insert_position(sorted, row) - 1].block_number
            <= row.block_number,
    decreases sorted.len(),
{
    if sorted.len() == 0 {
        assert(seq![row] =~= sorted.insert(0, row));
    } else if sorted.last().block_number <= row.block_number {
        assert(sorted.push(row) =~= sorted.insert(sorted.len() as int, row));
    } else {
        let front = sorted.drop_last();
        lemma_insert_by_block(front, row);
        let p = insert_position(front, row);
        assert(front.insert(p, row).push(sorted.last()) =~= sorted.insert(p, row));
        assert forall|k: int| p <= k < sorted.len() implies (#[trigger] sorted[k]).block_number
            > row.block_number by {
            if k < front.len() {
                assert(front[k] == sorted[k]);
            }
        }
        if p > 0 {
            assert(front[p - 1] == sorted[p - 1]);
        }
    }
}

/// The only place behind a row that is not larger and before rows that are
/// is [`insert_position`].
pub proof fn lemma_insert_position_unique(sorted: Seq<LockRow>, row: LockRow, p: int)
    requires
        0 <= p <= sorted.len(),
        forall|k: int| p <= k < sorted.len() ==> (#[trigger] sorted[k]).block_number
            > row.block_number,
        p > 0 ==> sorted[p - 1].block_number <= row.block_number,
    ensures
        insert_position(sorted, row) == p,
    decreases sorted.len(),
{
    if sorted.len() == 0 {
    } else if sorted.last().block_number <= row.block_number {
        if p < sorted.len() {
            assert(sorted[sorted.len() - 1].block_number > row.block_number);
        }
    } else {
        let front = sorted.drop_last();
        assert(p < sorted.len());
        assert forall|k: int| p <= k < front.len() implies (#[trigger] front[k]).block_number
            > row.block_number by {
            assert(front[k] == sorted[k]);
        }
        if p > 0 {
            assert(front[p - 1] == sorted[p - 1]);
        }
        lemma_insert_position_unique(front, row, p);
    }
}

/// Putting a row into rows of ascending block numbers keeps them ascending.
pub proof fn lemma_insert_keeps_ascending(sorted: Seq<LockRow>, row: LockRow)
    requires
        ascending_blocks(sorted),
    ensures
        ascending_blocks(insert_by_block(sorted, row)),
{
    lemma_insert_by_block(sorted, row);
    let p = insert_position(sorted, row);
    let out = sorted.insert(p, row);
    assert forall|i: int, j: int| 0 <= i <= j < out.len() implies (#[trigger] out[i]).block_number
        <= (#[trigger] out[j]).block_number by {
        if i < p {
            assert(out[i] == sorted[i]);
            assert(sorted[i].block_number <= sorted[p - 1].block_number);
        } else if i > p {
            assert(out[i] == sorted[i - 1]);
        }
        if j < p {
            assert(out[j] == sorted[j]);
        } else if j > p {
            assert(out[j] == sorted[j - 1]);
        }
    }
}

/// What [`rows_with_status`] holds: its block numbers never fall, it has as
/// many rows as the table has in that state, and a row is in it if and only
/// if it is a row of the table in that state.
pub proof fn lemma_rows_with_status(rows: Seq<LockRow>, status: LockStatus)
    ensures
        ascending_blocks(rows_with_status(rows, status)),
        rows_with_status(rows, status).len() == count_status(rows, status),
        forall|r: LockRow| #[trigger]
            rows_with_status(rows, status).contains(r) <==> rows.contains(r) && r.status == status,
    decreases rows.len(),
{
    let out = rows_with_status(rows, status);
    if rows.len() == 0 {
        assert forall|r: LockRow| #[trigger] out.contains(r) <==> rows.contains(r) && r.status
            == status by {}
    } else {
        let front = rows.drop_last();
        let last = rows.last();
        let prev = rows_with_status(front, status);
        lemma_rows_with_status(front, status);
        if last.status == status {
            lemma_insert_keeps_ascending(prev, last);
            lemma_insert_by_block(prev, last);
            let p = insert_position(prev, last);
            assert(out == prev.insert(p, last));
            assert forall|r: LockRow| #[trigger] out.contains(r) <==> rows.contains(r) && r.status
                == status by {
                if out.contains(r) {
                    let i = choose|i: int| 0 <= i < out.len() && out[i] == r;
                    if i < p {
                        assert(prev[i] == r);
                        assert(prev.contains(r));
                    } else if i > p {
                        assert(prev[i - 1] == r);
                        assert(prev.contains(r));
                    } else {
                        assert(r == last);
                        assert(rows[rows.len() - 1] == r);
                    }
                    if prev.contains(r) {
                        let k = choose|k: int| 0 <= k < front.len() && front[k] == r;
                        assert(rows[k] == r);
                    }
                }
                if rows.contains(r) && r.status == status {
                    let k = choose|k: int| 0 <= k < rows.len() && rows[k] == r;
                    if k < front.len() {
                        assert(front[k] == r);
                        assert(front.contains(r));
                        assert(rows_with_status(front, status).contains(r));
                        let i = choose|i: int| 0 <= i < prev.len() && prev[i] == r;
                        if i < p {
                            assert(out[i] == r);
                        } else {
                            assert(out[i + 1] == r);
                        }
                    } else {
                        assert(out[p] == r);
                    }
                }
            }
        } else {
            assert forall|r: LockRow| #[trigger] out.contains(r) <==> rows.contains(r) && r.status
                == status by {
                if out.contains(r) {
                    let k = choose|k: int| 0 <= k < front.len() && front[k] == r;
                    assert(rows[k] == r);
                }
                if rows.contains(r) && r.status == status {
                    let k = choose|k: int| 0 <= k < rows.len() && rows[k] == r;
                    assert(front[k] == r);
                    assert(front.contains(r));
                }
            }
        }
    }
}

/// Storing a record a second time changes nothing and adds no row: after
/// the first call the table holds exactly one row with its lock id, the
/// second call finds that row, and the table stays as the first call left
/// it.
pub proof fn lemma_store_twice(rows: Seq<LockRow>, first: LockRow, second: LockRow, t1: int, t2: int)
    requires
        distinct_lock_ids(rows),
        first.lock_id == second.lock_id,
    ensures
        has_lock(rows_after_store(rows, first, t1), second.lock_id),
        rows_after_store(rows_after_store(rows, first, t1), second, t2) == rows_after_store(
            rows,
            first,
            t1,
        ),
        distinct_lock_ids(rows_after_store(rows, first, t1)),
        rows_after_store(rows, first, t1).filter(|r: LockRow| r.lock_id == first.lock_id).len()
            == 1,
{
    let once = rows_after_store(rows, first, t1);
    lemma_store_keeps_distinct(rows, first, t1);
    if has_lock(rows, first.lock_id) {
    } else {
        assert(once[rows.len() as int].lock_id == first.lock_id);
    }
    assert(has_lock(once, second.lock_id));
    lemma_one_row_per_lock(once, first.lock_id);
}

/// A table without two rows of one lock id still is one after a record was
/// stored.
pub proof fn lemma_store_keeps_distinct(rows: Seq<LockRow>, lock: LockRow, now: int)
    requires
        distinct_lock_ids(rows),
    ensures
        distinct_lock_ids(rows_after_store(rows, lock, now)),
{
    let out = rows_after_store(rows, lock, now);
    if !has_lock(rows, lock.lock_id) {
        assert forall|i: int, j: int| 0 <= i < j < out.len() implies (#[trigger] out[i]).lock_id != (
        #[trigger] out[j]).lock_id by {
            if j == rows.len() {
                assert(out[i] == rows[i]);
                assert(rows[i].lock_id != lock.lock_id);
            } else {
                assert(out[i] == rows[i]);
                assert(out[j] == rows[j]);
            }
        }
    }
}

/// In a table without two rows of one lock id, a lock id that is there has
/// exactly one row.
pub proof fn lemma_one_row_per_lock(rows: Seq<LockRow>, lock_id: Seq<char>)
    requires
        distinct_lock_ids(rows),
        has_lock(rows, lock_id),
    ensures
        rows.filter(|r: LockRow| r.lock_id == lock_id).len() == 1,
    decreases rows.len(),
{
    let pred = |r: LockRow| r.lock_id == lock_id;
    reveal(Seq::filter);
    let front = rows.drop_last();
    let last = rows.last();
    assert(rows.len() > 0);
    assert forall|i: int, j: int| 0 <= i < j < front.len() implies (#[trigger] front[i]).lock_id != (
    #[trigger] front[j]).lock_id by {
        assert(front[i] == rows[i]);
        assert(front[j] == rows[j]);
    }
    if last.lock_id == lock_id {
        lemma_filter_none(front, lock_id);
        assert forall|k: int| 0 <= k < front.len() implies (#[trigger] front[k]).lock_id
            != lock_id by {
            assert(front[k] == rows[k]);
            assert(rows[k].lock_id != rows[rows.len() - 1].lock_id);
        }
        assert(!has_lock(front, lock_id));
    } else {
        let w = choose|i: int| 0 <= i < rows.len() && (#[trigger] rows[i]).lock_id == lock_id;
        assert(w < front.len());
        assert(front[w] == rows[w]);
        assert(has_lock(front, lock_id));
        lemma_one_row_per_lock(front, lock_id);
    }
}

/// A table that does not hold a lock id has no row of it.
pub proof fn lemma_filter_none(rows: Seq<LockRow>, lock_id: Seq<char>)
    ensures
        !has_lock(rows, lock_id) ==> rows.filter(|r: LockRow| r.lock_id == lock_id).len() == 0,
    decreases rows.len(),
{
    reveal(Seq::filter);
    if rows.len() > 0 && !has_lock(rows, lock_id) {
        let front = rows.drop_last();
        assert forall|k: int| 0 <= k < front.len() implies (#[trigger] front[k]).lock_id
            != lock_id by {
            assert(front[k] == rows[k]);
        }
        assert(rows[rows.len() - 1].lock_id != lock_id);
        lemma_filter_none(front, lock_id);
    }
}

/// A cursor that was set is read back as set, until it is set again; the
/// cursors of other chains stay as they were.
pub proof fn lemma_cursor_read_after_set(cursors: Map<u64, u64>, chain_id: u64, block: u64, other: u64)
    ensures
        cursor_of(cursors.insert(chain_id, block), chain_id) == Some(block),
        other != chain_id ==> cursor_of(cursors.insert(chain_id, block), other) == cursor_of(
            cursors,
            other,
        ),
{
}

/// The cursors that a list of chain ids with their blocks sets, one after
/// the other.
pub open spec fn cursors_of(list: Seq<(u64, u64)>) -> Map<u64, u64>
    decreases list.len(),
{
    if list.len() == 0 {
        Map::empty()
    } else {
        cursors_of(list.drop_last()).insert(list.last().0, list.last().1)
    }
}

/// The views of the records of a vector, in its order.
pub open spec fn row_views(records: Seq<LockRecord>) -> Seq<LockRow> {
    Seq::new(records.len(), |i: int| records[i]@)
}

/// The store: lock records in the order of their first sighting, and one
/// sync cursor for each chain.
pub struct LockDatabase {
    rows: Vec<LockRecord>,
    cursors: HashMap<u64, u64>,
}

impl LockDatabase {
    /// The rows of the table, oldest first.
    pub closed spec fn rows(&self) -> Seq<LockRow> {
        row_views(self.rows@)
    }

    /// The sync cursors, by chain id.
    pub closed spec fn cursors(&self) -> Map<u64, u64> {
        self.cursors@
    }

    /// What holds of every store: no two rows share a lock id.
    pub open spec fn wf(&self) -> bool {
        distinct_lock_ids(self.rows())
    }

    /// An empty store.
    pub fn new() -> (db: LockDatabase)
        ensures
            db.wf(),
            db.rows() == Seq::<LockRow>::empty(),
            db.cursors() == Map::<u64, u64>::empty(),
    {
        let db = LockDatabase { rows: Vec::new(), cursors: HashMap::new() };
        assert(db.rows() =~= Seq::<LockRow>::empty());
        db
    }

    /// The store that holds the records `records`, in their order, and the
    /// cursors `cursors`, each a chain id with its block; of two cursors for
    /// one chain the later counts. Records that share a lock id make no
    /// store.
    pub fn restore(records: &Vec<LockRecord>, cursors: &Vec<(u64, u64)>) -> (r: Option<LockDatabase>)
        ensures
            r.is_some() == distinct_lock_ids(row_views(records@)),
            match r {
                Some(db) => db.wf() && db.rows() == row_views(records@) && db.cursors()
                    == cursors_of(cursors@),
                None => true,
            },
    {
        let mut db = LockDatabase::new();
        let mut i: usize = 0;
        assert(row_views(records@).take(0) =~= Seq::<LockRow>::empty());
        while i < records.len()
            invariant
                i <= records@.len(),
                db.wf(),
                db.rows() == row_views(records@).take(i as int),
                db.cursors() == Map::<u64, u64>::empty(),
            decreases records@.len() - i,
        {
            match db.position(records[i].lock_id.as_str()) {
                Some(k) => {
                    assert(row_views(records@)[k as int].lock_id == row_views(
                        records@,
                    )[i as int].lock_id);
                    return None;
                },
                None => {
                    let ghost before = db.rows();
                    let row = records[i].duplicate();
                    db.rows.push(row);
                    assert(db.rows() =~= row_views(records@).take(i + 1));
                    assert forall|a: int, b: int| 0 <= a < b < db.rows().len() implies (
                    #[trigger] db.rows()[a]).lock_id != (#[trigger] db.rows()[b]).lock_id by {
                        if b == i {
                            assert(before[a].lock_id != records@[i as int]@.lock_id);
                        } else {
                            assert(before[a].lock_id != before[b].lock_id);
                        }
                    }
                },
            }
            i = i + 1;
        }
        assert(row_views(records@).take(records@.len() as int) =~= row_views(records@));
        let mut j: usize = 0;
        assert(cursors@.take(0) =~= Seq::<(u64, u64)>::empty());
        while j < cursors.len()
            invariant
                j <= cursors@.len(),
                db.wf(),
                db.rows() == row_views(records@),
                db.cursors() == cursors_of(cursors@.take(j as int)),
            decreases cursors@.len() - j,
        {
            proof {
                let next = cursors@.take(j + 1);
                assert(next.drop_last() =~= cursors@.take(j as int));
                assert(next.last() == cursors@[j as int]);
            }
            let (chain_id, block) = cursors[j];
            db.set_last_processed_block(chain_id, block);
            j = j + 1;
        }
        assert(cursors@.take(cursors@.len() as int) =~= cursors@);
        Some(db)
    }

    /// Every record of the store, oldest first.
    pub fn all_locks(&self) -> (r: Vec<LockRecord>)
        ensures
            row_views(r@) == self.rows(),
    {
        let mut out: Vec<LockRecord> = Vec::new();
        let mut i: usize = 0;
        assert(row_views(out@) =~= self.rows().take(0));
        while i < self.rows.len()
            invariant
                i <= self.rows@.len(),
                row_views(out@) == self.rows().take(i as int),
            decreases self.rows@.len() - i,
        {
            let ghost before = row_views(out@);
            out.push(self.rows[i].duplicate());
            assert(row_views(out@) =~= before.push(self.rows()[i as int]));
            assert(self.rows().take(i + 1) =~= before.push(self.rows()[i as int]));
            i = i + 1;
        }
        assert(self.rows().take(self.rows@.len() as int) =~= self.rows());
        out
    }

    /// The place of the row with the lock id `lock_id`, if there is one.
    fn position(&self, lock_id: &str) -> (r: Option<usize>)
        ensures
            match r {
                Some(i) => i < self.rows().len() && self.rows()[i as int].lock_id == lock_id@,
                None => !has_lock(self.rows(), lock_id@),
            },
    {
        let wanted = lock_id.to_owned();
        let mut i: usize = 0;
        while i < self.rows.len()
            invariant
                i <= self.rows@.len(),
                wanted@ == lock_id@,
                forall|k: int| 0 <= k < i ==> (#[trigger] self.rows()[k]).lock_id != lock_id@,
            decreases self.rows@.len() - i,
        {
            if self.rows[i].lock_id == wanted {
                return Some(i);
            }
            i = i + 1;
        }
        None
    }

    /// Stores a record unless one with its lock id is there already, and
    /// says whether a row was added. The new row gets the next number, no
    /// error message, and `now` as both of its times.
    pub fn store_lock(&mut self, lock: &LockRecord, now: i64) -> (stored: bool)
        requires
            old(self).wf(),
        ensures
            final(self).wf(),
            stored == !has_lock(old(self).rows(), lock@.lock_id),
            final(self).rows() == rows_after_store(old(self).rows(), lock@, now as int),
            has_lock(final(self).rows(), lock@.lock_id),
            final(self).cursors() == old(self).cursors(),
    {
        match self.position(lock.lock_id.as_str()) {
            Some(_) => false,
            None => {
                let len = self.rows.len();
                let id: i64 = if (len as u64) < 0x7fff_ffff_ffff_ffff {
                    (len as u64 + 1) as i64
                } else {
                    i64::MAX
                };
                let mut row = lock.duplicate();
                row.id = id;
                row.error_message = None;
                row.created_at = now;
                row.updated_at = now;
                assert(row@ == new_row(lock@, old(self).rows().len(), now as int));
                self.rows.push(row);
                assert(self.rows() =~= old(self).rows().push(row@));
                assert(self.rows()[old(self).rows().len() as int].lock_id == lock@.lock_id);
                true
            },
        }
    }

    /// The record with the lock id `lock_id`, if the store holds one.
    pub fn get_lock(&self, lock_id: &str) -> (r: Option<LockRecord>)
        requires
            self.wf(),
        ensures
            r.is_some() == has_lock(self.rows(), lock_id@),
            match r {
                Some(record) => record@.lock_id == lock_id@ && self.rows().contains(record@),
                None => true,
            },
    {
        match self.position(lock_id) {
            Some(i) => {
                let record = self.rows[i].duplicate();
                assert(self.rows()[i as int] == record@);
                Some(record)
            },
            None => None,
        }
    }

    /// The records in the state `status`, by ascending block number. Records
    /// of one block come in the order in which they were stored.
    pub fn get_locks_by_status(&self, status: LockStatus) -> (r: Vec<LockRecord>)
        ensures
            row_views(r@) == rows_with_status(self.rows(), status),
            ascending_blocks(row_views(r@)),
            r@.len() == count_status(self.rows(), status),
            forall|row: LockRow| #[trigger]
                row_views(r@).contains(row) <==> self.rows().contains(row) && row.status == status,
    {
        let n = self.rows.len();
        let mut out: Vec<LockRecord> = Vec::new();
        let mut i: usize = 0;
        assert(self.rows().take(0) =~= Seq::<LockRow>::empty());
        assert(row_views(out@) =~= Seq::<LockRow>::empty());
        while i < n
            invariant
                i <= n,
                n == self.rows@.len(),
                row_views(out@) == rows_with_status(self.rows().take(i as int), status),
            decreases n - i,
        {
            let ghost before = row_views(out@);
            proof {
                let next = self.rows().take(i + 1);
                assert(next.drop_last() =~= self.rows().take(i as int));
                assert(next.last() == self.rows()[i as int]);
            }
            if self.rows[i].status == status {
                let row = self.rows[i].duplicate();
                let mut p: usize = out.len();
                while p > 0 && out[p - 1].block_number > row.block_number
                    invariant
                        p <= out@.len(),
                        forall|k: int| p <= k < out@.len() ==> (#[trigger] row_views(
                            out@,
                        )[k]).block_number > row@.block_number,
                    decreases p,
                {
                    p = p - 1;
                }
                proof {
                    if p > 0 {
                        assert(row_views(out@)[p - 1].block_number <= row@.block_number);
                    }
                    lemma_insert_position_unique(before, row@, p as int);
                    lemma_insert_by_block(before, row@);
                }
                out.insert(p, row);
                assert(row_views(out@) =~= before.insert(p as int, row@));
            }
            i = i + 1;
        }
        proof {
            assert(self.rows().take(n as int) =~= self.rows());
            lemma_rows_with_status(self.rows(), status);
        }
        out
    }

    /// Overwrites status and error message of the record with the lock id
    /// `lock_id`, whatever its status was, and sets its time of change to
    /// `now`. A lock id that the store does not hold changes nothing.
    pub fn update_lock_status(
        &mut self,
        lock_id: &str,
        status: LockStatus,
        error_message: Option<&str>,
        now: i64,
    )
        requires
            old(self).wf(),
        ensures
            final(self).wf(),
            final(self).rows() == rows_after_update(
                old(self).rows(),
                lock_id@,
                status,
                match error_message {
                    Some(m) => Some(m@),
                    None => None,
                },
                now as int,
            ),
            final(self).cursors() == old(self).cursors(),
    {
        let ghost message: Option<Seq<char>> = match error_message {
            Some(m) => Some(m@),
            None => None,
        };
        match self.position(lock_id) {
            Some(i) => {
                let mut row = self.rows[i].duplicate();
                row.status = status;
                row.error_message = match error_message {
                    Some(m) => Some(m.to_owned()),
                    None => None,
                };
                row.updated_at = now;
                assert(row@ == row_with_status(old(self).rows()[i as int], status, message, now as int));
                self.rows.set(i, row);
                assert forall|k: int| 0 <= k < self.rows().len() implies #[trigger] self.rows()[k]
                    == rows_after_update(old(self).rows(), lock_id@, status, message, now as int)[k] by {
                    if k != i {
                        assert(self.rows()[k] == old(self).rows()[k]);
                        if k < i {
                            assert(old(self).rows()[k].lock_id != old(self).rows()[i as int].lock_id);
                        } else {
                            assert(old(self).rows()[i as int].lock_id != old(self).rows()[k].lock_id);
                        }
                    }
                }
                assert(self.rows() =~= rows_after_update(
                    old(self).rows(),
                    lock_id@,
                    status,
                    message,
                    now as int,
                ));
                assert forall|a: int, b: int| 0 <= a < b < self.rows().len() implies (
                #[trigger] self.rows()[a]).lock_id != (#[trigger] self.rows()[b]).lock_id by {
                    assert(self.rows()[a].lock_id == old(self).rows()[a].lock_id);
                    assert(self.rows()[b].lock_id == old(self).rows()[b].lock_id);
                }
            },
            None => {
                assert(self.rows() =~= rows_after_update(
                    old(self).rows(),
                    lock_id@,
                    status,
                    message,
                    now as int,
                ));
            },
        }
    }

    /// The last processed block of the chain `chain_id`, if one was set.
    pub fn get_last_processed_block(&self, chain_id: u64) -> (r: Option<u64>)
        ensures
            r == cursor_of(self.cursors(), chain_id),
    {
        match self.cursors.get(&chain_id) {
            Some(block) => Some(*block),
            None => None,
        }
    }

    /// Sets the last processed block of the chain `chain_id`, whether or not
    /// one was set before.
    pub fn set_last_processed_block(&mut self, chain_id: u64, block: u64)
        ensures
            final(self).cursors() == old(self).cursors().insert(chain_id, block),
            final(self).rows() == old(self).rows(),
    {
        self.cursors.insert(chain_id, block);
    }

    /// How many records the store holds, in all and in each state.
    pub fn get_stats(&self) -> (stats: DatabaseStats)
        ensures
            stats.total_locks == self.rows().len(),
            stats.pending_locks == count_status(self.rows(), LockStatus::Pending),
            stats.confirmed_locks == count_status(self.rows(), LockStatus::Confirmed),
            stats.processed_locks == count_status(self.rows(), LockStatus::Processed),
            stats.failed_locks == count_status(self.rows(), LockStatus::Failed),
    {
        let n = self.rows.len();
        let mut pending: u64 = 0;
        let mut confirmed: u64 = 0;
        let mut processed: u64 = 0;
        let mut failed: u64 = 0;
        let mut i: usize = 0;
        while i < n
            invariant
                i <= n,
                n == self.rows@.len(),
                pending == count_status(self.rows().take(i as int), LockStatus::Pending),
                confirmed == count_status(self.rows().take(i as int), LockStatus::Confirmed),
                processed == count_status(self.rows().take(i as int), LockStatus::Processed),
                failed == count_status(self.rows().take(i as int), LockStatus::Failed),
                pending + confirmed + processed + failed == i,
            decreases n - i,
        {
            proof {
                let next = self.rows().take(i + 1);
                assert(next.drop_last() =~= self.rows().take(i as int));
                assert(next.last() == self.rows()[i as int]);
            }
            match self.rows[i].status {
                LockStatus::Pending => {
                    pending = pending + 1;
                },
                LockStatus::Confirmed => {
                    confirmed = confirmed + 1;
                },
                LockStatus::Processed => {
                    processed = processed + 1;
                },
                LockStatus::Failed => {
                    failed = failed + 1;
                },
            }
            i = i + 1;
        }
        assert(self.rows().take(n as int) =~= self.rows());
        DatabaseStats {
            total_locks: n as u64,
            pending_locks: pending,
            confirmed_locks: confirmed,
            processed_locks: processed,
            failed_locks: failed,
        }
    }
}

} // verus!
