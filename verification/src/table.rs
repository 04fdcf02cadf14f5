//! The semantics of one table of measurements.
//!
//! A table is a finite set of rows keyed by timestamp. Its view is the
//! sequence of its rows in strictly increasing timestamp order, so two tables
//! with the same rows have the same view.

use crate::record::{Measurement, MoveDB, Row, StorageError};
use vstd::prelude::*;

verus! {

/// Nanoseconds in one day.
pub const NANOS_PER_DAY: i64 = 86_400_000_000_000;

/// The instant below which a prune with horizon `retain_days` removes rows,
/// given the newest stored timestamp.
pub open spec fn prune_cutoff(latest: int, retain_days: int) -> int {
    latest - retain_days * 86_400_000_000_000
}

/// Rows are in strictly increasing timestamp order; in particular no
/// timestamp occurs twice.
pub open spec fn is_table(rows: Seq<Row>) -> bool {
    forall|i: int, j: int| 0 <= i < j < rows.len() ==> rows[i].timestamp < rows[j].timestamp
}

/// Some row carries this timestamp.
pub open spec fn has_key(rows: Seq<Row>, timestamp: int) -> bool {
    exists|i: int| 0 <= i < rows.len() && #[trigger] rows[i].timestamp == timestamp
}

/// No timestamp occurs in both sequences.
pub open spec fn keys_disjoint(a: Seq<Row>, b: Seq<Row>) -> bool {
    forall|i: int, j: int|
        0 <= i < a.len() && 0 <= j < b.len() ==> #[trigger] a[i].timestamp
            != #[trigger] b[j].timestamp
}

/// No timestamp occurs twice in the sequence.
pub open spec fn distinct_keys(rows: Seq<Row>) -> bool {
    forall|i: int, j: int|
        0 <= i < j < rows.len() ==> #[trigger] rows[i].timestamp != #[trigger] rows[j].timestamp
}

/// The rows after storing `row` under a timestamp that is not yet present.
pub open spec fn insert_row(rows: Seq<Row>, row: Row) -> Seq<Row>
    decreases rows.len(),
{
    if rows.len() == 0 || rows.last().timestamp < row.timestamp {
        rows.push(row)
    } else {
        insert_row(rows.drop_last(), row).push(rows.last())
    }
}

/// The rows after storing every row of `incoming`, first to last.
pub open spec fn insert_all(rows: Seq<Row>, incoming: Seq<Row>) -> Seq<Row>
    decreases incoming.len(),
{
    if incoming.len() == 0 {
        rows
    } else {
        insert_row(insert_all(rows, incoming.drop_last()), incoming.last())
    }
}

/// The rows that are not older than `cutoff`, in the order in which they
/// stand.
pub open spec fn retained(rows: Seq<Row>, cutoff: int) -> Seq<Row> {
    rows.filter(|r: Row| r.timestamp >= cutoff)
}

/// The rows a prune with horizon `retain_days` leaves behind.
pub open spec fn pruned(rows: Seq<Row>, retain_days: int) -> Seq<Row> {
    if rows.len() == 0 {
        rows
    } else {
        retained(rows, prune_cutoff(rows.last().timestamp, retain_days))
    }
}

/// The content of a vector of measurements.
pub open spec fn rows_of(stored: Seq<Measurement>) -> Seq<Row> {
    stored.map_values(|m: Measurement| m@)
}

/// Storing a row at the position that separates older from newer rows is
/// what `insert_row` describes, and it keeps the order strict.
pub proof fn lemma_insert_row_at(rows: Seq<Row>, row: Row, pos: int)
    requires
        is_table(rows),
        0 <= pos <= rows.len(),
        forall|i: int| 0 <= i < pos ==> rows[i].timestamp < row.timestamp,
        forall|i: int| pos <= i < rows.len() ==> rows[i].timestamp > row.timestamp,
    ensures
        insert_row(rows, row) == rows.insert(pos, row),
        is_table(rows.insert(pos, row)),
    decreases rows.len(),
{
    if rows.len() == 0 || pos == rows.len() {
        assert(rows.insert(pos, row) =~= rows.push(row));
    } else {
        let front = rows.drop_last();
        lemma_insert_row_at(front, row, pos);
        assert(front.insert(pos, row).push(rows.last()) =~= rows.insert(pos, row));
    }
    let after = rows.insert(pos, row);
    assert forall|i: int, j: int| 0 <= i < j < after.len() implies after[i].timestamp
        < after[j].timestamp by {
        let a = if i < pos { i } else { i - 1 };
        let b = if j < pos { j } else { j - 1 };
        if i != pos && j != pos {
            assert(rows[a].timestamp < rows[b].timestamp);
        }
    }
}

/// A strictly ordered sequence has, for every absent timestamp, a position
/// that separates the older rows from the newer ones.
pub proof fn lemma_gap_exists(rows: Seq<Row>, timestamp: int) -> (pos: int)
    requires
        is_table(rows),
        !has_key(rows, timestamp),
    ensures
        0 <= pos <= rows.len(),
        forall|i: int| 0 <= i < pos ==> rows[i].timestamp < timestamp,
        forall|i: int| pos <= i < rows.len() ==> rows[i].timestamp > timestamp,
    decreases rows.len(),
{
    if rows.len() == 0 {
        0
    } else if rows.last().timestamp < timestamp {
        rows.len() as int
    } else {
        assert(rows[rows.len() - 1].timestamp != timestamp);
        let front = rows.drop_last();
        assert forall|i: int| 0 <= i < front.len() implies front[i].timestamp != timestamp by {
            assert(rows[i].timestamp != timestamp);
        }
        let pos = lemma_gap_exists(front, timestamp);
        assert forall|i: int| pos <= i < rows.len() implies rows[i].timestamp > timestamp by {
            if i < front.len() {
                assert(front[i].timestamp > timestamp);
            }
        }
        assert forall|i: int| 0 <= i < pos implies rows[i].timestamp < timestamp by {
            assert(front[i].timestamp < timestamp);
        }
        pos
    }
}

/// Storing a row under an absent timestamp keeps the order strict, adds one
/// row, and adds exactly that timestamp to the keys.
pub proof fn lemma_insert_row(rows: Seq<Row>, row: Row)
    requires
        is_table(rows),
        !has_key(rows, row.timestamp),
    ensures
        is_table(insert_row(rows, row)),
        insert_row(rows, row).len() == rows.len() + 1,
        insert_row(rows, row).contains(row),
        forall|r: Row| insert_row(rows, row).contains(r) <==> rows.contains(r) || r == row,
        forall|k: int|
            has_key(insert_row(rows, row), k) <==> has_key(rows, k) || k == row.timestamp,
{
    let pos = lemma_gap_exists(rows, row.timestamp);
    lemma_insert_row_at(rows, row, pos);
    let after = rows.insert(pos, row);
    assert(after[pos] == row);
    assert forall|r: Row| after.contains(r) <==> rows.contains(r) || r == row by {
        if after.contains(r) {
            let i = choose|i: int| 0 <= i < after.len() && after[i] == r;
            if i < pos {
                assert(rows[i] == r);
            } else if i > pos {
                assert(rows[i - 1] == r);
            }
        }
        if rows.contains(r) {
            let i = choose|i: int| 0 <= i < rows.len() && rows[i] == r;
            if i < pos {
                assert(after[i] == r);
            } else {
                assert(after[i + 1] == r);
            }
        }
    }
    assert forall|k: int| has_key(after, k) <==> has_key(rows, k) || k == row.timestamp by {
        if has_key(after, k) {
            let i = choose|i: int| 0 <= i < after.len() && after[i].timestamp == k;
            if i < pos {
                assert(rows[i].timestamp == k);
            } else if i > pos {
                assert(rows[i - 1].timestamp == k);
            }
        }
        if has_key(rows, k) {
            let i = choose|i: int| 0 <= i < rows.len() && rows[i].timestamp == k;
            if i < pos {
                assert(after[i].timestamp == k);
            } else {
                assert(after[i + 1].timestamp == k);
            }
        }
        if k == row.timestamp {
            assert(after[pos].timestamp == k);
        }
    }
}

/// In a strictly ordered sequence the rows not older than a cutoff are the
/// suffix that starts where the first such row stands.
pub proof fn lemma_retained_is_suffix(rows: Seq<Row>, cutoff: int, start: int)
    requires
        0 <= start <= rows.len(),
        forall|i: int| 0 <= i < start ==> rows[i].timestamp < cutoff,
        forall|i: int| start <= i < rows.len() ==> rows[i].timestamp >= cutoff,
    ensures
        retained(rows, cutoff) == rows.subrange(start, rows.len() as int),
    decreases rows.len(),
{
    reveal(Seq::filter);
    if rows.len() > 0 {
        let front = rows.drop_last();
        if start == rows.len() {
            lemma_retained_is_suffix(front, cutoff, start - 1);
            assert(retained(rows, cutoff) =~= rows.subrange(start, rows.len() as int));
        } else {
            lemma_retained_is_suffix(front, cutoff, start);
            assert(front.subrange(start, front.len() as int).push(rows.last()) =~= rows.subrange(
                start,
                rows.len() as int,
            ));
        }
    } else {
        assert(retained(rows, cutoff) =~= rows.subrange(start, rows.len() as int));
    }
}

/// One table of measurements held in memory, rows in timestamp order.
#[derive(Debug)]
pub struct Table {
    rows: Vec<Measurement>,
}

impl View for Table {
    type V = Seq<Row>;

    closed spec fn view(&self) -> Seq<Row> {
        rows_of(self.rows@)
    }
}

/// Where a timestamp stands among stored rows: the number of older rows, and
/// whether a row with that very timestamp is present.
fn locate(stored: &Vec<Measurement>, timestamp: i64) -> (r: (usize, bool))
    requires
        is_table(rows_of(stored@)),
    ensures
        r.0 <= stored@.len(),
        forall|i: int| 0 <= i < r.0 ==> rows_of(stored@)[i].timestamp < timestamp,
        forall|i: int|
            r.0 <= i < stored@.len() ==> rows_of(stored@)[i].timestamp >= timestamp,
        r.1 == has_key(rows_of(stored@), timestamp as int),
        r.1 ==> r.0 < stored@.len() && rows_of(stored@)[r.0 as int].timestamp == timestamp,
        !r.1 ==> forall|i: int|
            r.0 <= i < stored@.len() ==> rows_of(stored@)[i].timestamp > timestamp,
{
    let ghost rows = rows_of(stored@);
    let mut pos: usize = stored.len();
    while pos > 0 && stored[pos - 1].timestamp >= timestamp
        invariant
            pos <= stored@.len(),
            rows == rows_of(stored@),
            forall|i: int| pos <= i < rows.len() ==> rows[i].timestamp >= timestamp,
        decreases pos,
    {
        pos = pos - 1;
    }
    assert forall|i: int| 0 <= i < pos implies rows[i].timestamp < timestamp by {
        assert(rows[pos - 1].timestamp < timestamp);
    }
    let found = pos < stored.len() && stored[pos].timestamp == timestamp;
    proof {
        if found {
            assert(rows[pos as int].timestamp == timestamp);
        } else {
            assert forall|i: int| pos <= i < rows.len() implies rows[i].timestamp
                > timestamp by {
                if i > pos {
                    assert(rows[pos as int].timestamp < rows[i].timestamp);
                }
            }
        }
    }
    (pos, found)
}

impl Table {
    /// The rows are in strictly increasing timestamp order.
    pub open spec fn wf(&self) -> bool {
        is_table(self@)
    }

    /// A table without rows.
    pub fn new() -> (t: Table)
        ensures
            t.wf(),
            t@.len() == 0,
    {
        Table { rows: Vec::new() }
    }

    /// The number of rows, capped at the largest `i64`.
    pub fn count(&self) -> (n: i64)
        ensures
            n == if self@.len() <= i64::MAX {
                self@.len() as int
            } else {
                i64::MAX as int
            },
    {
        let len: u64 = self.rows.len() as u64;
        if len <= 0x7fff_ffff_ffff_ffff {
            len as i64
        } else {
            i64::MAX
        }
    }

    /// The row at `index` in timestamp order, if there is one.
    pub fn get(&self, index: usize) -> (r: Option<&Measurement>)
        ensures
            index < self@.len() ==> r.is_some() && r.unwrap()@ == self@[index as int],
            index >= self@.len() ==> r.is_none(),
    {
        if index < self.rows.len() {
            Some(&self.rows[index])
        } else {
            None
        }
    }

    /// The oldest stored timestamp; `NoData` when the table is empty.
    pub fn earliest(&self) -> (r: Result<i64, StorageError>)
        ensures
            self@.len() == 0 ==> r matches Err(StorageError::NoData),
            self@.len() > 0 ==> (r matches Ok(t) && t == self@.first().timestamp),
    {
        if self.rows.len() == 0 {
            Err(StorageError::NoData)
        } else {
            Ok(self.rows[0].timestamp)
        }
    }

    /// The newest stored timestamp; `NoData` when the table is empty.
    pub fn latest(&self) -> (r: Result<i64, StorageError>)
        ensures
            self@.len() == 0 ==> r matches Err(StorageError::NoData),
            self@.len() > 0 ==> (r matches Ok(t) && t == self@.last().timestamp),
    {
        let len = self.rows.len();
        if len == 0 {
            Err(StorageError::NoData)
        } else {
            Ok(self.rows[len - 1].timestamp)
        }
    }

    /// The table that holds the given rows, whatever their order. Rows that
    /// share a timestamp cannot stand in one table.
    pub fn from_rows(rows: Vec<Measurement>) -> (r: Result<Table, StorageError>)
        ensures
            distinct_keys(rows_of(rows@)) ==> (r matches Ok(t) && t.wf() && t@ == insert_all(
                Seq::empty(),
                rows_of(rows@),
            )),
            !distinct_keys(rows_of(rows@)) ==> (r matches Err(StorageError::PrimaryKeyCollision)),
    {
        let ghost all = rows_of(rows@);
        let mut table = Table::new();
        assert(table@ =~= Seq::<Row>::empty());
        let mut i: usize = 0;
        while i < rows.len()
            invariant
                i <= rows@.len(),
                all == rows_of(rows@),
                table.wf(),
                distinct_keys(all.take(i as int)),
                table@ == insert_all(Seq::empty(), all.take(i as int)),
                forall|k: int| has_key(table@, k) <==> has_key(all.take(i as int), k),
            decreases rows@.len() - i,
        {
            let ghost before = all.take(i as int);
            let ghost row = all[i as int];
            let ghost stored = table@;
            proof {
                assert(all.take(i + 1).drop_last() =~= before);
                assert(all.take(i + 1).last() == row);
            }
            let m = &rows[i];
            match table.insert_at(m.timestamp, m.topic.as_str(), m.payload.as_str()) {
                Ok(_) => {
                    proof {
                        lemma_insert_row(stored, row);
                        let ghost next = all.take(i + 1);
                        assert forall|a: int, b: int|
                            0 <= a < b < next.len() implies #[trigger] next[a].timestamp
                            != #[trigger] next[b].timestamp by {
                            if b == i {
                                assert(before[a].timestamp == all[a].timestamp);
                                assert(!has_key(before, row.timestamp));
                            } else {
                                assert(before[a].timestamp != before[b].timestamp);
                            }
                        }
                        assert forall|k: int| has_key(table@, k) <==> has_key(next, k) by {
                            assert(has_key(stored, k) <==> has_key(before, k));
                            if has_key(before, k) {
                                let j = choose|j: int|
                                    0 <= j < before.len() && before[j].timestamp == k;
                                assert(next[j].timestamp == k);
                            }
                            if k == row.timestamp {
                                assert(next[i as int].timestamp == k);
                            }
                            if has_key(next, k) {
                                let j = choose|j: int|
                                    0 <= j < next.len() && next[j].timestamp == k;
                                if j < i {
                                    assert(before[j].timestamp == k);
                                }
                            }
                        }
                    }
                },
                Err(_) => {
                    proof {
                        let j = choose|j: int|
                            0 <= j < before.len() && before[j].timestamp == row.timestamp;
                        assert(all[j].timestamp == all[i as int].timestamp);
                    }
                    return Err(StorageError::PrimaryKeyCollision);
                },
            }
            i = i + 1;
        }
        proof {
            assert(all.take(rows@.len() as int) =~= all);
        }
        Ok(table)
    }

    /// Stores one row under `timestamp`. A timestamp that is already present
    /// is refused and the table stays as it was.
    pub fn insert_at(&mut self, timestamp: i64, topic: &str, payload: &str) -> (r: Result<
        (),
        StorageError,
    >)
        requires
            old(self).wf(),
        ensures
            final(self).wf(),
            has_key(old(self)@, timestamp as int) ==> (r matches Err(
                StorageError::PrimaryKeyCollision,
            )) && final(self)@ == old(self)@,
            !has_key(old(self)@, timestamp as int) ==> r.is_ok() && final(self)@ == insert_row(
                old(self)@,
                Row { timestamp: timestamp as int, topic: topic@, payload: payload@ },
            ),
    {
        let (pos, found) = locate(&self.rows, timestamp);
        if found {
            return Err(StorageError::PrimaryKeyCollision);
        }
        let m = Measurement::new(timestamp, topic, payload);
        proof {
            lemma_insert_row_at(self@, m@, pos as int);
            assert(rows_of(self.rows@.insert(pos as int, m)) =~= self@.insert(pos as int, m@));
        }
        self.rows.insert(pos, m);
        Ok(())
    }

    /// Removes every row older than the newest row by more than
    /// `retain_days` days. On an empty table there is no newest row: the
    /// answer is `NoData` and nothing changes.
    pub fn prune(&mut self, retain_days: u32) -> (r: Result<(), StorageError>)
        requires
            old(self).wf(),
        ensures
            final(self).wf(),
            old(self)@.len() == 0 ==> (r matches Err(StorageError::NoData)) && final(self)@
                == old(self)@,
            old(self)@.len() > 0 ==> r.is_ok(),
            final(self)@ == pruned(old(self)@, retain_days as int),
    {
        let len = self.rows.len();
        if len == 0 {
            return Err(StorageError::NoData);
        }
        let latest = self.rows[len - 1].timestamp;
        let cutoff: i128 = latest as i128 - (retain_days as i128) * (NANOS_PER_DAY as i128);
        let ghost rows = self@;
        let mut start: usize = 0;
        while start < len && (self.rows[start].timestamp as i128) < cutoff
            invariant
                start <= len,
                len == self.rows@.len(),
                rows == rows_of(self.rows@),
                forall|i: int| 0 <= i < start ==> rows[i].timestamp < cutoff,
            decreases len - start,
        {
            start = start + 1;
        }
        proof {
            assert forall|i: int| start <= i < rows.len() implies rows[i].timestamp
                >= cutoff by {
                if i > start {
                    assert(rows[start as int].timestamp < rows[i].timestamp);
                }
            }
            lemma_retained_is_suffix(rows, cutoff as int, start as int);
            assert(rows_of(self.rows@.subrange(start as int, len as int)) =~= rows.subrange(
                start as int,
                len as int,
            ));
        }
        let kept = self.rows.split_off(start);
        self.rows = kept;
        Ok(())
    }

    /// Moves every row of this table into `dest` and leaves this table empty.
    ///
    /// With `OVERWRITE` the destination's former rows are discarded. With
    /// `APPEND` they stay, unless a timestamp occurs on both sides: then the
    /// migration is refused and both tables stay as they were.
    #[verifier::loop_isolation(false)]
    pub fn migrate(&mut self, dest: &mut Table, mode: MoveDB) -> (r: Result<(), StorageError>)
        requires
            old(self).wf(),
            old(dest).wf(),
        ensures
            final(self).wf(),
            final(dest).wf(),
            mode == MoveDB::OVERWRITE ==> r.is_ok() && final(dest)@ == old(self)@
                && final(self)@.len() == 0,
            mode == MoveDB::APPEND && keys_disjoint(old(dest)@, old(self)@) ==> r.is_ok()
                && final(dest)@ == insert_all(old(dest)@, old(self)@) && final(self)@.len()
                == 0,
            mode == MoveDB::APPEND && !keys_disjoint(old(dest)@, old(self)@) ==> (r matches Err(
                StorageError::PrimaryKeyCollision,
            )) && final(dest)@ == old(dest)@ && final(self)@ == old(self)@,
    {
        match mode {
            MoveDB::OVERWRITE => {
                std::mem::swap(&mut self.rows, &mut dest.rows);
                self.rows = Vec::new();
                Ok(())
            },
            MoveDB::APPEND => {
                let ghost source = self@;
                let ghost target = dest@;
                let len = self.rows.len();
                let mut i: usize = 0;
                while i < len
                    invariant
                        i <= len,
                        len == self.rows@.len(),
                        source == rows_of(self.rows@),
                        target == rows_of(dest.rows@),
                        is_table(target),
                        forall|k: int| 0 <= k < i ==> !has_key(target, source[k].timestamp),
                    decreases len - i,
                {
                    let (_, found) = locate(&dest.rows, self.rows[i].timestamp);
                    if found {
                        proof {
                            let j = choose|j: int|
                                0 <= j < target.len() && target[j].timestamp
                                    == source[i as int].timestamp;
                            assert(target[j].timestamp == source[i as int].timestamp);
                        }
                        return Err(StorageError::PrimaryKeyCollision);
                    }
                    i = i + 1;
                }
                proof {
                    assert forall|a: int, b: int|
                        0 <= a < target.len() && 0 <= b < source.len() implies target[a].timestamp
                        != source[b].timestamp by {
                        assert(!has_key(target, source[b].timestamp));
                    }
                }
                let mut i: usize = 0;
                while i < len
                    invariant
                        i <= len,
                        len == self.rows@.len(),
                        source == rows_of(self.rows@),
                        is_table(source),
                        is_table(target),
                        keys_disjoint(target, source),
                        rows_of(dest.rows@) == insert_all(target, source.take(i as int)),
                        is_table(rows_of(dest.rows@)),
                    decreases len - i,
                {
                    let m = self.rows[i].duplicate();
                    proof {
                        lemma_insert_all(target, source.take(i as int));
                        assert(!has_key(rows_of(dest.rows@), m.timestamp as int)) by {
                            if has_key(source.take(i as int), m.timestamp as int) {
                                let j = choose|j: int|
                                    0 <= j < i && source.take(i as int)[j].timestamp
                                        == m.timestamp;
                                assert(source[j].timestamp < source[i as int].timestamp);
                            }
                            if has_key(target, m.timestamp as int) {
                                let j = choose|j: int|
                                    0 <= j < target.len() && target[j].timestamp == m.timestamp;
                                assert(target[j].timestamp != source[i as int].timestamp);
                            }
                        }
                        assert(source.take(i + 1).drop_last() =~= source.take(i as int));
                    }
                    let (pos, _) = locate(&dest.rows, m.timestamp);
                    proof {
                        lemma_insert_row_at(rows_of(dest.rows@), m@, pos as int);
                        assert(rows_of(dest.rows@.insert(pos as int, m)) =~= rows_of(
                            dest.rows@,
                        ).insert(pos as int, m@));
                    }
                    dest.rows.insert(pos, m);
                    i = i + 1;
                }
                proof {
                    assert(source.take(len as int) =~= source);
                }
                self.rows = Vec::new();
                Ok(())
            },
        }
    }
}

/// Law of appending. When no timestamp occurs twice in a batch nor on both
/// sides, storing the batch into a table keeps the order strict, the count
/// afterwards is the sum of both counts, and the rows afterwards are exactly
/// those of both sides; this holds however the two ranges of timestamps
/// interleave.
pub proof fn lemma_insert_all(rows: Seq<Row>, incoming: Seq<Row>)
    requires
        is_table(rows),
        distinct_keys(incoming),
        keys_disjoint(rows, incoming),
    ensures
        is_table(insert_all(rows, incoming)),
        insert_all(rows, incoming).len() == rows.len() + incoming.len(),
        forall|k: int|
            has_key(insert_all(rows, incoming), k) <==> has_key(rows, k) || has_key(incoming, k),
        forall|r: Row|
            insert_all(rows, incoming).contains(r) <==> rows.contains(r) || incoming.contains(r),
    decreases incoming.len(),
{
    if incoming.len() > 0 {
        let front = incoming.drop_last();
        let last = incoming.last();
        assert forall|i: int, j: int|
            0 <= i < rows.len() && 0 <= j < front.len() implies rows[i].timestamp
            != front[j].timestamp by {
            assert(rows[i].timestamp != incoming[j].timestamp);
        }
        lemma_insert_all(rows, front);
        let before = insert_all(rows, front);
        assert(!has_key(before, last.timestamp)) by {
            if has_key(front, last.timestamp) {
                let j = choose|j: int| 0 <= j < front.len() && front[j].timestamp == last.timestamp;
                assert(incoming[j].timestamp != incoming[incoming.len() - 1].timestamp);
            }
            if has_key(rows, last.timestamp) {
                let j = choose|j: int| 0 <= j < rows.len() && rows[j].timestamp == last.timestamp;
                assert(rows[j].timestamp != incoming[incoming.len() - 1].timestamp);
            }
        }
        lemma_insert_row(before, last);
        assert forall|k: int|
            has_key(insert_all(rows, incoming), k) <==> has_key(rows, k) || has_key(
                incoming,
                k,
            ) by {
            if has_key(front, k) {
                let j = choose|j: int| 0 <= j < front.len() && front[j].timestamp == k;
                assert(incoming[j].timestamp == k);
            }
            if has_key(incoming, k) {
                let j = choose|j: int| 0 <= j < incoming.len() && incoming[j].timestamp == k;
                if j < front.len() {
                    assert(front[j].timestamp == k);
                }
            }
            if k == last.timestamp {
                assert(incoming[incoming.len() - 1].timestamp == k);
            }
        }
        assert forall|r: Row|
            insert_all(rows, incoming).contains(r) <==> rows.contains(r) || incoming.contains(
                r,
            ) by {
            if front.contains(r) {
                let j = choose|j: int| 0 <= j < front.len() && front[j] == r;
                assert(incoming[j] == r);
            }
            if incoming.contains(r) {
                let j = choose|j: int| 0 <= j < incoming.len() && incoming[j] == r;
                if j < front.len() {
                    assert(front[j] == r);
                }
            }
            if r == last {
                assert(incoming[incoming.len() - 1] == r);
            }
        }
    }
}

/// Law of ordered insertion. When rows are stored one after another and
/// every timestamp is newer than all that came before, no insert collides,
/// the table afterwards holds its former rows followed by the new ones in
/// the order of arrival, its count has grown by the number of inserts, and
/// its newest timestamp is that of the last insert.
pub proof fn lemma_inserts_in_order(rows: Seq<Row>, incoming: Seq<Row>)
    requires
        is_table(rows + incoming),
    ensures
        insert_all(rows, incoming) == rows + incoming,
        insert_all(rows, incoming).len() == rows.len() + incoming.len(),
        incoming.len() > 0 ==> insert_all(rows, incoming).last().timestamp
            == incoming.last().timestamp,
        forall|n: int|
            0 <= n < incoming.len() ==> !has_key(
                insert_all(rows, incoming.take(n)),
                #[trigger] incoming[n].timestamp,
            ),
    decreases incoming.len(),
{
    let all = rows + incoming;
    if incoming.len() == 0 {
        assert(rows + incoming =~= rows);
    } else {
        let front = incoming.drop_last();
        let last = incoming.last();
        assert(rows + front =~= all.drop_last());
        assert forall|i: int, j: int| 0 <= i < j < (rows + front).len() implies (rows
            + front)[i].timestamp < (rows + front)[j].timestamp by {
            assert(all[i].timestamp < all[j].timestamp);
        }
        lemma_inserts_in_order(rows, front);
        let before = rows + front;
        if before.len() > 0 {
            assert(all[before.len() - 1].timestamp < all[all.len() - 1].timestamp);
            assert(before.last() == all[before.len() - 1]);
        }
        assert(before.push(last) =~= all);
        assert forall|n: int| 0 <= n < incoming.len() implies !has_key(
            insert_all(rows, incoming.take(n)),
            #[trigger] incoming[n].timestamp,
        ) by {
            if n < front.len() {
                assert(incoming.take(n) =~= front.take(n));
                assert(front[n] == incoming[n]);
            } else {
                assert(incoming.take(n) =~= front);
                if has_key(before, last.timestamp) {
                    let j = choose|j: int|
                        0 <= j < before.len() && before[j].timestamp == last.timestamp;
                    assert(all[j].timestamp < all[all.len() - 1].timestamp);
                }
            }
        }
    }
}

/// Law of pruning. A prune removes exactly the rows older than the cutoff
/// and keeps every other row in place; the newest row always stays; and a
/// second prune with the same horizon, with no insert in between, removes
/// nothing.
pub proof fn lemma_prune(rows: Seq<Row>, retain_days: int)
    requires
        is_table(rows),
        rows.len() > 0,
        retain_days >= 0,
    ensures
        is_table(pruned(rows, retain_days)),
        forall|r: Row|
            pruned(rows, retain_days).contains(r) <==> rows.contains(r) && r.timestamp
                >= prune_cutoff(rows.last().timestamp, retain_days),
        pruned(rows, retain_days).len() > 0,
        pruned(rows, retain_days).last() == rows.last(),
        pruned(pruned(rows, retain_days), retain_days) == pruned(rows, retain_days),
{
    let cutoff = prune_cutoff(rows.last().timestamp, retain_days);
    let start = lemma_first_retained(rows, cutoff);
    lemma_retained_is_suffix(rows, cutoff, start);
    let kept = rows.subrange(start, rows.len() as int);
    assert(retain_days * 86_400_000_000_000 >= 0) by (nonlinear_arith)
        requires
            retain_days >= 0,
    ;
    assert(start < rows.len()) by {
        if start == rows.len() {
            assert(rows[rows.len() - 1].timestamp < cutoff);
        }
    }
    assert(kept.last() == rows.last());
    assert forall|i: int, j: int| 0 <= i < j < kept.len() implies kept[i].timestamp
        < kept[j].timestamp by {
        assert(rows[start + i].timestamp < rows[start + j].timestamp);
    }
    assert forall|r: Row| kept.contains(r) <==> rows.contains(r) && r.timestamp >= cutoff by {
        if kept.contains(r) {
            let i = choose|i: int| 0 <= i < kept.len() && kept[i] == r;
            assert(rows[start + i] == r);
        }
        if rows.contains(r) && r.timestamp >= cutoff {
            let i = choose|i: int| 0 <= i < rows.len() && rows[i] == r;
            assert(kept[i - start] == r);
        }
    }
    lemma_retained_is_suffix(kept, cutoff, 0);
    assert(kept.subrange(0, kept.len() as int) =~= kept);
}

/// The index of the first row that is not older than `cutoff`.
pub proof fn lemma_first_retained(rows: Seq<Row>, cutoff: int) -> (start: int)
    requires
        is_table(rows),
    ensures
        0 <= start <= rows.len(),
        forall|i: int| 0 <= i < start ==> rows[i].timestamp < cutoff,
        forall|i: int| start <= i < rows.len() ==> rows[i].timestamp >= cutoff,
    decreases rows.len(),
{
    if rows.len() == 0 {
        0
    } else if rows.last().timestamp < cutoff {
        assert forall|i: int| 0 <= i < rows.len() implies rows[i].timestamp < cutoff by {
            if i < rows.len() - 1 {
                assert(rows[i].timestamp < rows[rows.len() - 1].timestamp);
            }
        }
        rows.len() as int
    } else {
        let front = rows.drop_last();
        let start = lemma_first_retained(front, cutoff);
        assert forall|i: int| start <= i < rows.len() implies rows[i].timestamp >= cutoff by {
            if i < front.len() {
                assert(front[i].timestamp >= cutoff);
            }
        }
        assert forall|i: int| 0 <= i < start implies rows[i].timestamp < cutoff by {
            assert(front[i].timestamp < cutoff);
        }
        start
    }
}

/// The shortest horizon, in days, that reaches from the newest to the oldest
/// instant that 64 bits can hold.
pub const WHOLE_RANGE_DAYS: u32 = 213_504;

/// Every timestamp fits 64 bits.
pub open spec fn in_range(rows: Seq<Row>) -> bool {
    forall|i: int| 0 <= i < rows.len() ==> i64::MIN <= #[trigger] rows[i].timestamp <= i64::MAX
}

/// Law of long horizons. A prune whose horizon spans the whole range of
/// timestamps removes nothing, so all such horizons have the same effect.
pub proof fn lemma_prune_whole_range(rows: Seq<Row>, retain_days: int)
    requires
        in_range(rows),
        retain_days >= WHOLE_RANGE_DAYS,
    ensures
        pruned(rows, retain_days) == rows,
{
    if rows.len() > 0 {
        let cutoff = prune_cutoff(rows.last().timestamp, retain_days);
        assert(rows[rows.len() - 1].timestamp <= i64::MAX);
        assert(retain_days * 86_400_000_000_000 >= 213_504 * 86_400_000_000_000)
            by (nonlinear_arith)
            requires
                retain_days >= 213_504,
        ;
        assert(cutoff < i64::MIN);
        lemma_retained_is_suffix(rows, cutoff, 0);
        assert(rows.subrange(0, rows.len() as int) =~= rows);
    }
}

impl Table {
    /// The timestamps of a table fit 64 bits.
    pub proof fn lemma_in_range(&self)
        ensures
            in_range(self@),
    {
    }
}

} // verus!
