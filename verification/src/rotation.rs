//! Rotation of a live store through a bounded chain of numbered archives.
//!
//! Archive 1 is the newest archive; a rotation moves every archive one
//! number up, from the oldest down, and then hands the live store's rows
//! to archive 1.

use crate::record::{Row, StorageError};
use crate::table::{has_key, insert_row, is_table, Table};
use vstd::prelude::*;

verus! {

/// One step of a rotation cycle.
#[derive(Clone, Copy, Debug, PartialEq, Eq, Structural)]
pub enum RotationStep {
    /// Rename archive `from` to archive `from + 1`, replacing what was there.
    Shift {
        /// The number of the archive that moves.
        from: i64,
    },
    /// Move the live store's rows into archive 1, replacing what was there,
    /// and leave the live store empty.
    HandOff,
}

/// A live store and its archives, by archive number.
pub struct ChainView {
    /// The rows of the live store.
    pub live: Seq<Row>,
    /// The rows of each archive that exists.
    pub archives: Map<int, Seq<Row>>,
}

/// The rows of archive `number`, if it exists.
pub open spec fn slot(chain: ChainView, number: int) -> Option<Seq<Row>> {
    if chain.archives.dom().contains(number) {
        Some(chain.archives[number])
    } else {
        None
    }
}

/// Archive `number` is marked as existing in a list that starts at archive 1.
pub open spec fn occupied_at(occupied: Seq<bool>, number: int) -> bool {
    1 <= number <= occupied.len() && occupied[number - 1]
}

/// Which of the archives 1 to `count` exist.
pub open spec fn occupancy(chain: ChainView, count: int) -> Seq<bool> {
    Seq::new(
        if count >= 0 {
            count as nat
        } else {
            0
        },
        |i: int| chain.archives.dom().contains(i + 1),
    )
}

/// The shifts for the archives `from`, `from - 1`, down to 1, in that
/// order, leaving out archives that do not exist.
pub open spec fn shift_steps(occupied: Seq<bool>, from: int) -> Seq<RotationStep>
    decreases from,
{
    if from < 1 {
        Seq::empty()
    } else if occupied_at(occupied, from) && from <= i64::MAX {
        seq![RotationStep::Shift { from: from as i64 }] + shift_steps(occupied, from - 1)
    } else {
        shift_steps(occupied, from - 1)
    }
}

/// The steps of one rotation with at most `max_number` archives.
pub open spec fn plan_steps(occupied: Seq<bool>, max_number: int) -> Seq<RotationStep> {
    shift_steps(occupied, max_number - 1).push(RotationStep::HandOff)
}

/// The chain after one step.
pub open spec fn apply_step(chain: ChainView, step: RotationStep) -> ChainView {
    match step {
        RotationStep::Shift { from } => if chain.archives.dom().contains(from as int) {
            ChainView {
                live: chain.live,
                archives: chain.archives.insert(from + 1, chain.archives[from as int]).remove(
                    from as int,
                ),
            }
        } else {
            chain
        },
        RotationStep::HandOff => ChainView {
            live: Seq::empty(),
            archives: chain.archives.insert(1, chain.live),
        },
    }
}

/// The chain after a list of steps, first to last.
pub open spec fn apply_steps(chain: ChainView, steps: Seq<RotationStep>) -> ChainView
    decreases steps.len(),
{
    if steps.len() == 0 {
        chain
    } else {
        apply_steps(apply_step(chain, steps.first()), steps.drop_first())
    }
}

/// The chain after one rotation with at most `max_number` archives.
pub open spec fn rotated(chain: ChainView, max_number: int) -> ChainView {
    apply_steps(chain, plan_steps(occupancy(chain, max_number - 1), max_number))
}

/// The same chain with other rows in the live store.
pub open spec fn with_live(chain: ChainView, live: Seq<Row>) -> ChainView {
    ChainView { live, archives: chain.archives }
}

/// The chain after a run of rotations, where before each rotation the live
/// store holds the next snapshot.
pub open spec fn rotated_through(
    chain: ChainView,
    snapshots: Seq<Seq<Row>>,
    max_number: int,
) -> ChainView
    decreases snapshots.len(),
{
    if snapshots.len() == 0 {
        chain
    } else {
        rotated(
            with_live(rotated_through(chain, snapshots.drop_last(), max_number), snapshots.last()),
            max_number,
        )
    }
}

/// Steps that follow one another are applied one after another.
pub proof fn lemma_apply_steps_add(
    chain: ChainView,
    first: Seq<RotationStep>,
    second: Seq<RotationStep>,
)
    ensures
        apply_steps(chain, first + second) == apply_steps(apply_steps(chain, first), second),
    decreases first.len(),
{
    if first.len() == 0 {
        assert(first + second =~= second);
    } else {
        assert((first + second).drop_first() =~= first.drop_first() + second);
        lemma_apply_steps_add(apply_step(chain, first.first()), first.drop_first(), second);
    }
}

/// A list of one step is that step.
pub proof fn lemma_apply_single(chain: ChainView, step: RotationStep)
    ensures
        apply_steps(chain, seq![step]) == apply_step(chain, step),
{
    reveal_with_fuel(apply_steps, 2);
    assert(seq![step].drop_first() =~= Seq::<RotationStep>::empty());
}

/// A shift moves one archive one number up and touches no other.
pub proof fn lemma_shift(chain: ChainView, from: i64)
    ensures
        ({
            let after = apply_step(chain, RotationStep::Shift { from });
            &&& after.live == chain.live
            &&& slot(chain, from as int).is_some() ==> slot(after, from + 1) == slot(
                chain,
                from as int,
            ) && slot(after, from as int).is_none()
            &&& slot(chain, from as int).is_none() ==> after == chain
            &&& forall|n: int| n != from && n != from + 1 ==> slot(after, n) == slot(chain, n)
        }),
{
}

/// The hand-off fills archive 1 from the live store and touches no other.
pub proof fn lemma_hand_off(chain: ChainView)
    ensures
        ({
            let after = apply_step(chain, RotationStep::HandOff);
            &&& after.live.len() == 0
            &&& slot(after, 1) == Some(chain.live)
            &&& forall|n: int| n != 1 ==> slot(after, n) == slot(chain, n)
        }),
{
}

/// What the shifts from archive `from` downwards do to a chain whose
/// existing archives are those marked.
pub proof fn lemma_shifts(chain: ChainView, occupied: Seq<bool>, from: int)
    requires
        0 <= from < i64::MAX,
        forall|n: int|
            1 <= n <= from ==> occupied_at(occupied, n) == chain.archives.dom().contains(n),
    ensures
        ({
            let after = apply_steps(chain, shift_steps(occupied, from));
            &&& after.live == chain.live
            &&& forall|n: int| n > from + 1 || n < 1 ==> slot(after, n) == slot(chain, n)
            &&& from >= 1 ==> slot(after, from + 1) == if slot(chain, from).is_some() {
                slot(chain, from)
            } else {
                slot(chain, from + 1)
            }
            &&& forall|n: int| 2 <= n <= from ==> slot(after, n) == slot(chain, n - 1)
            &&& from >= 1 ==> slot(after, 1).is_none()
        }),
    decreases from,
{
    if from >= 1 {
        let rest = shift_steps(occupied, from - 1);
        let middle = if occupied_at(occupied, from) {
            apply_step(chain, RotationStep::Shift { from: from as i64 })
        } else {
            chain
        };
        if occupied_at(occupied, from) {
            let head = seq![RotationStep::Shift { from: from as i64 }];
            lemma_apply_steps_add(chain, head, rest);
            lemma_apply_single(chain, RotationStep::Shift { from: from as i64 });
        }
        lemma_shift(chain, from as i64);
        assert forall|n: int| 1 <= n <= from - 1 implies occupied_at(occupied, n)
            == middle.archives.dom().contains(n) by {
            assert(slot(middle, n) == slot(chain, n));
        }
        lemma_shifts(middle, occupied, from - 1);
        let after = apply_steps(middle, rest);
        assert(after == apply_steps(chain, shift_steps(occupied, from)));
        assert forall|n: int| n > from + 1 || n < 1 implies slot(after, n) == slot(chain, n) by {
            assert(slot(after, n) == slot(middle, n));
        }
        assert(slot(after, from + 1) == slot(middle, from + 1));
        assert forall|n: int| 2 <= n <= from implies slot(after, n) == slot(chain, n - 1) by {
            if n == from {
                if from - 1 >= 1 {
                    assert(slot(after, from) == if slot(middle, from - 1).is_some() {
                        slot(middle, from - 1)
                    } else {
                        slot(middle, from)
                    });
                }
            } else {
                assert(slot(after, n) == slot(middle, n - 1));
            }
        }
        if from == 1 {
            assert(slot(after, 1) == slot(middle, 1));
        }
    }
}

/// Law of one rotation. Afterwards the live store is empty and archive 1
/// holds what the live store held. Every archive from 2 to `max_number`
/// holds what the archive one number below held; where that archive did not
/// exist, the place is empty, except that archive `max_number` then keeps
/// what it had. Archives beyond `max_number` are untouched.
pub proof fn lemma_rotation(chain: ChainView, max_number: int)
    requires
        max_number <= i64::MAX,
    ensures
        ({
            let after = rotated(chain, max_number);
            &&& after.live.len() == 0
            &&& slot(after, 1) == Some(chain.live)
            &&& forall|n: int|
                2 <= n <= max_number ==> #[trigger] slot(after, n) == if slot(chain, n - 1).is_some()
                    || n < max_number {
                    slot(chain, n - 1)
                } else {
                    slot(chain, n)
                }
            &&& forall|n: int|
                n < 1 || (n > max_number && n > 1) ==> #[trigger] slot(after, n) == slot(chain, n)
        }),
{
    let from = if max_number >= 1 {
        max_number - 1
    } else {
        0
    };
    let occupied = occupancy(chain, max_number - 1);
    let shifts = shift_steps(occupied, max_number - 1);
    assert(shifts == shift_steps(occupied, from));
    lemma_shifts(chain, occupied, from);
    let middle = apply_steps(chain, shifts);
    let tail = seq![RotationStep::HandOff];
    assert(shifts.push(RotationStep::HandOff) =~= shifts + tail);
    lemma_apply_steps_add(chain, shifts, tail);
    lemma_apply_single(middle, RotationStep::HandOff);
    lemma_hand_off(middle);
    let after = apply_step(middle, RotationStep::HandOff);
    assert(after == rotated(chain, max_number));
    assert forall|n: int| 2 <= n <= max_number implies #[trigger] slot(after, n) == if slot(
        chain,
        n - 1,
    ).is_some() || n < max_number {
        slot(chain, n - 1)
    } else {
        slot(chain, n)
    } by {
        assert(slot(after, n) == slot(middle, n));
    }
    assert forall|n: int| n < 1 || (n > max_number && n > 1) implies #[trigger] slot(after, n)
        == slot(chain, n) by {
        assert(slot(after, n) == slot(middle, n));
    }
}

/// Law of repeated rotation. After a run of at least `max_number` rotations
/// the archives 1 to `max_number` hold the most recent snapshots of the live
/// store, newest first, whatever the chain held before the run; and the live
/// store is empty.
pub proof fn lemma_rotations_keep_newest(
    chain: ChainView,
    snapshots: Seq<Seq<Row>>,
    max_number: int,
)
    requires
        1 <= max_number <= i64::MAX,
        snapshots.len() >= 1,
    ensures
        rotated_through(chain, snapshots, max_number).live.len() == 0,
        forall|n: int|
            1 <= n <= max_number && n <= snapshots.len() ==> #[trigger] slot(
                rotated_through(chain, snapshots, max_number),
                n,
            ) == Some(snapshots[snapshots.len() - n]),
    decreases snapshots.len(),
{
    let earlier = snapshots.drop_last();
    let before = with_live(rotated_through(chain, earlier, max_number), snapshots.last());
    lemma_rotation(before, max_number);
    if earlier.len() >= 1 {
        lemma_rotations_keep_newest(chain, earlier, max_number);
    }
    let after = rotated_through(chain, snapshots, max_number);
    assert forall|n: int| 1 <= n <= max_number && n <= snapshots.len() implies #[trigger] slot(
        after,
        n,
    ) == Some(snapshots[snapshots.len() - n]) by {
        if n >= 2 {
            assert(slot(before, n - 1) == slot(rotated_through(chain, earlier, max_number), n - 1));
            assert(slot(before, n - 1) == Some(earlier[earlier.len() - (n - 1)]));
        }
    }
}

/// Beyond the end of the list no archive is marked, so shifts need not
/// start above it.
pub proof fn lemma_shift_steps_beyond(occupied: Seq<bool>, from: int)
    requires
        from >= occupied.len(),
    ensures
        shift_steps(occupied, from) == shift_steps(occupied, occupied.len() as int),
    decreases from,
{
    if from > occupied.len() {
        lemma_shift_steps_beyond(occupied, from - 1);
    }
}

/// The shifts depend only on which of the archives 1 to `from` are marked.
pub proof fn lemma_shift_steps_same(a: Seq<bool>, b: Seq<bool>, from: int)
    requires
        forall|n: int| 1 <= n <= from ==> occupied_at(a, n) == occupied_at(b, n),
    ensures
        shift_steps(a, from) == shift_steps(b, from),
    decreases from,
{
    if from >= 1 {
        lemma_shift_steps_same(a, b, from - 1);
    }
}

/// Plans one rotation with at most `max_number` archives. `occupied[i]`
/// tells whether archive `i + 1` exists; archives beyond the end of the list
/// count as absent.
pub fn rotation_plan(occupied: &Vec<bool>, max_number: i64) -> (plan: Vec<RotationStep>)
    ensures
        plan@ == plan_steps(occupied@, max_number as int),
{
    let mut plan: Vec<RotationStep> = Vec::new();
    if max_number > 1 {
        let top: u64 = (max_number - 1) as u64;
        let len: u64 = occupied.len() as u64;
        let start: u64 = if top < len {
            top
        } else {
            len
        };
        let mut i: usize = start as usize;
        proof {
            if top >= len {
                lemma_shift_steps_beyond(occupied@, top as int);
            }
        }
        while i >= 1
            invariant
                i <= occupied@.len(),
                i <= top < i64::MAX,
                top == max_number - 1,
                plan@ + shift_steps(occupied@, i as int) == shift_steps(occupied@, top as int),
            decreases i,
        {
            if occupied[i - 1] {
                let ghost before = plan@;
                plan.push(RotationStep::Shift { from: i as i64 });
                assert(plan@ + shift_steps(occupied@, i - 1) =~= before + shift_steps(
                    occupied@,
                    i as int,
                ));
            }
            i = i - 1;
        }
        assert(plan@ + shift_steps(occupied@, 0) =~= plan@);
    }
    plan.push(RotationStep::HandOff);
    plan
}

/// Every store of the chain is in timestamp order.
pub open spec fn chain_ok(chain: ChainView) -> bool {
    &&& is_table(chain.live)
    &&& forall|n: int| chain.archives.dom().contains(n) ==> is_table(#[trigger] chain.archives[n])
}

/// The archives that a list of optional tables stands for, archive 1 first.
pub open spec fn archives_of(tables: Seq<Option<Table>>) -> Map<int, Seq<Row>> {
    Map::new(
        |n: int| 1 <= n <= tables.len() && tables[n - 1].is_some(),
        |n: int| tables[n - 1].unwrap()@,
    )
}

/// A live store with its archives, held in memory.
#[derive(Debug)]
pub struct ArchiveChain {
    live: Table,
    archives: Vec<Option<Table>>,
}

impl View for ArchiveChain {
    type V = ChainView;

    closed spec fn view(&self) -> ChainView {
        ChainView { live: self.live@, archives: archives_of(self.archives@) }
    }
}

impl ArchiveChain {
    /// Every store of the chain is in timestamp order.
    pub open spec fn wf(&self) -> bool {
        chain_ok(self@)
    }

    /// An empty live store without archives.
    pub fn new() -> (chain: ArchiveChain)
        ensures
            chain.wf(),
            chain@.live.len() == 0,
            chain@.archives == Map::<int, Seq<Row>>::empty(),
    {
        let chain = ArchiveChain { live: Table::new(), archives: Vec::new() };
        assert(chain@.archives =~= Map::<int, Seq<Row>>::empty());
        chain
    }

    /// The live store.
    pub fn live(&self) -> (t: &Table)
        ensures
            t@ == self@.live,
    {
        &self.live
    }

    /// Archive `number`, if it exists.
    pub fn archive(&self, number: i64) -> (r: Option<&Table>)
        ensures
            match r {
                Some(t) => slot(self@, number as int) == Some(t@),
                None => slot(self@, number as int).is_none(),
            },
    {
        if number >= 1 && (number as u64) <= (self.archives.len() as u64) {
            self.archives[(number - 1) as usize].as_ref()
        } else {
            None
        }
    }

    /// Stores one row in the live store; see [`Table::insert_at`].
    pub fn insert_at(&mut self, timestamp: i64, topic: &str, payload: &str) -> (r: Result<
        (),
        StorageError,
    >)
        requires
            old(self).wf(),
        ensures
            final(self).wf(),
            final(self)@.archives == old(self)@.archives,
            has_key(old(self)@.live, timestamp as int) ==> (r matches Err(
                StorageError::PrimaryKeyCollision,
            )) && final(self)@.live == old(self)@.live,
            !has_key(old(self)@.live, timestamp as int) ==> r.is_ok() && final(self)@.live
                == insert_row(
                old(self)@.live,
                Row { timestamp: timestamp as int, topic: topic@, payload: payload@ },
            ),
    {
        let r = self.live.insert_at(timestamp, topic, payload);
        assert(self@.archives == old(self)@.archives);
        r
    }

    /// Which of the archives 1 to `max_number - 1` exist, as far as the
    /// chain reaches.
    fn occupancy(&self, max_number: i64) -> (occupied: Vec<bool>)
        ensures
            forall|n: int|
                1 <= n <= max_number - 1 ==> occupied_at(occupied@, n)
                    == self@.archives.dom().contains(n),
    {
        let mut occupied: Vec<bool> = Vec::new();
        if max_number <= 1 {
            return occupied;
        }
        let top: u64 = (max_number - 1) as u64;
        let len = self.archives.len();
        let mut i: usize = 0;
        while i < len && (i as u64) < top
            invariant
                i <= len,
                len == self.archives@.len(),
                occupied@.len() == i,
                i <= top,
                top == max_number - 1,
                forall|k: int| 0 <= k < i ==> occupied@[k] == self.archives@[k].is_some(),
            decreases len - i,
        {
            occupied.push(self.archives[i].is_some());
            i = i + 1;
        }
        occupied
    }

    /// Moves the archive at position `idx` of the list one place up.
    fn shift(&mut self, idx: usize)
        requires
            old(self).wf(),
            idx < old(self).archives@.len(),
            old(self).archives@[idx as int].is_some(),
        ensures
            final(self).wf(),
            final(self)@.live == old(self)@.live,
            final(self)@.archives == old(self)@.archives.insert(
                idx + 2,
                old(self)@.archives[idx + 1],
            ).remove(idx + 1),
    {
        let len = self.archives.len();
        if idx + 1 == len {
            self.archives.push(None);
        }
        let ghost grown = self.archives@;
        proof {
            assert(archives_of(grown) =~= old(self)@.archives);
        }
        let moved = self.archives.remove(idx);
        self.archives.insert(idx, None);
        let _ = self.archives.remove(idx + 1);
        self.archives.insert(idx + 1, moved);
        proof {
            assert(self.archives@ =~= grown.update(idx as int, None).update(
                idx + 1,
                grown[idx as int],
            ));
            lemma_archives_shift(grown, idx as int);
        }
    }

    /// Moves the live store's rows into the first place of the list.
    fn hand_off(&mut self)
        requires
            old(self).wf(),
        ensures
            final(self).wf(),
            final(self)@.live.len() == 0,
            final(self)@.archives == old(self)@.archives.insert(1, old(self)@.live),
    {
        let mut moved = Table::new();
        std::mem::swap(&mut self.live, &mut moved);
        let ghost before = self.archives@;
        if self.archives.len() == 0 {
            self.archives.push(Some(moved));
        } else {
            let _ = self.archives.remove(0);
            self.archives.insert(0, Some(moved));
            assert(self.archives@ =~= before.update(0, Some(moved)));
        }
        proof {
            lemma_archives_first(before, moved);
            assert forall|n: int| self@.archives.dom().contains(n) implies is_table(
                #[trigger] self@.archives[n],
            ) by {
                if n != 1 {
                    assert(self@.archives[n] == old(self)@.archives[n]);
                }
            }
        }
    }

    /// Performs one step of a rotation.
    pub fn apply(&mut self, step: RotationStep)
        requires
            old(self).wf(),
        ensures
            final(self).wf(),
            final(self)@ == apply_step(old(self)@, step),
    {
        match step {
            RotationStep::Shift { from } => {
                let len = self.archives.len();
                if from >= 1 && (from as u64) <= (len as u64) {
                    let idx: usize = (from - 1) as usize;
                    if self.archives[idx].is_some() {
                        self.shift(idx);
                    }
                }
            },
            RotationStep::HandOff => {
                self.hand_off();
                assert(self@.live =~= Seq::<Row>::empty());
            },
        }
    }

    /// Performs one rotation with at most `max_number` archives.
    pub fn rotate(&mut self, max_number: i64)
        requires
            old(self).wf(),
        ensures
            final(self).wf(),
            final(self)@ == rotated(old(self)@, max_number as int),
    {
        let occupied = self.occupancy(max_number);
        let plan = rotation_plan(&occupied, max_number);
        proof {
            lemma_shift_steps_same(
                occupied@,
                occupancy(self@, max_number - 1),
                max_number - 1,
            );
            assert(plan@.skip(0) =~= plan@);
        }
        let mut i: usize = 0;
        while i < plan.len()
            invariant
                i <= plan@.len(),
                self.wf(),
                apply_steps(self@, plan@.skip(i as int)) == rotated(old(self)@, max_number as int),
            decreases plan@.len() - i,
        {
            assert(plan@.skip(i as int).drop_first() =~= plan@.skip(i + 1));
            self.apply(plan[i]);
            i = i + 1;
        }
    }
}

/// Moving the table at one place of the list to the next place moves the
/// archive of that number one number up.
proof fn lemma_archives_shift(tables: Seq<Option<Table>>, idx: int)
    requires
        0 <= idx,
        idx + 1 < tables.len(),
        tables[idx].is_some(),
    ensures
        archives_of(tables.update(idx, None).update(idx + 1, tables[idx])) == archives_of(
            tables,
        ).insert(idx + 2, archives_of(tables)[idx + 1]).remove(idx + 1),
{
    let after = tables.update(idx, None).update(idx + 1, tables[idx]);
    let expected = archives_of(tables).insert(idx + 2, archives_of(tables)[idx + 1]).remove(
        idx + 1,
    );
    assert forall|n: int| archives_of(after).dom().contains(n) == expected.dom().contains(
        n,
    ) by {}
    assert forall|n: int| archives_of(after).dom().contains(n) implies archives_of(after)[n]
        == expected[n] by {}
    assert(archives_of(after) =~= expected);
}

/// Putting a table at the first place of the list fills archive 1.
proof fn lemma_archives_first(tables: Seq<Option<Table>>, table: Table)
    ensures
        tables.len() == 0 ==> archives_of(tables.push(Some(table))) == archives_of(
            tables,
        ).insert(1, table@),
        tables.len() > 0 ==> archives_of(tables.update(0, Some(table))) == archives_of(
            tables,
        ).insert(1, table@),
{
    if tables.len() == 0 {
        assert(archives_of(tables.push(Some(table))) =~= archives_of(tables).insert(1, table@));
    } else {
        assert(archives_of(tables.update(0, Some(table))) =~= archives_of(tables).insert(
            1,
            table@,
        ));
    }
}

} // verus!
