//! Where a shot stands in a cohort of players.
//!
//! A [`CohortTable`] holds, for one metric of one skill tier, the values at
//! which chosen percentiles are reached. The tables are reference data of the
//! caller: made once, read ever after.

use crate::decimal::{lemma_order_laws, Decimal};
use crate::outcome::DerivedShotValues;
use vstd::prelude::*;

verus! {

/// A mark of a table: a player at `value` stands at `percentile`.
#[derive(Clone, Copy, Debug, PartialEq, Eq, Structural)]
pub struct Mark {
    pub value: Decimal,
    pub percentile: u8,
}

/// The marks make a table: there is a mark, the values rise from each mark
/// to the next, the percentiles never fall, and none is above a hundred.
pub open spec fn marks_wf(marks: Seq<Mark>) -> bool {
    &&& marks.len() >= 1
    &&& forall|i: int, j: int|
        0 <= i < j < marks.len() ==> (#[trigger] marks[i]).value.spec_lt((#[trigger] marks[j]).value)
    &&& forall|i: int, j: int|
        0 <= i < j < marks.len() ==> (#[trigger] marks[i]).percentile <= (
        #[trigger] marks[j]).percentile
    &&& forall|i: int| 0 <= i < marks.len() ==> (#[trigger] marks[i]).percentile <= 100
}

/// The place of a value among the first `n` marks: the last of them that the
/// value reaches, or the first mark for a value that reaches none.
pub open spec fn place(marks: Seq<Mark>, value: Decimal, n: int) -> int
    decreases n,
{
    if n <= 1 {
        0
    } else if marks[n - 1].value.spec_le(value) {
        n - 1
    } else {
        place(marks, value, n - 1)
    }
}

/// The percentile at which a value stands: that of its place. A value below
/// the first mark stands at the first percentile, a value above the last at
/// the last.
pub open spec fn standing(marks: Seq<Mark>, value: Decimal) -> u8 {
    marks[place(marks, value, marks.len() as int)].percentile
}

/// The place of a value is a mark that the value reaches, unless it is the
/// first, and the value reaches no later mark.
pub proof fn lemma_place(marks: Seq<Mark>, value: Decimal, n: int)
    requires
        1 <= n <= marks.len(),
    ensures
        0 <= place(marks, value, n) < n,
        place(marks, value, n) > 0 ==> marks[place(marks, value, n)].value.spec_le(value),
        forall|j: int|
            place(marks, value, n) < j < n ==> !(#[trigger] marks[j]).value.spec_le(value),
    decreases n,
{
    if n > 1 && !marks[n - 1].value.spec_le(value) {
        lemma_place(marks, value, n - 1);
    }
}

/// A larger value never stands at a smaller percentile.
pub proof fn lemma_standing_is_monotonic(marks: Seq<Mark>, low: Decimal, high: Decimal)
    requires
        marks_wf(marks),
        low.spec_le(high),
    ensures
        standing(marks, low) <= standing(marks, high),
{
    let n = marks.len() as int;
    let p = place(marks, low, n);
    let q = place(marks, high, n);
    lemma_place(marks, low, n);
    lemma_place(marks, high, n);
    if p > q {
        lemma_order_laws(marks[p].value, low, high);
        assert(marks[p].value.spec_le(high));
        assert(!marks[p].value.spec_le(high));
    }
}

/// Values outside the table stand at its ends.
pub proof fn lemma_standing_clamps(marks: Seq<Mark>, value: Decimal)
    requires
        marks_wf(marks),
    ensures
        value.spec_lt(marks[0].value) ==> standing(marks, value) == marks[0].percentile,
        marks.last().value.spec_le(value) ==> standing(marks, value) == marks.last().percentile,
        standing(marks, value) <= 100,
{
    let n = marks.len() as int;
    let p = place(marks, value, n);
    lemma_place(marks, value, n);
    if value.spec_lt(marks[0].value) && p > 0 {
        lemma_order_laws(marks[0].value, marks[p].value, value);
        lemma_order_laws(value, marks[0].value, marks[p].value);
        if p > 0 {
            assert(marks[0].value.spec_lt(marks[p].value));
        }
        lemma_order_laws(marks[0].value, value, value);
    }
}

/// The marks of one metric in one skill tier.
pub struct CohortTable {
    marks: Vec<Mark>,
}

impl CohortTable {
    /// The marks, from the lowest value on.
    pub closed spec fn view(self) -> Seq<Mark> {
        self.marks@
    }

    #[verifier::type_invariant]
    closed spec fn well_formed(self) -> bool {
        marks_wf(self.marks@)
    }

    /// Makes a table of the marks, or `None` where they make none.
    pub fn new(marks: Vec<Mark>) -> (r: Option<CohortTable>)
        ensures
            r is Some <==> marks_wf(marks@),
            r is Some ==> r->Some_0@ == marks@,
    {
        let n = marks.len();
        if n == 0 {
            return None;
        }
        if marks[0].percentile > 100 {
            return None;
        }
        let mut k: usize = 1;
        while k < n
            invariant
                n == marks@.len(),
                1 <= k <= n,
                marks_wf(marks@.take(k as int)),
            decreases n - k,
        {
            let ghost part = marks@.take(k as int);
            let ghost next = marks@.take(k + 1);
            if !marks[k - 1].value.lt(&marks[k].value) || marks[k - 1].percentile
                > marks[k].percentile || marks[k].percentile > 100 {
                proof {
                    if marks_wf(marks@) {
                        assert(marks@[k - 1].value.spec_lt(marks@[k as int].value));
                        assert(marks@[k - 1].percentile <= marks@[k as int].percentile);
                        assert(marks@[k as int].percentile <= 100);
                    }
                }
                return None;
            }
            proof {
                assert forall|i: int, j: int| 0 <= i < j < next.len() implies (#[trigger] next[i]).value.spec_lt(
                    (#[trigger] next[j]).value,
                ) && next[i].percentile <= next[j].percentile by {
                    if j < k {
                        assert(part[i].value.spec_lt(part[j].value));
                        assert(part[i].percentile <= part[j].percentile);
                    } else if i < k - 1 {
                        assert(part[i].value.spec_lt(part[k - 1].value));
                        assert(part[i].percentile <= part[k - 1].percentile);
                        lemma_order_laws(next[i].value, marks@[k - 1].value, next[j].value);
                    }
                }
                assert forall|i: int| 0 <= i < next.len() implies (#[trigger] next[i]).percentile
                    <= 100 by {
                    if i < k {
                        assert(part[i].percentile <= 100);
                    }
                }
            }
            k = k + 1;
        }
        assert(marks@.take(n as int) =~= marks@);
        Some(CohortTable { marks })
    }

    /// The marks of the table.
    pub fn marks(&self) -> (r: &Vec<Mark>)
        ensures
            r@ == self@,
            marks_wf(self@),
    {
        proof {
            use_type_invariant(self);
        }
        &self.marks
    }

    /// The percentile at which a value stands in the table.
    pub fn percentile_of(&self, value: &Decimal) -> (r: u8)
        ensures
            marks_wf(self@),
            r == standing(self@, *value),
            r <= 100,
    {
        proof {
            use_type_invariant(self);
            lemma_standing_clamps(self@, *value);
        }
        let mut k: usize = self.marks.len();
        while k > 1
            invariant
                marks_wf(self.marks@),
                standing(self.marks@, *value) <= 100,
                1 <= k <= self.marks@.len(),
                place(self.marks@, *value, self.marks@.len() as int) == place(
                    self.marks@,
                    *value,
                    k as int,
                ),
            decreases k,
        {
            if self.marks[k - 1].value.le(value) {
                return self.marks[k - 1].percentile;
            }
            k = k - 1;
        }
        self.marks[0].percentile
    }
}

/// The tables of one skill tier: one for each metric that is compared.
pub struct Cohort {
    pub carry_distance: CohortTable,
    pub club_speed: CohortTable,
    pub smash_factor: CohortTable,
}

/// Where a shot stands in a cohort: a percentile for each metric.
#[derive(Clone, Copy, Debug, PartialEq, Eq, Structural)]
pub struct Standing {
    pub carry_distance: u8,
    pub club_speed: u8,
    pub smash_factor: u8,
}

/// Where a shot stands in a cohort: for each metric the percentile at which
/// its value stands in the table of the metric.
pub open spec fn standing_of(cohort: Cohort, d: DerivedShotValues) -> Standing {
    Standing {
        carry_distance: standing(cohort.carry_distance@, d.carry_distance),
        club_speed: standing(cohort.club_speed@, d.club_speed),
        smash_factor: standing(cohort.smash_factor@, d.smash_factor),
    }
}

/// Compares the derived values of a shot with a cohort.
pub fn compare(d: &DerivedShotValues, cohort: &Cohort) -> (r: Standing)
    ensures
        r == standing_of(*cohort, *d),
        r.carry_distance <= 100 && r.club_speed <= 100 && r.smash_factor <= 100,
{
    Standing {
        carry_distance: cohort.carry_distance.percentile_of(&d.carry_distance),
        club_speed: cohort.club_speed.percentile_of(&d.club_speed),
        smash_factor: cohort.smash_factor.percentile_of(&d.smash_factor),
    }
}

} // verus!
