//! Counting behaviour across the organisation at one step, and bookkeeping
//! of unreadable model replies. The rates reported per step are these counts
//! divided by the number of employees (or, for the motive mix, by the number
//! of silent employees with a motive).
use vstd::prelude::*;

use crate::world::Motive;

verus! {

/// What the metrics read of one employee at the end of a step.
#[derive(Clone, Copy, PartialEq, Eq, Debug, Structural)]
pub struct StepRecord {
    /// The employee voiced this step.
    pub voiced: bool,
    /// The employee withheld a concern this step.
    pub silenced: bool,
    /// Why the employee stayed silent, when silent with a motive.
    pub silence_motive: Option<Motive>,
    /// The employee's acquiescent motive exceeds one half.
    pub resigned: bool,
}

/// The number of records of `s` that satisfy `p`.
pub open spec fn count_where(s: Seq<StepRecord>, p: spec_fn(StepRecord) -> bool) -> nat
    decreases s.len(),
{
    if s.len() == 0 {
        0
    } else {
        count_where(s.drop_last(), p) + if p(s.last()) {
            1nat
        } else {
            0nat
        }
    }
}

pub open spec fn is_voiced(r: StepRecord) -> bool {
    r.voiced
}

pub open spec fn is_silenced(r: StepRecord) -> bool {
    r.silenced
}

/// Silent in resignation: the climate-of-silence indicator.
pub open spec fn is_resigned_silent(r: StepRecord) -> bool {
    r.silenced && r.resigned
}

pub open spec fn is_silent_with_motive(r: StepRecord) -> bool {
    r.silenced && r.silence_motive is Some
}

pub open spec fn is_silent_for(r: StepRecord, m: Motive) -> bool {
    r.silenced && r.silence_motive == Some(m)
}

/// Counts of one step.
pub struct StepTally {
    pub employees: usize,
    pub voiced: usize,
    pub silenced: usize,
    pub resigned_silent: usize,
    /// Silent employees with a motive, by motive in canonical order.
    pub acquiescent: usize,
    pub quiescent: usize,
    pub prosocial: usize,
    pub opportunistic: usize,
    /// Silent employees with a motive.
    pub with_motive: usize,
}

pub open spec fn tally_matches(t: StepTally, s: Seq<StepRecord>) -> bool {
    &&& t.employees == s.len()
    &&& t.voiced == count_where(s, |r: StepRecord| is_voiced(r))
    &&& t.silenced == count_where(s, |r: StepRecord| is_silenced(r))
    &&& t.resigned_silent == count_where(s, |r: StepRecord| is_resigned_silent(r))
    &&& t.acquiescent == count_where(s, |r: StepRecord| is_silent_for(r, Motive::Acquiescent))
    &&& t.quiescent == count_where(s, |r: StepRecord| is_silent_for(r, Motive::Quiescent))
    &&& t.prosocial == count_where(s, |r: StepRecord| is_silent_for(r, Motive::Prosocial))
    &&& t.opportunistic == count_where(s, |r: StepRecord| is_silent_for(r, Motive::Opportunistic))
    &&& t.with_motive == count_where(s, |r: StepRecord| is_silent_with_motive(r))
}

/// The count of a tally for motive `m`, found at the motive's canonical
/// position (`Motive::index`) in (acquiescent, quiescent, prosocial,
/// opportunistic).
pub open spec fn motive_count(t: StepTally, m: Motive) -> usize {
    seq![t.acquiescent, t.quiescent, t.prosocial, t.opportunistic][m.index_spec() as int]
}

/// The employee stayed silent with motive `m`.
pub open spec fn silent_with(r: StepRecord, m: Motive) -> bool {
    r.silenced && r.silence_motive == Some(m)
}

proof fn lemma_count_where_push(s: Seq<StepRecord>, r: StepRecord, p: spec_fn(StepRecord) -> bool)
    ensures
        count_where(s.push(r), p) == count_where(s, p) + if p(r) {
            1nat
        } else {
            0nat
        },
{
    assert(s.push(r).drop_last() == s);
}

proof fn lemma_count_where_same(s: Seq<StepRecord>, p: spec_fn(StepRecord) -> bool, q: spec_fn(StepRecord) -> bool)
    requires
        forall|r: StepRecord| #[trigger] p(r) == q(r),
    ensures
        count_where(s, p) == count_where(s, q),
    decreases s.len(),
{
    if s.len() > 0 {
        lemma_count_where_same(s.drop_last(), p, q);
    }
}

/// The count a tally keeps for each motive is the number of employees who
/// stayed silent with that motive.
pub proof fn lemma_tally_counts_each_motive(t: StepTally, s: Seq<StepRecord>, m: Motive)
    requires
        tally_matches(t, s),
    ensures
        motive_count(t, m) == count_where(s, |r: StepRecord| silent_with(r, m)),
{
    lemma_count_where_same(
        s,
        |r: StepRecord| is_silent_for(r, m),
        |r: StepRecord| silent_with(r, m),
    );
    match m {
        Motive::Acquiescent => {
            assert((|r: StepRecord| is_silent_for(r, m)) =~= (|r: StepRecord|
                is_silent_for(r, Motive::Acquiescent)));
        },
        Motive::Quiescent => {
            assert((|r: StepRecord| is_silent_for(r, m)) =~= (|r: StepRecord|
                is_silent_for(r, Motive::Quiescent)));
        },
        Motive::Prosocial => {
            assert((|r: StepRecord| is_silent_for(r, m)) =~= (|r: StepRecord|
                is_silent_for(r, Motive::Prosocial)));
        },
        Motive::Opportunistic => {
            assert((|r: StepRecord| is_silent_for(r, m)) =~= (|r: StepRecord|
                is_silent_for(r, Motive::Opportunistic)));
        },
    }
}

/// One more employee moves the tally by that employee alone: the count of a
/// motive grows by one exactly when the new employee stayed silent with that
/// motive, and the other motives' counts stay as they were.
pub proof fn lemma_tally_step(t1: StepTally, t2: StepTally, s: Seq<StepRecord>, r: StepRecord, m: Motive)
    requires
        tally_matches(t1, s),
        tally_matches(t2, s.push(r)),
    ensures
        motive_count(t2, m) == motive_count(t1, m) + if r.silenced && r.silence_motive == Some(m) {
            1int
        } else {
            0int
        },
        t2.with_motive == t1.with_motive + if r.silenced && r.silence_motive is Some {
            1int
        } else {
            0int
        },
        t2.silenced == t1.silenced + if r.silenced {
            1int
        } else {
            0int
        },
        t2.voiced == t1.voiced + if r.voiced {
            1int
        } else {
            0int
        },
{
    lemma_tally_counts_each_motive(t1, s, m);
    lemma_tally_counts_each_motive(t2, s.push(r), m);
    lemma_count_where_push(s, r, |x: StepRecord| silent_with(x, m));
    lemma_count_where_push(s, r, |x: StepRecord| is_silent_with_motive(x));
    lemma_count_where_push(s, r, |x: StepRecord| is_silenced(x));
    lemma_count_where_push(s, r, |x: StepRecord| is_voiced(x));
}

/// Count, over all employees, who voiced, who stayed silent, who stayed silent
/// in resignation, and the motives of the silent.
pub fn tally(records: &Vec<StepRecord>) -> (t: StepTally)
    ensures
        tally_matches(t, records@),
        t.voiced <= t.employees,
        t.resigned_silent <= t.silenced,
        t.with_motive <= t.silenced,
        t.silenced <= t.employees,
        t.acquiescent + t.quiescent + t.prosocial + t.opportunistic == t.with_motive,
{
    let n = records.len();
    let mut t = StepTally {
        employees: n,
        voiced: 0,
        silenced: 0,
        resigned_silent: 0,
        acquiescent: 0,
        quiescent: 0,
        prosocial: 0,
        opportunistic: 0,
        with_motive: 0,
    };
    for k in 0..n
        invariant
            n == records@.len(),
            t.employees == n,
            tally_matches(
                StepTally { employees: k, ..t },
                records@.take(k as int),
            ),
            t.voiced <= k,
            t.resigned_silent <= t.silenced,
            t.with_motive <= t.silenced,
            t.silenced <= k,
            t.acquiescent + t.quiescent + t.prosocial + t.opportunistic == t.with_motive,
    {
        let r = records[k];
        proof {
            assert(records@.take(k + 1).drop_last() == records@.take(k as int));
            assert(records@.take(k + 1).last() == r);
        }
        if r.voiced {
            t.voiced = t.voiced + 1;
        }
        if r.silenced {
            t.silenced = t.silenced + 1;
            if r.resigned {
                t.resigned_silent = t.resigned_silent + 1;
            }
            match r.silence_motive {
                Some(Motive::Acquiescent) => {
                    t.acquiescent = t.acquiescent + 1;
                    t.with_motive = t.with_motive + 1;
                },
                Some(Motive::Quiescent) => {
                    t.quiescent = t.quiescent + 1;
                    t.with_motive = t.with_motive + 1;
                },
                Some(Motive::Prosocial) => {
                    t.prosocial = t.prosocial + 1;
                    t.with_motive = t.with_motive + 1;
                },
                Some(Motive::Opportunistic) => {
                    t.opportunistic = t.opportunistic + 1;
                    t.with_motive = t.with_motive + 1;
                },
                None => {},
            }
        }
    }
    assert(records@.take(n as int) == records@);
    t
}

/// Label written to the panel's motive column: the motive's label, or `-`
/// when the employee has none.
pub open spec fn panel_motive_label_spec(m: Option<Motive>) -> Seq<char> {
    match m {
        Some(mo) => mo.label_spec(),
        None => "-"@,
    }
}

pub fn panel_motive_label(m: Option<Motive>) -> (r: &'static str)
    ensures
        r@ == panel_motive_label_spec(m),
{
    match m {
        Some(mo) => mo.label(),
        None => "-",
    }
}

/// Record one read model reply in the (failures, total) counter.
pub fn record_parse_outcome(counts: &mut (usize, usize), failed: bool)
    requires
        old(counts).1 < usize::MAX,
        failed ==> old(counts).0 < usize::MAX,
    ensures
        final(counts).1 == old(counts).1 + 1,
        final(counts).0 == old(counts).0 + if failed {
            1int
        } else {
            0int
        },
        old(counts).0 <= old(counts).1 ==> final(counts).0 <= final(counts).1,
{
    counts.1 = counts.1 + 1;
    if failed {
        counts.0 = counts.0 + 1;
    }
}

} // verus!
