//! The input document: the ordered segments and the free-text parameters.

use vstd::prelude::*;
use crate::period::period_of;

verus! {

broadcast use vstd::string::group_string_axioms;

/// One segment as it is entered: the text of its end period and its formula.
#[derive(Clone, PartialEq, Eq, Debug)]
pub struct Row {
    /// End of the segment, in periods counted from 0.
    pub end: String,
    /// The formula that governs the segment.
    pub expr: String,
}

impl Default for Row {
    fn default() -> (row: Self)
        ensures
            row.end@ == Seq::<char>::empty(),
            row.expr@ == Seq::<char>::empty(),
    {
        Row { end: String::new(), expr: String::new() }
    }
}

/// The whole input document.  Every numeric field is free text.
#[derive(Clone, PartialEq, Eq, Debug)]
pub struct StateData {
    pub rows: Vec<Row>,
    /// Terminal growth rate per period.
    pub growth: String,
    /// Discount rate per period.
    pub discount: String,
    /// Step hint of the ODE integration.
    pub ode_step_size: String,
    /// Whether the chart shows the series on a logarithmic scale.
    pub use_log_scale: bool,
}

impl Default for StateData {
    fn default() -> (state: Self)
        ensures
            state.rows@ == Seq::<Row>::empty(),
            state.growth@ == "1.02"@,
            state.discount@ == "1.03"@,
            state.ode_step_size@ == "0.01"@,
            !state.use_log_scale,
    {
        StateData {
            rows: Vec::new(),
            growth: "1.02".to_owned(),
            discount: "1.03".to_owned(),
            ode_step_size: "0.01".to_owned(),
            use_log_scale: false,
        }
    }
}

impl StateData {
    /// Appends an empty segment.
    pub fn push_row(&mut self)
        ensures
            final(self).rows@.len() == old(self).rows@.len() + 1,
            final(self).rows@.drop_last() == old(self).rows@,
            final(self).rows@.last().end@ == Seq::<char>::empty(),
            final(self).rows@.last().expr@ == Seq::<char>::empty(),
            final(self).growth == old(self).growth,
            final(self).discount == old(self).discount,
            final(self).ode_step_size == old(self).ode_step_size,
            final(self).use_log_scale == old(self).use_log_scale,
    {
        self.rows.push(Row { end: String::new(), expr: String::new() });
        assert(self.rows@.drop_last() =~= old(self).rows@);
    }

    /// Removes the last segment, if there is one.
    pub fn pop_row(&mut self)
        ensures
            old(self).rows@.len() == 0 ==> final(self).rows@ == old(self).rows@,
            old(self).rows@.len() > 0 ==> final(self).rows@ == old(self).rows@.drop_last(),
            final(self).growth == old(self).growth,
            final(self).discount == old(self).discount,
            final(self).ode_step_size == old(self).ode_step_size,
            final(self).use_log_scale == old(self).use_log_scale,
    {
        self.rows.pop();
    }
}

impl Row {
    /// A copy of the row.
    pub fn duplicate(&self) -> (copy: Row)
        ensures
            copy == *self,
    {
        Row { end: self.end.clone(), expr: self.expr.clone() }
    }
}

/// The two documents hold the same segments and the same parameters: what a
/// projection and its valuation are computed from.
pub open spec fn same_inputs(a: &StateData, b: &StateData) -> bool {
    &&& a.rows@ == b.rows@
    &&& a.growth == b.growth
    &&& a.discount == b.discount
    &&& a.ode_step_size == b.ode_step_size
}

/// The two documents read the same: segment by segment and parameter by
/// parameter their texts are equal.
pub open spec fn same_text(a: &StateData, b: &StateData) -> bool {
    &&& a.rows@.len() == b.rows@.len()
    &&& forall|k: int|
        0 <= k < a.rows@.len() ==> (#[trigger] a.rows@[k]).end@ == b.rows@[k].end@
            && a.rows@[k].expr@ == b.rows@[k].expr@
    &&& a.growth@ == b.growth@
    &&& a.discount@ == b.discount@
    &&& a.ode_step_size@ == b.ode_step_size@
}

impl StateData {
    /// A copy of the document.
    pub fn duplicate(&self) -> (copy: StateData)
        ensures
            same_inputs(&copy, self),
            copy.use_log_scale == self.use_log_scale,
    {
        let mut rows: Vec<Row> = Vec::new();
        let mut k: usize = 0;
        while k < self.rows.len()
            invariant
                k <= self.rows.len(),
                rows@ == self.rows@.take(k as int),
            decreases self.rows.len() - k,
        {
            rows.push(self.rows[k].duplicate());
            k += 1;
            assert(rows@ =~= self.rows@.take(k as int));
        }
        assert(self.rows@.take(self.rows.len() as int) =~= self.rows@);
        StateData {
            rows,
            growth: self.growth.clone(),
            discount: self.discount.clone(),
            ode_step_size: self.ode_step_size.clone(),
            use_log_scale: self.use_log_scale,
        }
    }

    /// Tells whether the other document reads the same in every field that a
    /// projection and its valuation depend on.
    pub fn reads_as(&self, other: &StateData) -> (same: bool)
        ensures
            same == same_text(self, other),
    {
        if self.rows.len() != other.rows.len() || self.growth != other.growth || self.discount
            != other.discount || self.ode_step_size != other.ode_step_size {
            return false;
        }
        let mut k: usize = 0;
        while k < self.rows.len()
            invariant
                k <= self.rows.len(),
                self.rows.len() == other.rows.len(),
                forall|j: int|
                    0 <= j < k ==> (#[trigger] self.rows@[j]).end@ == other.rows@[j].end@
                        && self.rows@[j].expr@ == other.rows@[j].expr@,
            decreases self.rows.len() - k,
        {
            if self.rows[k].end != other.rows[k].end || self.rows[k].expr != other.rows[k].expr {
                return false;
            }
            k += 1;
        }
        true
    }
}

/// The end period of segment `k`: what its text stands for, 0 where it is no
/// numeral.
pub open spec fn end_period(rows: Seq<Row>, k: int) -> usize {
    period_of(rows[k].end@)
}

/// The period at which segment `k` starts: the end of the segment before it,
/// and 0 for the first.
pub open spec fn start_period(rows: Seq<Row>, k: int) -> usize {
    if k <= 0 {
        0
    } else {
        end_period(rows, k - 1)
    }
}

/// The number of periods of segment `k`.
pub open spec fn segment_length(rows: Seq<Row>, k: int) -> nat {
    (end_period(rows, k) - start_period(rows, k)) as nat
}

/// No segment ends before the one in front of it.
pub open spec fn ordered(rows: Seq<Row>) -> bool {
    forall|k: int| 0 <= k < rows.len() ==> start_period(rows, k) <= #[trigger] end_period(rows, k)
}

} // verus!
