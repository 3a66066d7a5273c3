//! The columns that a commitment tree is built from.

use crate::column::{columns, is_shape, BaseFieldVec};
use vstd::arithmetic::power2::pow2;
use vstd::prelude::*;

verus! {

/// The logarithm of the largest domain that a column can be an evaluation on.
pub const MAX_LOG_SIZE: u32 = 30;

/// An evaluation over the canonic circle domain of the given size, in bit-reversed order.
pub struct CircleEvaluation {
    pub log_size: u32,
    pub values: BaseFieldVec,
}

/// A committed column: the logarithm of its domain's size, and its values.
pub type Committed = (u32, Seq<u32>);

/// Collects evaluations in the order in which they are committed.
pub struct TreeBuilder {
    pub evals: Vec<CircleEvaluation>,
}

/// The given columns as evaluations over the domain of the given size.
pub open spec fn committed(log_size: u32, cols: Seq<Seq<u32>>) -> Seq<Committed> {
    Seq::new(cols.len(), |i: int| (log_size, cols[i]))
}

/// The columns are evaluations over a domain of the given size.
pub open spec fn are_evaluations(cols: Seq<Seq<u32>>, log_size: u32) -> bool {
    &&& 0 < log_size <= MAX_LOG_SIZE
    &&& is_shape(cols, cols.len(), pow2(log_size as nat))
}

impl View for TreeBuilder {
    type V = Seq<Committed>;

    open spec fn view(&self) -> Seq<Committed> {
        Seq::new(self.evals@.len(), |i: int| (self.evals@[i].log_size, self.evals@[i].values@))
    }
}

impl TreeBuilder {
    /// Returns a builder without columns.
    pub fn new() -> (r: Self)
        ensures
            r@ == Seq::<Committed>::empty(),
    {
        let r = TreeBuilder { evals: Vec::new() };
        assert(r@ =~= Seq::<Committed>::empty());
        r
    }

    /// Appends the columns, as evaluations over the domain of size two to the power of
    /// `log_size`.
    pub fn extend_evals(&mut self, log_size: u32, cols: Vec<BaseFieldVec>)
        requires
            are_evaluations(columns(cols@), log_size),
        ensures
            final(self)@ == old(self)@ + committed(log_size, columns(cols@)),
    {
        let ghost all = columns(cols@);
        let mut cols = cols;
        let mut added: Vec<CircleEvaluation> = Vec::new();
        let n = cols.len();
        let ghost first = self@;
        while cols.len() > 0
            invariant
                n == all.len(),
                cols.len() + added.len() == n,
                columns(cols@) == all.take(cols@.len() as int),
                forall|i: int|
                    0 <= i < added.len() ==> (#[trigger] added@[i]).log_size == log_size
                        && added@[i].values@ == all[n - 1 - i],
            decreases cols.len(),
        {
            let ghost before = cols@;
            let col = cols.pop().unwrap();
            assert(col@ == columns(before)[before.len() - 1]);
            assert(columns(cols@) =~= columns(before).drop_last());
            assert(columns(cols@) =~= all.take(cols@.len() as int));
            added.push(CircleEvaluation { log_size, values: col });
        }
        while added.len() > 0
            invariant
                n == all.len(),
                added.len() <= n,
                self@ == first + committed(log_size, all.take(n - added.len())),
                forall|i: int|
                    0 <= i < added.len() ==> (#[trigger] added@[i]).log_size == log_size
                        && added@[i].values@ == all[n - 1 - i],
            decreases added.len(),
        {
            let ghost k = n - added.len();
            let ghost before = self.evals@;
            let ghost before_view = self@;
            let last = added.pop().unwrap();
            assert(last.values@ == all[k]);
            self.evals.push(last);
            assert(self@ =~= before_view.push((log_size, all[k])));
            assert(committed(log_size, all.take(k + 1)) =~= committed(log_size, all.take(k)).push(
                (log_size, all[k]),
            ));
            assert(self@ =~= first + committed(log_size, all.take(k + 1)));
        }
        assert(all.take(n as int) =~= all);
    }
}

/// Every column is committed once, in its place, over the domain of the given size.
pub proof fn law_columns_are_committed_in_order(log_size: u32, cols: Seq<Seq<u32>>, i: int)
    requires
        0 <= i < cols.len(),
    ensures
        committed(log_size, cols).len() == cols.len(),
        committed(log_size, cols)[i].0 == log_size,
        committed(log_size, cols)[i].1 == cols[i],
{
}

} // verus!
