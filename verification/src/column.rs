//! Device columns.
//!
//! A column is held by its contents, the `u32` values that stand in device memory.

use vstd::prelude::*;

verus! {

/// A column of words; most often each word is a base field element.
pub struct BaseFieldVec {
    pub values: Vec<u32>,
}

/// A column whose words are plain numbers: multiplicities, or the words of a hash.
pub type Uint32Vec = BaseFieldVec;

impl View for BaseFieldVec {
    type V = Seq<u32>;

    open spec fn view(&self) -> Seq<u32> {
        self.values@
    }
}

/// The contents of a list of columns.
pub open spec fn columns(cols: Seq<BaseFieldVec>) -> Seq<Seq<u32>> {
    Seq::new(cols.len(), |i: int| cols[i]@)
}

/// The contents of a list of lists of columns.
pub open spec fn batches(groups: Seq<Vec<BaseFieldVec>>) -> Seq<Seq<Seq<u32>>> {
    Seq::new(groups.len(), |i: int| columns(groups[i]@))
}

/// `n` copies of `value`.
pub open spec fn filled(value: u32, n: nat) -> Seq<u32> {
    Seq::new(n, |i: int| value)
}

/// `width` columns of `len` zeroes each.
pub open spec fn zero_columns(width: nat, len: nat) -> Seq<Seq<u32>> {
    Seq::new(width, |i: int| filled(0, len))
}

/// There are `width` columns and each holds `len` values.
pub open spec fn is_shape(cols: Seq<Seq<u32>>, width: nat, len: nat) -> bool {
    &&& cols.len() == width
    &&& forall|i: int| 0 <= i < cols.len() ==> (#[trigger] cols[i]).len() == len
}

/// Every value is a canonical base field element.
pub open spec fn is_canonical(values: Seq<u32>) -> bool {
    forall|i: int| 0 <= i < values.len() ==> #[trigger] values[i] < crate::field::P
}

/// The column continued to `size` values by repeating its first `cycle` values.
pub open spec fn cycled(values: Seq<u32>, size: nat, cycle: nat) -> Seq<u32> {
    Seq::new(
        size,
        |i: int|
            if i < values.len() {
                values[i]
            } else {
                values[(i - values.len()) % (cycle as int)]
            },
    )
}

impl BaseFieldVec {
    /// Returns a column of zeroes.
    pub fn new_zeroes(size: usize) -> (r: Self)
        ensures
            r@ == filled(0, size as nat),
    {
        let values = vec![0u32; size];
        assert(values@ =~= filled(0, size as nat));
        BaseFieldVec { values }
    }

    /// Returns a column with the given values.
    pub fn from_vec(values: Vec<u32>) -> (r: Self)
        ensures
            r@ == values@,
    {
        BaseFieldVec { values }
    }

    /// Returns the values of the column.
    pub fn to_vec(&self) -> (r: Vec<u32>)
        ensures
            r@ == self@,
    {
        let r = self.values.clone();
        assert(r@ =~= self@);
        r
    }

    /// Returns the number of values.
    pub fn size(&self) -> (n: usize)
        ensures
            n == self@.len(),
    {
        self.values.len()
    }

    /// Returns another column with the same values.
    pub fn duplicate(&self) -> (r: Self)
        ensures
            r@ == self@,
    {
        BaseFieldVec { values: self.to_vec() }
    }

    /// Appends the values of another column.
    pub fn extend(&mut self, other: &BaseFieldVec)
        ensures
            final(self)@ == old(self)@ + other@,
    {
        let mut i: usize = 0;
        while i < other.values.len()
            invariant
                i <= other.values.len(),
                self@ == old(self)@ + other@.take(i as int),
            decreases other.values.len() - i,
        {
            self.values.push(other.values[i]);
            i = i + 1;
            assert(other@.take(i as int) =~= other@.take(i - 1).push(other@[i - 1]));
            assert(self@ =~= old(self)@ + other@.take(i as int));
        }
        assert(other@.take(i as int) =~= other@);
    }

    /// Continues the column to `padded_size` values by repeating its first `cycle` values.
    pub fn pad_with_cycle(&mut self, padded_size: usize, cycle: usize)
        requires
            0 < cycle,
            old(self)@.len() <= padded_size,
            padded_size - old(self)@.len() <= old(self)@.len() || cycle <= old(self)@.len(),
        ensures
            final(self)@ == cycled(old(self)@, padded_size as nat, cycle as nat),
    {
        let n = self.values.len();
        let ghost first = self@;
        let mut k: usize = 0;
        let mut i: usize = n;
        assert(self@ =~= cycled(first, n as nat, cycle as nat));
        assert(0int % (cycle as int) == 0) by {
            vstd::arithmetic::div_mod::lemma_small_mod(0, cycle as nat);
        }
        while i < padded_size
            invariant
                n == first.len(),
                n <= i <= padded_size,
                0 < cycle,
                0 <= k < cycle,
                k == (i - n) % (cycle as int),
                padded_size - n <= n || cycle <= n,
                self.values@.len() == i,
                self@ == cycled(first, i as nat, cycle as nat),
            decreases padded_size - i,
        {
            proof {
                assert((i - n) % (cycle as int) <= i - n) by (nonlinear_arith)
                    requires
                        i >= n,
                        cycle > 0,
                ;
            }
            let v = self.values[k];
            self.values.push(v);
            proof {
                assert(v == first[k as int]);
                lemma_cycle_step(i - n, cycle as int);
            }
            k = if k + 1 == cycle {
                0
            } else {
                k + 1
            };
            i = i + 1;
            assert(self@ =~= cycled(first, i as nat, cycle as nat));
        }
    }

    /// Sets every value from position `start` on to zero.
    pub fn fill_zero_from(&mut self, start: usize)
        requires
            start <= old(self)@.len(),
        ensures
            final(self)@ == old(self)@.take(start as int) + filled(
                0,
                (old(self)@.len() - start) as nat,
            ),
    {
        let n = self.values.len();
        let mut i: usize = start;
        let ghost first = self@;
        while i < n
            invariant
                n == first.len() == self.values@.len(),
                start <= i <= n,
                forall|j: int|
                    0 <= j < n ==> self.values@[j] == (if start <= j < i {
                        0
                    } else {
                        first[j]
                    }),
            decreases n - i,
        {
            self.values.set(i, 0);
            i = i + 1;
        }
        assert(self@ =~= first.take(start as int) + filled(0, (n - start) as nat));
    }
}

proof fn lemma_cycle_step(d: int, cycle: int)
    requires
        0 <= d,
        0 < cycle,
    ensures
        (d + 1) % cycle == (if d % cycle + 1 == cycle {
            0
        } else {
            d % cycle + 1
        }),
{
    let q = d / cycle;
    vstd::arithmetic::div_mod::lemma_fundamental_div_mod(d, cycle);
    vstd::arithmetic::div_mod::lemma_mod_bound(d, cycle);
    if d % cycle + 1 == cycle {
        assert(d + 1 == (q + 1) * cycle + 0) by (nonlinear_arith)
            requires
                d == cycle * q + d % cycle,
                d % cycle + 1 == cycle,
        ;
        vstd::arithmetic::div_mod::lemma_fundamental_div_mod_converse(d + 1, cycle, q + 1, 0);
    } else {
        assert(d + 1 == q * cycle + (d % cycle + 1)) by (nonlinear_arith)
            requires
                d == cycle * q + d % cycle,
        ;
        vstd::arithmetic::div_mod::lemma_fundamental_div_mod_converse(
            d + 1,
            cycle,
            q,
            d % cycle + 1,
        );
    }
}

/// Padding keeps the values of a column and adds nothing but copies of its first values.
pub proof fn law_padding_keeps_the_values(values: Seq<u32>, size: nat, cycle: nat)
    requires
        0 < cycle <= values.len() <= size,
    ensures
        cycled(values, size, cycle).take(values.len() as int) == values,
        forall|i: int|
            values.len() <= i < size ==> values.take(cycle as int).contains(
                #[trigger] cycled(values, size, cycle)[i],
            ),
{
    assert(cycled(values, size, cycle).take(values.len() as int) =~= values);
    assert forall|i: int| values.len() <= i < size implies values.take(cycle as int).contains(
        #[trigger] cycled(values, size, cycle)[i],
    ) by {
        let k = (i - values.len()) % (cycle as int);
        vstd::arithmetic::div_mod::lemma_mod_bound(i - values.len(), cycle as int);
        assert(values.take(cycle as int)[k] == cycled(values, size, cycle)[i]);
    }
}

/// Returns other columns with the same values.
pub fn duplicate_columns(cols: &Vec<BaseFieldVec>) -> (r: Vec<BaseFieldVec>)
    ensures
        columns(r@) == columns(cols@),
{
    let mut r: Vec<BaseFieldVec> = Vec::new();
    let mut i: usize = 0;
    while i < cols.len()
        invariant
            i <= cols.len(),
            r.len() == i,
            forall|j: int| 0 <= j < i ==> (#[trigger] r@[j])@ == cols@[j]@,
        decreases cols.len() - i,
    {
        r.push(cols[i].duplicate());
        i = i + 1;
    }
    assert(columns(r@) =~= columns(cols@));
    r
}

/// Returns `width` columns of `len` zeroes each.
pub fn new_zero_columns(width: usize, len: usize) -> (r: Vec<BaseFieldVec>)
    ensures
        columns(r@) == zero_columns(width as nat, len as nat),
        is_shape(columns(r@), width as nat, len as nat),
{
    let mut r: Vec<BaseFieldVec> = Vec::new();
    let mut i: usize = 0;
    while i < width
        invariant
            i <= width,
            r.len() == i,
            forall|j: int| 0 <= j < i ==> (#[trigger] r@[j])@ == filled(0, len as nat),
        decreases width - i,
    {
        r.push(BaseFieldVec::new_zeroes(len));
        i = i + 1;
    }
    assert(columns(r@) =~= zero_columns(width as nat, len as nat));
    r
}

/// Behind the values of a column its first `cycle` values stand again and again, in their order:
/// the one at `k` stands at every place `cycle * q + k` behind them.
pub proof fn law_padding_repeats_the_first_values(
    values: Seq<u32>,
    size: nat,
    cycle: nat,
    q: nat,
    k: nat,
)
    requires
        0 < cycle <= values.len(),
        k < cycle,
        values.len() + cycle * q + k < size,
    ensures
        cycled(values, size, cycle).len() == size,
        cycled(values, size, cycle)[(values.len() + cycle * q + k) as int] == values[k as int],
{
    let d = cycle * q + k;
    assert(d >= 0) by (nonlinear_arith)
        requires
            d == cycle * q + k,
            cycle >= 0,
            q >= 0,
            k >= 0,
    ;
    assert(d == q * cycle + k) by (nonlinear_arith)
        requires
            d == cycle * q + k,
    ;
    vstd::arithmetic::div_mod::lemma_fundamental_div_mod_converse(
        d as int,
        cycle as int,
        q as int,
        k as int,
    );
}

} // verus!
