//! What components are fed with.

use crate::bits::{
    ceil_log2, ilog2, lemma_floor_log2_of_pow2, lemma_padding_is_shorter, lemma_pow2_bound,
    next_power_of_two, padded_rows, padded_size, N_LANES,
};
use crate::column::{
    batches, columns, cycled, duplicate_columns, is_shape, new_zero_columns, zero_columns,
    BaseFieldVec,
};
use vstd::arithmetic::power2::pow2;
use vstd::prelude::*;

verus! {

/// The registers before a step of the machine.
#[derive(Clone, Copy, Debug, PartialEq, Eq, Structural)]
pub struct CasmState {
    pub pc: u32,
    pub ap: u32,
    pub fp: u32,
}

/// The inputs that a component has been fed with, in the order in which they came. An input is a
/// batch of rows: one column for each of its fields.
pub struct ComponentInputs {
    pub fed: Vec<Vec<BaseFieldVec>>,
}

impl View for ComponentInputs {
    type V = Seq<Seq<Seq<u32>>>;

    open spec fn view(&self) -> Seq<Seq<Seq<u32>>> {
        batches(self.fed@)
    }
}

impl ComponentInputs {
    /// Returns a component that has not been fed.
    pub fn new() -> (r: Self)
        ensures
            r@ == Seq::<Seq<Seq<u32>>>::empty(),
    {
        let r = ComponentInputs { fed: Vec::new() };
        assert(r@ =~= Seq::<Seq<Seq<u32>>>::empty());
        r
    }

    /// Feeds one input.
    pub fn add_cuda_input(&mut self, input: &Vec<BaseFieldVec>)
        ensures
            final(self)@ == old(self)@.push(columns(input@)),
    {
        let ghost before = self@;
        self.fed.push(duplicate_columns(input));
        assert(self@ =~= before.push(columns(input@)));
    }

    /// Feeds the inputs one after the other.
    pub fn add_cuda_inputs(&mut self, inputs: &Vec<Vec<BaseFieldVec>>)
        ensures
            final(self)@ == old(self)@ + batches(inputs@),
    {
        let ghost all = batches(inputs@);
        let mut i: usize = 0;
        assert(all.take(0) =~= Seq::<Seq<Seq<u32>>>::empty());
        assert(self@ =~= old(self)@ + all.take(0));
        while i < inputs.len()
            invariant
                i <= inputs.len(),
                all == batches(inputs@),
                self@ == old(self)@ + all.take(i as int),
            decreases inputs.len() - i,
        {
            self.add_cuda_input(&inputs[i]);
            i = i + 1;
            assert(all.take(i as int) =~= all.take(i - 1).push(all[i - 1]));
            assert(self@ =~= old(self)@ + all.take(i as int));
        }
        assert(all.take(i as int) =~= all);
    }
}

/// The values continued to `size` values by `fill`.
pub open spec fn resized(values: Seq<u32>, size: nat, fill: u32) -> Seq<u32> {
    Seq::new(
        size,
        |i: int|
            if i < values.len() {
                values[i]
            } else {
                fill
            },
    )
}

/// The column of one register, padded with its first value.
pub open spec fn register_column(values: Seq<u32>) -> Seq<u32> {
    resized(
        values,
        padded_rows(values.len()),
        if values.len() > 0 {
            values[0]
        } else {
            0
        },
    )
}

/// The columns of the three registers, each padded with its first value; with zero where there is
/// none.
pub open spec fn state_columns(states: Seq<CasmState>) -> Seq<Seq<u32>> {
    seq![
        register_column(states.map_values(|s: CasmState| s.pc)),
        register_column(states.map_values(|s: CasmState| s.ap)),
        register_column(states.map_values(|s: CasmState| s.fp)),
    ]
}

/// Continues the values to `size` values by `fill`.
pub fn resize(values: &mut Vec<u32>, size: usize, fill: u32)
    requires
        old(values)@.len() <= size,
    ensures
        final(values)@ == resized(old(values)@, size as nat, fill),
{
    let ghost first = values@;
    assert(values@ =~= resized(first, first.len(), fill));
    while values.len() < size
        invariant
            first.len() <= values@.len() <= size,
            values@ == resized(first, values@.len(), fill),
        decreases size - values.len(),
    {
        values.push(fill);
        assert(values@ =~= resized(first, values@.len(), fill));
    }
}

fn pad_register(values: Vec<u32>) -> (r: BaseFieldVec)
    requires
        values@.len() <= 0x8000_0000,
    ensures
        r@ == register_column(values@),
{
    let mut values = values;
    let first: u32 = if values.len() > 0 {
        values[0]
    } else {
        0
    };
    proof {
        crate::bits::lemma_padded_rows(values@.len());
    }
    let size = padded_size(values.len());
    resize(&mut values, size, first);
    BaseFieldVec::from_vec(values)
}

/// Splits the states into one column for each register, padded for a trace.
pub fn pack_states(states: &Vec<CasmState>) -> (cols: Vec<BaseFieldVec>)
    requires
        states@.len() <= 0x8000_0000,
    ensures
        columns(cols@) == state_columns(states@),
{
    let mut pcs: Vec<u32> = Vec::new();
    let mut aps: Vec<u32> = Vec::new();
    let mut fps: Vec<u32> = Vec::new();
    let mut i: usize = 0;
    while i < states.len()
        invariant
            i <= states.len(),
            pcs@ == states@.take(i as int).map_values(|s: CasmState| s.pc),
            aps@ == states@.take(i as int).map_values(|s: CasmState| s.ap),
            fps@ == states@.take(i as int).map_values(|s: CasmState| s.fp),
        decreases states.len() - i,
    {
        pcs.push(states[i].pc);
        aps.push(states[i].ap);
        fps.push(states[i].fp);
        i = i + 1;
        assert(states@.take(i as int) =~= states@.take(i - 1).push(states@[i - 1]));
        assert(pcs@ =~= states@.take(i as int).map_values(|s: CasmState| s.pc));
        assert(aps@ =~= states@.take(i as int).map_values(|s: CasmState| s.ap));
        assert(fps@ =~= states@.take(i as int).map_values(|s: CasmState| s.fp));
    }
    assert(states@.take(i as int) =~= states@);
    let mut cols: Vec<BaseFieldVec> = Vec::new();
    cols.push(pad_register(pcs));
    cols.push(pad_register(aps));
    cols.push(pad_register(fps));
    assert(columns(cols@) =~= state_columns(states@));
    cols
}

/// The states of the steps of one opcode, one column for each register.
pub struct StateInputs {
    pub n_rows: usize,
    pub inputs: Vec<BaseFieldVec>,
}

impl StateInputs {
    /// The columns hold the given states.
    pub open spec fn holds(self, states: Seq<CasmState>) -> bool {
        &&& self.n_rows == states.len()
        &&& columns(self.inputs@) == state_columns(states)
    }

    /// The columns have the length of a trace with so many rows.
    pub open spec fn wf(self) -> bool {
        &&& self.n_rows <= 0x4000_0000
        &&& is_shape(columns(self.inputs@), 3, padded_rows(self.n_rows as nat))
    }

    /// Packs the states of all steps.
    pub fn new(states: Vec<CasmState>) -> (r: Self)
        requires
            0 < states@.len() <= 0x4000_0000,
        ensures
            r.wf(),
            r.holds(states@),
    {
        let n_rows = states.len();
        let inputs = pack_states(&states);
        StateInputs { n_rows, inputs }
    }
}

/// One value for each of sixteen consecutive rows.
pub type Pack = [u32; 16];

/// The column of one field of packed rows: the packs of that field, one after the other.
pub open spec fn lane_column(inputs: Seq<Vec<Pack>>, field: int) -> Seq<u32> {
    Seq::new(16 * inputs.len(), |i: int| inputs[i / 16]@[field]@[i % 16])
}

/// The columns of packed rows with `width` fields.
pub open spec fn lane_columns(inputs: Seq<Vec<Pack>>, width: nat) -> Seq<Seq<u32>> {
    Seq::new(width, |f: int| lane_column(inputs, f))
}

/// Every packed row has `width` fields, and the rows can be numbered.
pub open spec fn are_packed(inputs: Seq<Vec<Pack>>, width: nat) -> bool {
    &&& 16 * inputs.len() <= 0x8000_0000
    &&& forall|j: int| 0 <= j < inputs.len() ==> (#[trigger] inputs[j])@.len() == width
}

fn unpack_column(inputs: &Vec<Vec<Pack>>, width: usize, field: usize) -> (r: BaseFieldVec)
    requires
        are_packed(inputs@, width as nat),
        field < width,
    ensures
        r@ == lane_column(inputs@, field as int),
{
    let mut values: Vec<u32> = Vec::new();
    let mut j: usize = 0;
    while j < inputs.len()
        invariant
            j <= inputs.len(),
            are_packed(inputs@, width as nat),
            field < width,
            values@.len() == 16 * j,
            forall|i: int|
                0 <= i < values@.len() ==> #[trigger] values@[i]
                    == inputs@[i / 16]@[field as int]@[i % 16],
        decreases inputs.len() - j,
    {
        let mut lane: usize = 0;
        assert(inputs@[j as int]@.len() == width);
        while lane < 16
            invariant
                lane <= 16,
                j < inputs.len(),
                inputs@[j as int]@.len() == width,
                field < width,
                values@.len() == 16 * j + lane,
                forall|i: int|
                    0 <= i < values@.len() ==> #[trigger] values@[i]
                        == inputs@[i / 16]@[field as int]@[i % 16],
            decreases 16 - lane,
        {
            values.push(inputs[j][field][lane]);
            lane = lane + 1;
        }
        j = j + 1;
    }
    assert(values@ =~= lane_column(inputs@, field as int));
    BaseFieldVec::from_vec(values)
}

/// Returns the columns of packed rows with `width` fields.
pub fn unpack_columns(inputs: &Vec<Vec<Pack>>, width: usize) -> (r: Vec<BaseFieldVec>)
    requires
        are_packed(inputs@, width as nat),
    ensures
        columns(r@) == lane_columns(inputs@, width as nat),
{
    let mut r: Vec<BaseFieldVec> = Vec::new();
    let mut f: usize = 0;
    while f < width
        invariant
            f <= width,
            are_packed(inputs@, width as nat),
            columns(r@) == lane_columns(inputs@, f as nat),
        decreases width - f,
    {
        let ghost before = columns(r@);
        r.push(unpack_column(inputs, width, f));
        f = f + 1;
        assert(columns(r@) =~= before.push(lane_column(inputs@, f - 1)));
        assert(columns(r@) =~= lane_columns(inputs@, f as nat));
    }
    r
}

/// The columns, each continued by the column at the same place of `more`.
pub open spec fn appended(cols: Seq<Seq<u32>>, more: Seq<Seq<u32>>) -> Seq<Seq<u32>> {
    Seq::new(cols.len(), |i: int| cols[i] + more[i])
}

/// The columns continued by all batches, one after the other.
pub open spec fn appended_all(cols: Seq<Seq<u32>>, inputs: Seq<Seq<Seq<u32>>>) -> Seq<Seq<u32>>
    decreases inputs.len(),
{
    if inputs.len() == 0 {
        cols
    } else {
        appended(appended_all(cols, inputs.drop_last()), inputs.last())
    }
}

/// The columns, each continued to `size` values by repeating its first `cycle` values.
pub open spec fn all_cycled(cols: Seq<Seq<u32>>, size: nat, cycle: nat) -> Seq<Seq<u32>> {
    Seq::new(cols.len(), |i: int| cycled(cols[i], size, cycle))
}

/// Appends to each column the column at the same place of `more`.
pub fn extend_columns(cols: &mut Vec<BaseFieldVec>, more: &Vec<BaseFieldVec>)
    requires
        old(cols)@.len() == more@.len(),
    ensures
        columns(final(cols)@) == appended(columns(old(cols)@), columns(more@)),
{
    let ghost first = columns(cols@);
    let mut i: usize = 0;
    while i < more.len()
        invariant
            i <= more.len(),
            cols@.len() == more@.len() == first.len(),
            forall|j: int|
                0 <= j < first.len() ==> (#[trigger] columns(cols@)[j]) == (if j < i {
                    first[j] + more@[j]@
                } else {
                    first[j]
                }),
        decreases more.len() - i,
    {
        let ghost before = columns(cols@);
        let mut col = BaseFieldVec { values: Vec::new() };
        cols.set_and_swap(i, &mut col);
        assert(col@ == before[i as int]);
        col.extend(&more[i]);
        cols.set(i, col);
        assert(columns(cols@) =~= before.update(i as int, first[i as int] + more@[i as int]@));
        i = i + 1;
    }
    assert(columns(cols@) =~= appended(first, columns(more@)));
}

/// Continues each column to `size` values by repeating its first `cycle` values.
pub fn pad_columns(cols: &mut Vec<BaseFieldVec>, size: usize, cycle: usize)
    requires
        0 < cycle,
        forall|i: int|
            0 <= i < old(cols)@.len() ==> (#[trigger] columns(old(cols)@)[i]).len() <= size <= 2
                * columns(old(cols)@)[i].len(),
    ensures
        columns(final(cols)@) == all_cycled(columns(old(cols)@), size as nat, cycle as nat),
{
    let ghost first = columns(cols@);
    let n = cols.len();
    let mut i: usize = 0;
    while i < n
        invariant
            i <= n,
            0 < cycle,
            cols@.len() == n == first.len(),
            forall|i: int|
                0 <= i < first.len() ==> (#[trigger] first[i]).len() <= size <= 2
                    * first[i].len(),
            forall|j: int|
                0 <= j < first.len() ==> (#[trigger] columns(cols@)[j]) == (if j < i {
                    cycled(first[j], size as nat, cycle as nat)
                } else {
                    first[j]
                }),
        decreases n - i,
    {
        let ghost before = columns(cols@);
        assert(first[i as int].len() <= size <= 2 * first[i as int].len());
        let mut col = BaseFieldVec { values: Vec::new() };
        cols.set_and_swap(i, &mut col);
        assert(col@ == before[i as int]);
        col.pad_with_cycle(size, cycle);
        cols.set(i, col);
        assert(columns(cols@) =~= before.update(
            i as int,
            cycled(first[i as int], size as nat, cycle as nat),
        ));
        i = i + 1;
    }
    assert(columns(cols@) =~= all_cycled(first, size as nat, cycle as nat));
}

/// The rows that a component has been fed with, column by column.
///
/// A component starts with a single row of zeroes. It is a placeholder: the first rows that come
/// replace it, later rows are appended.
pub struct RowInputs {
    pub columns: Vec<BaseFieldVec>,
    pub size: u32,
}

/// The rows after more rows came.
pub open spec fn fed_rows(cols: Seq<Seq<u32>>, more: Seq<Seq<u32>>) -> Seq<Seq<u32>> {
    if more[0].len() == 0 {
        cols
    } else if cols[0].len() <= 1 {
        more
    } else {
        appended(cols, more)
    }
}

impl RowInputs {
    /// There are `width` columns and each holds as many values as there are rows.
    pub open spec fn wf(self, width: nat) -> bool {
        &&& width > 0
        &&& is_shape(columns(self.columns@), width, self.size as nat)
    }

    /// Returns the placeholder: one row of zeroes.
    pub fn new(width: usize) -> (r: Self)
        requires
            width > 0,
        ensures
            r.wf(width as nat),
            columns(r.columns@) == zero_columns(width as nat, 1),
    {
        RowInputs { columns: new_zero_columns(width, 1), size: 1 }
    }

    /// Tells whether no more than the placeholder is there.
    pub fn is_empty(&self) -> (r: bool)
        ensures
            r == (self.size <= 1),
    {
        self.size <= 1
    }

    /// Replaces all rows by packed rows.
    pub fn set_packed(&mut self, inputs: &Vec<Vec<Pack>>, width: usize)
        requires
            width > 0,
            are_packed(inputs@, width as nat),
        ensures
            final(self).wf(width as nat),
            columns(final(self).columns@) == lane_columns(inputs@, width as nat),
    {
        self.columns = unpack_columns(inputs, width);
        assert(columns(self.columns@).len() == width);
        assert(columns(self.columns@)[0] == lane_column(inputs@, 0));
        self.size = self.columns[0].size() as u32;
    }

    /// Takes rows in: they replace the placeholder, or follow the rows that are there.
    pub fn add_rows(&mut self, more: &Vec<BaseFieldVec>)
        requires
            old(self).wf(more@.len()),
            is_shape(columns(more@), more@.len(), columns(more@)[0].len()),
            old(self).size + columns(more@)[0].len() <= u32::MAX,
        ensures
            final(self).wf(more@.len()),
            columns(final(self).columns@) == fed_rows(
                columns(old(self).columns@),
                columns(more@),
            ),
            final(self).size <= old(self).size + columns(more@)[0].len(),
    {
        assert(columns(self.columns@)[0].len() == self.size);
        if more[0].size() == 0 {
            return;
        }
        if self.size <= 1 {
            self.columns = duplicate_columns(more);
        } else {
            extend_columns(&mut self.columns, more);
        }
        proof {
            let now = columns(self.columns@);
            let len = now[0].len();
            assert forall|i: int| 0 <= i < now.len() implies (#[trigger] now[i]).len() == len by {
                assert(columns(more@)[i].len() == columns(more@)[0].len());
                assert(columns(old(self).columns@)[i].len() == old(self).size);
            }
            assert(now.len() == more@.len());
        }
        self.size = self.columns[0].size() as u32;
    }

    /// Pads the rows for a trace, by repeating the first pack of rows, and returns the logarithm
    /// of the number of rows.
    pub fn pad(&mut self, width: usize) -> (log_size: u32)
        requires
            old(self).wf(width as nat),
            0 < old(self).size <= 0x8000_0000,
        ensures
            log_size == ceil_log2(old(self).size as nat),
            log_size < 32,
            final(self).wf(width as nat),
            final(self).size == pow2(log_size as nat),
            columns(final(self).columns@) == all_cycled(
                columns(old(self).columns@),
                pow2(log_size as nat),
                N_LANES as nat,
            ),
    {
        let n_rows = self.size as usize;
        let padded = next_power_of_two(n_rows);
        proof {
            lemma_padding_is_shorter(n_rows as nat);
            lemma_floor_log2_of_pow2(ceil_log2(n_rows as nat));
            lemma_pow2_bound(ceil_log2(n_rows as nat));
        }
        let log_size = ilog2(padded);
        assert forall|i: int| 0 <= i < self.columns@.len() implies (#[trigger] columns(
            self.columns@,
        )[i]).len() <= padded <= 2 * columns(self.columns@)[i].len() by {}
        pad_columns(&mut self.columns, padded, N_LANES);
        self.size = padded as u32;
        log_size
    }
}

/// Returns copies of `n` consecutive columns.
pub fn select_columns(cols: &Vec<BaseFieldVec>, from: usize, n: usize) -> (r: Vec<BaseFieldVec>)
    requires
        from + n <= cols@.len(),
    ensures
        columns(r@) == columns(cols@).subrange(from as int, from + n),
{
    let len = cols.len();
    let mut r: Vec<BaseFieldVec> = Vec::new();
    let mut i: usize = 0;
    while i < n
        invariant
            i <= n,
            from + n <= len == cols@.len(),
            columns(r@) == columns(cols@).subrange(from as int, from + i),
        decreases n - i,
    {
        let ghost before = columns(r@);
        r.push(cols[from + i].duplicate());
        i = i + 1;
        assert(columns(r@) =~= before.push(columns(cols@)[from + i - 1]));
        assert(columns(r@) =~= columns(cols@).subrange(from as int, from + i));
    }
    r
}

/// The columns cut into `n` batches of `width` columns each.
pub open spec fn chunks(cols: Seq<Seq<u32>>, width: nat, n: nat) -> Seq<Seq<Seq<u32>>> {
    Seq::new(n, |b: int| cols.subrange(b * width, (b + 1) * width))
}

/// Cuts the columns into `n` batches of `width` columns each.
pub fn chunk_columns(cols: &Vec<BaseFieldVec>, width: usize, n: usize) -> (r: Vec<
    Vec<BaseFieldVec>,
>)
    requires
        cols@.len() == width * n,
    ensures
        batches(r@) == chunks(columns(cols@), width as nat, n as nat),
{
    let len = cols.len();
    let mut r: Vec<Vec<BaseFieldVec>> = Vec::new();
    let mut b: usize = 0;
    let mut at: usize = 0;
    while b < n
        invariant
            b <= n,
            len == cols@.len() == width * n,
            at == b * width,
            batches(r@) == chunks(columns(cols@), width as nat, b as nat),
        decreases n - b,
    {
        let ghost before = batches(r@);
        assert(at + width <= len && (b + 1) * width == at + width) by (nonlinear_arith)
            requires
                b < n,
                at == b * width,
                len == width * n,
        ;
        r.push(select_columns(cols, at, width));
        at = at + width;
        b = b + 1;
        assert(batches(r@) =~= before.push(
            columns(cols@).subrange((b - 1) * width, b * width),
        ));
        assert(batches(r@) =~= chunks(columns(cols@), width as nat, b as nat));
    }
    r
}

/// The first columns of the batches, one after the other.
pub open spec fn first_columns(inputs: Seq<Seq<Seq<u32>>>) -> Seq<u32>
    decreases inputs.len(),
{
    if inputs.len() == 0 {
        Seq::empty()
    } else {
        first_columns(inputs.drop_last()) + inputs.last()[0]
    }
}

/// Appends the values in the first columns of the batches.
pub fn append_first_columns(values: &mut Vec<u32>, inputs: &Vec<Vec<BaseFieldVec>>)
    requires
        forall|b: int| 0 <= b < inputs@.len() ==> (#[trigger] batches(inputs@)[b]).len() > 0,
    ensures
        final(values)@ == old(values)@ + first_columns(batches(inputs@)),
{
    let ghost all = batches(inputs@);
    let ghost first = values@;
    let mut col = BaseFieldVec { values: Vec::new() };
    std::mem::swap(&mut col.values, values);
    let mut b: usize = 0;
    assert(col@ =~= first + first_columns(all.take(0)));
    while b < inputs.len()
        invariant
            b <= inputs.len(),
            all == batches(inputs@),
            forall|b: int| 0 <= b < all.len() ==> (#[trigger] all[b]).len() > 0,
            col@ == first + first_columns(all.take(b as int)),
        decreases inputs.len() - b,
    {
        assert(all[b as int].len() > 0);
        col.extend(&inputs[b][0]);
        b = b + 1;
        assert(all.take(b as int).drop_last() =~= all.take(b - 1));
        assert(col@ =~= first + first_columns(all.take(b as int)));
    }
    assert(all.take(b as int) =~= all);
    *values = col.values;
}

/// Columns that a kernel wrote as the inputs of another component.
pub struct ColumnInputs {
    pub input_columns: Vec<BaseFieldVec>,
    pub size: u32,
}

impl ColumnInputs {
    /// Returns a component without inputs.
    pub fn new() -> (r: Self)
        ensures
            r.input_columns@.len() == 0,
            r.size == 0,
    {
        ColumnInputs { input_columns: Vec::new(), size: 0 }
    }

    /// Tells whether there are no inputs.
    pub fn is_empty(&self) -> (r: bool)
        ensures
            r == (self.size == 0),
    {
        self.size == 0
    }

    /// Replaces all inputs by columns with the given number of rows.
    pub fn set_cuda_inputs(&mut self, cuda_inputs: Vec<BaseFieldVec>, total_rows: usize)
        requires
            total_rows <= u32::MAX,
        ensures
            columns(final(self).input_columns@) == columns(cuda_inputs@),
            final(self).size == total_rows,
    {
        self.input_columns = cuda_inputs;
        self.size = total_rows as u32;
    }
}

/// Row `i` of the register columns is state `i`; the rows behind the last state are the first state
/// again, up to a power of two that fills packs.
pub proof fn law_rows_are_states(states: Seq<CasmState>, i: int)
    requires
        0 < states.len(),
        0 <= i < padded_rows(states.len()),
    ensures
        is_shape(state_columns(states), 3, padded_rows(states.len())),
        (CasmState {
            pc: state_columns(states)[0][i],
            ap: state_columns(states)[1][i],
            fp: state_columns(states)[2][i],
        }) == states[if i < states.len() {
            i
        } else {
            0
        }],
{
}

/// Row `16 * j + lane` of a column holds what lane `lane` of pack `j` holds for its field.
pub proof fn law_rows_are_lanes(
    inputs: Seq<Vec<Pack>>,
    width: nat,
    j: int,
    lane: int,
    field: int,
)
    requires
        0 <= j < inputs.len(),
        0 <= lane < 16,
        0 <= field < width,
    ensures
        lane_columns(inputs, width).len() == width,
        lane_columns(inputs, width)[field].len() == 16 * inputs.len(),
        lane_columns(inputs, width)[field][16 * j + lane] == inputs[j]@[field]@[lane],
{
}

/// What is fed first takes the place of the single row that was there before; what is fed later
/// goes below it, column by column.
pub proof fn law_rows_are_fed_in_order(
    start: Seq<Seq<u32>>,
    first: Seq<Seq<u32>>,
    second: Seq<Seq<u32>>,
    c: int,
)
    requires
        start.len() == first.len() == second.len() > 0,
        start[0].len() <= 1,
        first[0].len() > 1,
        second[0].len() > 0,
        0 <= c < first.len(),
    ensures
        fed_rows(fed_rows(start, first), second).len() == first.len(),
        fed_rows(fed_rows(start, first), second)[c] == first[c] + second[c],
{
}

/// Feeding no rows changes nothing.
pub proof fn law_no_rows_change_nothing(cols: Seq<Seq<u32>>, more: Seq<Seq<u32>>)
    requires
        more[0].len() == 0,
    ensures
        fed_rows(cols, more) == cols,
{
}

/// Column `c` of batch `b` is column `b * width + c`: no column is lost and none is in two batches.
pub proof fn law_chunks_are_all_columns(
    cols: Seq<Seq<u32>>,
    width: nat,
    n: nat,
    b: int,
    c: int,
)
    requires
        cols.len() == width * n,
        0 <= b < n,
        0 <= c < width,
    ensures
        chunks(cols, width, n).len() == n,
        chunks(cols, width, n)[b].len() == width,
        chunks(cols, width, n)[b][c] == cols[b * width + c],
{
    assert(0 <= b * width && (b + 1) * width == b * width + width && (b + 1) * width <= width * n)
        by (nonlinear_arith)
        requires
            0 <= b < n,
            width >= 0,
    ;
}

/// The first columns of two lists of batches follow each other, and those of a single batch are its
/// first column.
pub proof fn law_first_columns_follow_each_other(
    a: Seq<Seq<Seq<u32>>>,
    b: Seq<Seq<Seq<u32>>>,
)
    ensures
        first_columns(a + b) == first_columns(a) + first_columns(b),
        a.len() == 1 ==> first_columns(a) == a[0][0],
    decreases b.len(),
{
    if a.len() == 1 {
        assert(a.drop_last() =~= Seq::empty());
        assert(first_columns(a.drop_last()) =~= Seq::<u32>::empty());
        assert(first_columns(a) =~= a[0][0]);
    }
    if b.len() == 0 {
        assert(a + b =~= a);
        assert(first_columns(a + b) =~= first_columns(a) + first_columns(b));
    } else {
        assert((a + b).drop_last() =~= a + b.drop_last());
        law_first_columns_follow_each_other(a, b.drop_last());
        assert(first_columns(a + b) =~= first_columns(a) + first_columns(b));
    }
}

/// Columns are continued by the batches one after the other: what batch `k` holds in a column
/// stands behind what the batches before it hold there.
pub proof fn law_batches_follow_each_other(
    cols: Seq<Seq<u32>>,
    inputs: Seq<Seq<Seq<u32>>>,
    k: int,
    c: int,
)
    requires
        0 <= k < inputs.len(),
        0 <= c < cols.len(),
    ensures
        appended_all(cols, inputs.take(k)).len() == cols.len(),
        appended_all(cols, inputs.take(k + 1))[c] == appended_all(cols, inputs.take(k))[c]
            + inputs[k][c],
        appended_all(cols, inputs.take(0)) == cols,
        inputs.take(inputs.len() as int) == inputs,
{
    assert(inputs.take(k + 1).drop_last() =~= inputs.take(k));
    assert(inputs.take(inputs.len() as int) =~= inputs);
    lemma_appended_all_len(cols, inputs.take(k));
}

proof fn lemma_appended_all_len(cols: Seq<Seq<u32>>, inputs: Seq<Seq<Seq<u32>>>)
    ensures
        appended_all(cols, inputs).len() == cols.len(),
    decreases inputs.len(),
{
    if inputs.len() > 0 {
        lemma_appended_all_len(cols, inputs.drop_last());
    }
}

} // verus!
