//! The aggregator of hashes: a row takes the six identifiers of a hash's inputs and outputs, reads
//! their values from memory, and hands its rounds to the chains.

use crate::bits::exp2;
use crate::column::{
    batches, columns, duplicate_columns, filled, is_shape, zero_columns, BaseFieldVec,
};
use crate::components_cuda::poseidon_cuda::PoseidonContextCudaClaimGenerator;
use crate::components_cuda::range_check::base::{all_occurrences, are_all_inputs, counted};
use crate::components_cuda::range_check::tables::{
    rc_3_3_3_3_3_ranges, rc_4_4_4_4_ranges, rc_4_4_ranges,
};
use crate::inputs::{chunk_columns, chunks, fed_rows, select_columns, ComponentInputs};
use crate::launch::{
    allocate, finish_interaction, groups, have_shapes, interaction_columns, is_group, secure_of,
    shape, BufferShape, Claim, InteractionClaim, TraceBuffers,
};
use crate::range_checks_cuda::RangeChecksCudaClaimGenerator;
use crate::tree_builder::{committed, TreeBuilder, MAX_LOG_SIZE};
use vstd::arithmetic::div_mod::lemma_fundamental_div_mod_converse;
use vstd::arithmetic::power2::pow2;
use vstd::prelude::*;
use vstd::slice::slice_subrange;

verus! {

pub const N_TRACE_COLUMNS: usize = 342;

/// The number of secure columns of the interaction trace.
pub const N_LOGUP_COLUMNS: usize = 14;

/// The number of identifiers of a row.
pub const N_IDS: usize = 6;

/// The rows of full rounds, and of partial rounds, that a hash is handed on as; the entries that
/// follow them among the lookups are where the chains end.
pub const N_FULL_ROUND_FEEDS: usize = 8;

pub const N_PARTIAL_ROUND_FEEDS: usize = 27;

/// Where the limbs of the numbers to cube stand in the trace.
pub const CUBED: [usize; 2] = [143, 163];

/// Where the limbs of the numbers to check stand in the trace.
pub const CHECKED: [usize; 2] = [123, 133];

/// The groups of lookups, by their position.
pub const RC_3_3_3_3_3_GROUP: usize = 1;

pub const RC_4_4_4_4_GROUP: usize = 2;

pub const RC_4_4_GROUP: usize = 3;

pub const FULL_ROUND_GROUP: usize = 4;

pub const PARTIAL_ROUND_GROUP: usize = 5;

/// The groups of lookups: values in memory, carries in three tables, rows of full rounds, and rows
/// of partial rounds.
pub open spec fn lookup_shapes() -> Seq<BufferShape> {
    seq![shape(6, 29), shape(2, 5), shape(6, 4), shape(3, 2), shape(10, 32), shape(28, 42)]
}

/// Returns the shapes of the groups of lookups.
pub fn lookup_layout() -> (r: Vec<BufferShape>)
    ensures
        r@ == lookup_shapes(),
{
    let r = vec![
        BufferShape { entries: 6, width: 29 },
        BufferShape { entries: 2, width: 5 },
        BufferShape { entries: 6, width: 4 },
        BufferShape { entries: 3, width: 2 },
        BufferShape { entries: 10, width: 32 },
        BufferShape { entries: 28, width: 42 },
    ];
    assert(r@ =~= lookup_shapes());
    r
}

/// No groups are fed apart from the lookups.
pub open spec fn sub_input_shapes() -> Seq<BufferShape> {
    Seq::empty()
}

/// The identifiers of all hashes, one column for each of the six.
pub struct CudaClaimGenerator {
    pub gpu_ids: Vec<BaseFieldVec>,
    pub log_size: u32,
}

/// The first `n` entries of a group, one after the other, column by column: as many rows of each
/// as the first column of the first entry has.
pub open spec fn joined_entries(group: Seq<Seq<Seq<u32>>>, n: int) -> Seq<Seq<u32>> {
    let rows = group[0][0].len() as int;
    Seq::new(
        group[0].len(),
        |e: int| Seq::new((n * rows) as nat, |i: int| group[i / rows][e][i % rows]),
    )
}

/// Every entry has `width` columns, and no column has fewer rows than the first one.
pub open spec fn are_entries(group: Seq<Seq<Seq<u32>>>, width: nat) -> bool {
    &&& forall|f: int| 0 <= f < group.len() ==> (#[trigger] group[f]).len() == width
    &&& forall|f: int, e: int|
        0 <= f < group.len() && 0 <= e < width ==> group[0][0].len() <= (
        #[trigger] group[f][e]).len()
}

/// The memory and the other components after the aggregator fed them.
pub open spec fn fed_context(
    before: PoseidonContextCudaClaimGenerator,
    after: PoseidonContextCudaClaimGenerator,
    trace: Seq<Seq<u32>>,
    lookups: Seq<Seq<Seq<Seq<u32>>>>,
) -> bool {
    &&& after.wf()
    &&& columns(after.poseidon_full_round_chain_cuda.inputs.columns@) == fed_rows(
        columns(before.poseidon_full_round_chain_cuda.inputs.columns@),
        joined_entries(lookups[FULL_ROUND_GROUP as int], N_FULL_ROUND_FEEDS as int),
    )
    &&& columns(after.poseidon_3_partial_rounds_chain_cuda.inputs.columns@) == fed_rows(
        columns(before.poseidon_3_partial_rounds_chain_cuda.inputs.columns@),
        joined_entries(lookups[PARTIAL_ROUND_GROUP as int], N_PARTIAL_ROUND_FEEDS as int),
    )
    &&& after.cube_252_cuda@ == before.cube_252_cuda@ + seq![
        trace.subrange(CUBED@[0] as int, CUBED@[0] + 10),
        trace.subrange(CUBED@[1] as int, CUBED@[1] + 10),
    ]
    &&& columns(after.range_check_252_width_27_cuda.inputs.columns@) == fed_rows(
        fed_rows(
            columns(before.range_check_252_width_27_cuda.inputs.columns@),
            trace.subrange(CHECKED@[0] as int, CHECKED@[0] + 10),
        ),
        trace.subrange(CHECKED@[1] as int, CHECKED@[1] + 10),
    )
}

/// The components have room for the rows of the aggregator.
pub open spec fn has_room(context: PoseidonContextCudaClaimGenerator, rows: nat) -> bool {
    &&& context.wf()
    &&& context.poseidon_full_round_chain_cuda.inputs.size + N_FULL_ROUND_FEEDS * rows <= u32::MAX
    &&& context.poseidon_3_partial_rounds_chain_cuda.inputs.size + N_PARTIAL_ROUND_FEEDS * rows
        <= u32::MAX
    &&& context.range_check_252_width_27_cuda.inputs.size + 2 * rows <= u32::MAX
}

/// The columns of the trace that are handed on: two numbers to check, one after the other, then the
/// first number to cube, and the second one behind as many columns as a number has.
pub proof fn law_numbers_stand_apart(trace: Seq<Seq<u32>>)
    requires
        trace.len() == N_TRACE_COLUMNS,
    ensures
        CHECKED@[1] == CHECKED@[0] + 10,
        CUBED@[0] == CHECKED@[1] + 10,
        CUBED@[1] == CUBED@[0] + 20,
        CUBED@[1] + 10 <= N_TRACE_COLUMNS,
        trace.subrange(CHECKED@[0] as int, CHECKED@[0] + 10) + trace.subrange(
            CHECKED@[1] as int,
            CHECKED@[1] + 10,
        ) + trace.subrange(CUBED@[0] as int, CUBED@[0] + 10) == trace.subrange(123, 153),
{
    assert(trace.subrange(CHECKED@[0] as int, CHECKED@[0] + 10) + trace.subrange(
        CHECKED@[1] as int,
        CHECKED@[1] + 10,
    ) + trace.subrange(CUBED@[0] as int, CUBED@[0] + 10) =~= trace.subrange(123, 153));
}

/// An empty context is fed with the rows of all entries but those where the chains end, and with
/// the limbs of the numbers, one number below the other.
pub proof fn law_context_is_fed_with_all_rows(
    before: PoseidonContextCudaClaimGenerator,
    after: PoseidonContextCudaClaimGenerator,
    trace: Seq<Seq<u32>>,
    lookups: Seq<Seq<Seq<Seq<u32>>>>,
    rows: nat,
    k: int,
)
    requires
        fed_context(before, after, trace, lookups),
        before.wf(),
        before.range_check_252_width_27_cuda.inputs.size <= 1,
        is_shape(trace, N_TRACE_COLUMNS as nat, rows),
        have_shapes(lookups, lookup_shapes(), rows),
        before.poseidon_full_round_chain_cuda.inputs.size <= 1,
        before.poseidon_3_partial_rounds_chain_cuda.inputs.size <= 1,
        0 <= k < 10,
        rows > 1,
    ensures
        columns(after.range_check_252_width_27_cuda.inputs.columns@)[k] == trace[123 + k] + trace[
            133 + k
        ],
        after.cube_252_cuda@.len() == before.cube_252_cuda@.len() + 2,
        after.cube_252_cuda@.take(before.cube_252_cuda@.len() as int) == before.cube_252_cuda@,
        after.cube_252_cuda@[before.cube_252_cuda@.len() as int][k] == trace[143 + k],
        after.cube_252_cuda@.last()[k] == trace[163 + k],
        columns(after.poseidon_full_round_chain_cuda.inputs.columns@)[k].len() == 8 * rows,
        columns(after.poseidon_3_partial_rounds_chain_cuda.inputs.columns@)[k].len() == 27 * rows,
        forall|f: int, r: int|
            0 <= f < 8 && 0 <= r < rows ==> columns(
                after.poseidon_full_round_chain_cuda.inputs.columns@,
            )[k][f * rows + r] == #[trigger] lookups[4][f][k][r],
        forall|f: int, r: int|
            0 <= f < 27 && 0 <= r < rows ==> columns(
                after.poseidon_3_partial_rounds_chain_cuda.inputs.columns@,
            )[k][f * rows + r] == #[trigger] lookups[5][f][k][r],
{
    let full = lookups[FULL_ROUND_GROUP as int];
    let partial = lookups[PARTIAL_ROUND_GROUP as int];
    assert(is_group(full, shape(10, 32), rows));
    assert(is_group(partial, shape(28, 42), rows));
    lemma_joined_shape(full, 8, 32, rows);
    lemma_joined_shape(partial, 27, 42, rows);
    assert(is_shape(full[0], 32, rows));
    assert(is_shape(partial[0], 42, rows));
    assert(full[0][0].len() == rows);
    assert(partial[0][0].len() == rows);
    assert(joined_entries(full, 8)[k].len() == 8 * rows);
    assert(joined_entries(partial, 27)[k].len() == 27 * rows);
    assert forall|f: int, r: int| 0 <= f < 8 && 0 <= r < rows implies joined_entries(full, 8)[k][f
        * rows + r] == #[trigger] lookups[4][f][k][r] by {
        law_joined_entries_keep_their_rows(full, 8, k, f, r);
    }
    assert forall|f: int, r: int| 0 <= f < 27 && 0 <= r < rows implies joined_entries(
        partial,
        27,
    )[k][f * rows + r] == #[trigger] lookups[5][f][k][r] by {
        law_joined_entries_keep_their_rows(partial, 27, k, f, r);
    }
    assert(8 * rows > 0 && 27 * rows > 0);
    let first = trace.subrange(CHECKED@[0] as int, CHECKED@[0] + 10);
    let second = trace.subrange(CHECKED@[1] as int, CHECKED@[1] + 10);
    assert(first[0] == trace[123] && second[0] == trace[133]);
    assert(first[k] == trace[123 + k] && second[k] == trace[133 + k]);
    assert(trace[123].len() == rows && trace[133].len() == rows);
    assert(after.cube_252_cuda@.take(before.cube_252_cuda@.len() as int) =~= before.cube_252_cuda@);
}

/// The row `r` of the entry `f` is the row `f * rows + r` of the joined entries.
pub proof fn law_joined_entries_keep_their_rows(
    group: Seq<Seq<Seq<u32>>>,
    n: int,
    e: int,
    f: int,
    r: int,
)
    requires
        0 <= e < group[0].len(),
        0 <= f < n,
        0 <= r < group[0][0].len(),
    ensures
        joined_entries(group, n).len() == group[0].len(),
        joined_entries(group, n)[e].len() == n * group[0][0].len(),
        0 <= f * group[0][0].len() + r < n * group[0][0].len(),
        joined_entries(group, n)[e][f * group[0][0].len() + r] == group[f][e][r],
{
    let rows = group[0][0].len() as int;
    lemma_fundamental_div_mod_converse(f * rows + r, rows, f, r);
    assert(0 <= f * rows + r < n * rows) by (nonlinear_arith)
        requires
            0 <= f < n,
            0 <= r < rows,
    ;
}

proof fn lemma_joined_shape(group: Seq<Seq<Seq<u32>>>, n: int, width: nat, len: nat)
    requires
        1 <= n <= group.len(),
        width > 0,
        forall|e: int| 0 <= e < group.len() ==> is_shape(#[trigger] group[e], width, len),
    ensures
        is_shape(joined_entries(group, n), width, (n * len) as nat),
        joined_entries(group, n)[0].len() == n * len,
        are_entries(group.take(n), width),
        joined_entries(group.take(n), n) == joined_entries(group, n),
{
    let first = group.take(n);
    let rows = len as int;
    assert(is_shape(group[0], width, len));
    assert(group[0][0].len() == len);
    assert(0 <= n * len) by (nonlinear_arith)
        requires
            1 <= n,
            0 <= len,
    ;
    assert forall|f: int, e: int| 0 <= f < n && 0 <= e < width implies (
    #[trigger] first[f][e]).len() == len by {
        assert(is_shape(group[f], width, len));
    }
    assert forall|f: int| 0 <= f < n implies (#[trigger] first[f]).len() == width by {
        assert(is_shape(group[f], width, len));
    }
    assert(joined_entries(first, n) =~= joined_entries(group, n)) by {
        assert forall|e: int| 0 <= e < width implies joined_entries(first, n)[e]
            =~= joined_entries(group, n)[e] by {
            assert forall|i: int| 0 <= i < n * len implies 0 <= #[trigger] (i / rows) < n by {
                assert(0 <= i / rows && i / rows < n) by (nonlinear_arith)
                    requires
                        0 <= i < n * rows,
                        0 <= rows,
                ;
            }
        }
    }
}

proof fn lemma_selected_shape(trace: Seq<Seq<u32>>, from: int, len: nat)
    requires
        is_shape(trace, trace.len(), len),
        0 <= from,
        from + 10 <= trace.len(),
    ensures
        is_shape(trace.subrange(from, from + 10), 10, len),
        trace.subrange(from, from + 10)[0].len() == len,
{
    let part = trace.subrange(from, from + 10);
    assert forall|i: int| 0 <= i < part.len() implies (#[trigger] part[i]).len() == len by {
        assert(trace[from + i].len() == len);
    }
}

/// Returns all entries, one after the other, column by column.
fn join_entries(entries: &[Vec<BaseFieldVec>], width: usize) -> (cols: Vec<BaseFieldVec>)
    requires
        entries@.len() > 0,
        width > 0,
        are_entries(batches(entries@), width as nat),
    ensures
        columns(cols@) == joined_entries(batches(entries@), entries@.len() as int),
{
    let ghost group = batches(entries@);
    let n = entries.len();
    proof {
        assert(group[0].len() == width);
    }
    let rows = entries[0][0].size();
    let ghost joined = joined_entries(group, n as int);
    let mut cols: Vec<BaseFieldVec> = Vec::new();
    let mut e: usize = 0;
    while e < width
        invariant
            e <= width,
            n == entries@.len() > 0,
            group == batches(entries@),
            are_entries(group, width as nat),
            rows == group[0][0].len(),
            group[0].len() == width,
            joined == joined_entries(group, n as int),
            columns(cols@) == joined.take(e as int),
        decreases width - e,
    {
        let ghost before = columns(cols@);
        let mut values: Vec<u32> = Vec::new();
        let mut f: usize = 0;
        assert(values@ =~= Seq::new(0, |i: int| group[i / rows as int][e as int][i % rows as int]));
        while f < n
            invariant
                f <= n,
                e < width,
                n == entries@.len() > 0,
                group == batches(entries@),
                are_entries(group, width as nat),
                rows == group[0][0].len(),
                values@ == Seq::new(
                    (f * rows) as nat,
                    |i: int| group[i / rows as int][e as int][i % rows as int],
                ),
            decreases n - f,
        {
            proof {
                assert(group[f as int].len() == width);
                assert(group[0][0].len() <= group[f as int][e as int].len());
            }
            let column = &entries[f][e];
            let mut r: usize = 0;
            assert(f * rows + 0 == f * rows);
            while r < rows
                invariant
                    r <= rows <= column@.len(),
                    column@ == group[f as int][e as int],
                    values@ == Seq::new(
                        (f * rows + r) as nat,
                        |i: int| group[i / rows as int][e as int][i % rows as int],
                    ),
                decreases rows - r,
            {
                values.push(column.values[r]);
                proof {
                    lemma_fundamental_div_mod_converse(
                        f * rows + r,
                        rows as int,
                        f as int,
                        r as int,
                    );
                    assert(0 <= f * rows) by (nonlinear_arith);
                }
                r = r + 1;
                assert(values@ =~= Seq::new(
                    (f * rows + r) as nat,
                    |i: int| group[i / rows as int][e as int][i % rows as int],
                ));
            }
            assert(f * rows + rows == (f + 1) * rows) by (nonlinear_arith);
            f = f + 1;
        }
        assert(values@ =~= joined[e as int]);
        cols.push(BaseFieldVec::from_vec(values));
        e = e + 1;
        assert(columns(cols@) =~= before.push(joined[e - 1]));
        assert(columns(cols@) =~= joined.take(e as int));
    }
    assert(joined.take(width as int) =~= joined);
    cols
}

/// Returns the input of the chains of full rounds: the eight entries one after the other.
pub fn build_pfrc_input(entries: &[Vec<BaseFieldVec>]) -> (cols: Vec<BaseFieldVec>)
    requires
        entries@.len() == N_FULL_ROUND_FEEDS,
        are_entries(batches(entries@), 32),
    ensures
        columns(cols@) == joined_entries(batches(entries@), N_FULL_ROUND_FEEDS as int),
        is_shape(
            columns(cols@),
            32,
            N_FULL_ROUND_FEEDS as nat * batches(entries@)[0][0].len(),
        ),
        forall|e: int, f: int, r: int|
            0 <= e < 32 && 0 <= f < N_FULL_ROUND_FEEDS && 0 <= r < batches(entries@)[0][0].len()
                ==> columns(cols@)[e][f * batches(entries@)[0][0].len() + r]
                == #[trigger] batches(entries@)[f][e][r],
{
    let cols = join_entries(entries, 32);
    proof {
        let group = batches(entries@);
        assert(group[0].len() == 32);
        assert forall|e: int, f: int, r: int|
            0 <= e < 32 && 0 <= f < N_FULL_ROUND_FEEDS && 0 <= r
                < group[0][0].len() implies columns(
            cols@,
        )[e][f * group[0][0].len() + r] == #[trigger] group[f][e][r] by {
            law_joined_entries_keep_their_rows(group, N_FULL_ROUND_FEEDS as int, e, f, r);
        }
    }
    cols
}

/// Returns the input of the chains of partial rounds: the twenty-seven entries one after the
/// other.
pub fn build_p3prc_input(entries: &[Vec<BaseFieldVec>]) -> (cols: Vec<BaseFieldVec>)
    requires
        entries@.len() == N_PARTIAL_ROUND_FEEDS,
        are_entries(batches(entries@), 42),
    ensures
        columns(cols@) == joined_entries(batches(entries@), N_PARTIAL_ROUND_FEEDS as int),
        is_shape(
            columns(cols@),
            42,
            N_PARTIAL_ROUND_FEEDS as nat * batches(entries@)[0][0].len(),
        ),
        forall|e: int, f: int, r: int|
            0 <= e < 42 && 0 <= f < N_PARTIAL_ROUND_FEEDS && 0 <= r < batches(entries@)[0][0].len()
                ==> columns(cols@)[e][f * batches(entries@)[0][0].len() + r]
                == #[trigger] batches(entries@)[f][e][r],
{
    let cols = join_entries(entries, 42);
    proof {
        let group = batches(entries@);
        assert(group[0].len() == 42);
        assert forall|e: int, f: int, r: int|
            0 <= e < 42 && 0 <= f < N_PARTIAL_ROUND_FEEDS && 0 <= r
                < group[0][0].len() implies columns(
            cols@,
        )[e][f * group[0][0].len() + r] == #[trigger] group[f][e][r] by {
            law_joined_entries_keep_their_rows(group, N_PARTIAL_ROUND_FEEDS as int, e, f, r);
        }
    }
    cols
}

fn feed_context(
    context: &mut PoseidonContextCudaClaimGenerator,
    buffers: &TraceBuffers,
    log_size: u32,
)
    requires
        log_size <= MAX_LOG_SIZE,
        buffers.fit(N_TRACE_COLUMNS as nat, lookup_shapes(), sub_input_shapes(), log_size),
        has_room(*old(context), pow2(log_size as nat)),
    ensures
        fed_context(
            *old(context),
            *final(context),
            columns(buffers.trace@),
            groups(buffers.lookups@),
        ),
{
    let ghost len = pow2(log_size as nat);
    let ghost trace = columns(buffers.trace@);
    let ghost lookups = groups(buffers.lookups@);
    let ghost fed_before = context.cube_252_cuda@;
    proof {
        assert(lookups.len() == lookup_shapes().len());
        assert(is_group(lookups[FULL_ROUND_GROUP as int], shape(10, 32), len));
        assert(is_group(lookups[PARTIAL_ROUND_GROUP as int], shape(28, 42), len));
        lemma_joined_shape(lookups[FULL_ROUND_GROUP as int], N_FULL_ROUND_FEEDS as int, 32, len);
        lemma_joined_shape(
            lookups[PARTIAL_ROUND_GROUP as int],
            N_PARTIAL_ROUND_FEEDS as int,
            42,
            len,
        );
        lemma_selected_shape(trace, CUBED@[0] as int, len);
        lemma_selected_shape(trace, CUBED@[1] as int, len);
        lemma_selected_shape(trace, CHECKED@[0] as int, len);
        lemma_selected_shape(trace, CHECKED@[1] as int, len);
        assert(trace.len() == buffers.trace@.len());
    }
    let full_entries = slice_subrange(
        buffers.lookups[FULL_ROUND_GROUP].as_slice(),
        0,
        N_FULL_ROUND_FEEDS,
    );
    assert(batches(full_entries@) =~= lookups[FULL_ROUND_GROUP as int].take(
        N_FULL_ROUND_FEEDS as int,
    ));
    let full = build_pfrc_input(full_entries);
    context.poseidon_full_round_chain_cuda.add_cuda_inputs(&full);
    let partial_entries = slice_subrange(
        buffers.lookups[PARTIAL_ROUND_GROUP].as_slice(),
        0,
        N_PARTIAL_ROUND_FEEDS,
    );
    assert(batches(partial_entries@) =~= lookups[PARTIAL_ROUND_GROUP as int].take(
        N_PARTIAL_ROUND_FEEDS as int,
    ));
    let partial = build_p3prc_input(partial_entries);
    context.poseidon_3_partial_rounds_chain_cuda.add_cuda_inputs(&partial);
    context.cube_252_cuda.add_cuda_input(&select_columns(&buffers.trace, CUBED[0], 10));
    context.cube_252_cuda.add_cuda_input(&select_columns(&buffers.trace, CUBED[1], 10));
    assert(context.cube_252_cuda@ =~= fed_before + seq![
        trace.subrange(CUBED@[0] as int, CUBED@[0] + 10),
        trace.subrange(CUBED@[1] as int, CUBED@[1] + 10),
    ]);
    context.range_check_252_width_27_cuda.add_cuda_inputs(
        &select_columns(&buffers.trace, CHECKED[0], 10),
    );
    context.range_check_252_width_27_cuda.add_cuda_inputs(
        &select_columns(&buffers.trace, CHECKED[1], 10),
    );
}

impl CudaClaimGenerator {
    /// There are six columns of the claimed size.
    pub open spec fn wf(self) -> bool {
        &&& 0 < self.log_size <= MAX_LOG_SIZE
        &&& is_shape(columns(self.gpu_ids@), N_IDS as nat, pow2(self.log_size as nat))
    }

    /// Returns a generator for the given columns of identifiers.
    pub fn from_gpu_ids(gpu_ids: Vec<BaseFieldVec>, log_size: u32) -> (r: Self)
        ensures
            r.gpu_ids == gpu_ids,
            r.log_size == log_size,
    {
        CudaClaimGenerator { gpu_ids, log_size }
    }

    /// Returns the multiplicities of the rows, which the trace kernel reads: every row counts once.
    pub fn multiplicities(&self) -> (r: BaseFieldVec)
        requires
            self.log_size <= MAX_LOG_SIZE,
        ensures
            r@ == filled(1, pow2(self.log_size as nat)),
    {
        let values = vec![1u32; exp2(self.log_size)];
        assert(values@ =~= filled(1, pow2(self.log_size as nat)));
        BaseFieldVec::from_vec(values)
    }

    /// Returns the buffers that the trace kernel fills.
    pub fn trace_buffers(log_size: u32) -> (b: TraceBuffers)
        requires
            log_size < 32,
        ensures
            b.fit(N_TRACE_COLUMNS as nat, lookup_shapes(), sub_input_shapes(), log_size),
    {
        let none: Vec<BufferShape> = Vec::new();
        assert(none@ =~= sub_input_shapes());
        allocate(N_TRACE_COLUMNS, &lookup_layout(), &none, log_size)
    }

    /// Feeds the memory, the components of the hash if they are there, and the tables of carries,
    /// and commits the trace.
    pub fn write_trace(
        self,
        buffers: TraceBuffers,
        tree_builder: &mut TreeBuilder,
        poseidon_context_cuda: &mut Option<PoseidonContextCudaClaimGenerator>,
        memory_id_to_big_cuda: &mut ComponentInputs,
        range_checks: &mut RangeChecksCudaClaimGenerator,
    ) -> (r: (Claim, CudaInteractionClaimGenerator))
        requires
            0 < self.log_size <= MAX_LOG_SIZE,
            buffers.fit(
                N_TRACE_COLUMNS as nat,
                lookup_shapes(),
                sub_input_shapes(),
                self.log_size,
            ),
            *old(poseidon_context_cuda) matches Some(context) ==> has_room(
                context,
                pow2(self.log_size as nat),
            ),
            old(range_checks).wf(),
            are_all_inputs(
                rc_3_3_3_3_3_ranges(),
                groups(buffers.lookups@)[RC_3_3_3_3_3_GROUP as int],
            ),
            are_all_inputs(
                rc_4_4_4_4_ranges(),
                groups(buffers.lookups@)[RC_4_4_4_4_GROUP as int],
            ),
            are_all_inputs(rc_4_4_ranges(), groups(buffers.lookups@)[RC_4_4_GROUP as int]),
        ensures
            r.0.log_size == self.log_size,
            r.1.wf(),
            r.1.log_size == self.log_size,
            groups(r.1.lookup_data@) == groups(buffers.lookups@),
            columns(r.1.base_trace@) == columns(buffers.trace@),
            final(tree_builder)@ == old(tree_builder)@ + committed(
                self.log_size,
                columns(buffers.trace@),
            ),
            final(memory_id_to_big_cuda)@ == old(memory_id_to_big_cuda)@ + chunks(
                columns(buffers.trace@).take(N_IDS as int),
                1,
                N_IDS as nat,
            ),
            *old(poseidon_context_cuda) is None ==> *final(poseidon_context_cuda) is None,
            *old(poseidon_context_cuda) matches Some(before) ==> (
            *final(poseidon_context_cuda) matches Some(after) && fed_context(
                before,
                after,
                columns(buffers.trace@),
                groups(buffers.lookups@),
            )),
            final(range_checks).wf(),
            *final(range_checks) == (RangeChecksCudaClaimGenerator {
                rc_4_4_trace_generator: final(range_checks).rc_4_4_trace_generator,
                rc_4_4_4_4_trace_generator: final(range_checks).rc_4_4_4_4_trace_generator,
                rc_3_3_3_3_3_trace_generator: final(range_checks).rc_3_3_3_3_3_trace_generator,
                ..*old(range_checks)
            }),
            final(range_checks).rc_3_3_3_3_3_trace_generator.multiplicities@ == counted(
                old(range_checks).rc_3_3_3_3_3_trace_generator.multiplicities@,
                |i: int|
                    all_occurrences(
                        rc_3_3_3_3_3_ranges(),
                        groups(buffers.lookups@)[RC_3_3_3_3_3_GROUP as int],
                        i,
                    ) as int,
            ),
            final(range_checks).rc_4_4_4_4_trace_generator.multiplicities@ == counted(
                old(range_checks).rc_4_4_4_4_trace_generator.multiplicities@,
                |i: int|
                    all_occurrences(
                        rc_4_4_4_4_ranges(),
                        groups(buffers.lookups@)[RC_4_4_4_4_GROUP as int],
                        i,
                    ) as int,
            ),
            final(range_checks).rc_4_4_trace_generator.multiplicities@ == counted(
                old(range_checks).rc_4_4_trace_generator.multiplicities@,
                |i: int|
                    all_occurrences(
                        rc_4_4_ranges(),
                        groups(buffers.lookups@)[RC_4_4_GROUP as int],
                        i,
                    ) as int,
            ),
    {
        let log_size = self.log_size;
        assert(columns(buffers.trace@).len() == buffers.trace@.len());
        assert(groups(buffers.lookups@).len() == lookup_shapes().len());
        let base_trace = duplicate_columns(&buffers.trace);
        let ids = select_columns(&buffers.trace, 0, N_IDS);
        assert(columns(ids@) =~= columns(buffers.trace@).take(N_IDS as int));
        assert(columns(ids@).len() == ids@.len());
        memory_id_to_big_cuda.add_cuda_inputs(&chunk_columns(&ids, 1, N_IDS));
        match poseidon_context_cuda.take() {
            Some(mut context) => {
                feed_context(&mut context, &buffers, log_size);
                *poseidon_context_cuda = Some(context);
            },
            None => {},
        }
        range_checks.rc_3_3_3_3_3_trace_generator.add_each(
            &buffers.lookups[RC_3_3_3_3_3_GROUP],
        );
        range_checks.rc_4_4_4_4_trace_generator.add_each(&buffers.lookups[RC_4_4_4_4_GROUP]);
        range_checks.rc_4_4_trace_generator.add_each(&buffers.lookups[RC_4_4_GROUP]);
        tree_builder.extend_evals(log_size, buffers.trace);
        (
            Claim { log_size },
            CudaInteractionClaimGenerator { log_size, lookup_data: buffers.lookups, base_trace },
        )
    }
}

/// Writes the interaction trace from the lookups and the trace.
pub struct CudaInteractionClaimGenerator {
    pub log_size: u32,
    pub lookup_data: Vec<Vec<Vec<BaseFieldVec>>>,
    pub base_trace: Vec<BaseFieldVec>,
}

/// The entries of full rounds that the interaction kernel is handed: where each of the two chains
/// begins and ends.
pub const FULL_ROUND_ENDS: [usize; 4] = [0, 8, 4, 9];

/// The entries of partial rounds that the interaction kernel is handed: where the chain begins and
/// ends.
pub const PARTIAL_ROUND_ENDS: [usize; 2] = [0, 27];

/// The lookups that the interaction kernel is handed: those into memory and tables, and of the
/// rounds those where chains begin and end.
pub open spec fn interaction_lookups(
    lookups: Seq<Seq<Seq<Seq<u32>>>>,
) -> Seq<Seq<Seq<u32>>> {
    lookups[0] + lookups[1] + lookups[2] + lookups[3] + seq![
        lookups[4][FULL_ROUND_ENDS@[0] as int],
        lookups[4][FULL_ROUND_ENDS@[1] as int],
        lookups[4][FULL_ROUND_ENDS@[2] as int],
        lookups[4][FULL_ROUND_ENDS@[3] as int],
        lookups[5][PARTIAL_ROUND_ENDS@[0] as int],
        lookups[5][PARTIAL_ROUND_ENDS@[1] as int],
    ]
}

impl CudaInteractionClaimGenerator {
    /// The lookups and the trace have the claimed size.
    pub open spec fn wf(self) -> bool {
        &&& 0 < self.log_size <= MAX_LOG_SIZE
        &&& have_shapes(groups(self.lookup_data@), lookup_shapes(), pow2(self.log_size as nat))
        &&& is_shape(
            columns(self.base_trace@),
            N_TRACE_COLUMNS as nat,
            pow2(self.log_size as nat),
        )
    }

    /// Returns the lookups that the interaction kernel is handed, in order.
    pub fn kernel_lookups(&self) -> (r: Vec<Vec<BaseFieldVec>>)
        requires
            self.wf(),
        ensures
            batches(r@) == interaction_lookups(groups(self.lookup_data@)),
    {
        let ghost lookups = groups(self.lookup_data@);
        assert(lookups.len() == lookup_shapes().len());
        assert(is_group(lookups[4], shape(10, 32), pow2(self.log_size as nat)));
        assert(is_group(lookups[5], shape(28, 42), pow2(self.log_size as nat)));
        let mut r = ComponentInputs::new();
        r.add_cuda_inputs(&self.lookup_data[0]);
        r.add_cuda_inputs(&self.lookup_data[1]);
        r.add_cuda_inputs(&self.lookup_data[2]);
        r.add_cuda_inputs(&self.lookup_data[3]);
        r.add_cuda_input(&self.lookup_data[4][FULL_ROUND_ENDS[0]]);
        r.add_cuda_input(&self.lookup_data[4][FULL_ROUND_ENDS[1]]);
        r.add_cuda_input(&self.lookup_data[4][FULL_ROUND_ENDS[2]]);
        r.add_cuda_input(&self.lookup_data[4][FULL_ROUND_ENDS[3]]);
        r.add_cuda_input(&self.lookup_data[5][PARTIAL_ROUND_ENDS[0]]);
        r.add_cuda_input(&self.lookup_data[5][PARTIAL_ROUND_ENDS[1]]);
        assert(r@ =~= interaction_lookups(lookups));
        r.fed
    }

    /// Returns the columns of zeroes that the interaction kernel fills.
    pub fn interaction_columns(&self) -> (cols: Vec<BaseFieldVec>)
        requires
            self.wf(),
        ensures
            columns(cols@) == zero_columns(
                4 * N_LOGUP_COLUMNS as nat,
                pow2(self.log_size as nat),
            ),
    {
        interaction_columns(N_LOGUP_COLUMNS, self.log_size)
    }

    /// Commits the columns that the interaction kernel filled and claims its sum.
    pub fn write_interaction_trace(
        self,
        tree_builder: &mut TreeBuilder,
        cols: Vec<BaseFieldVec>,
        claimed_sum: [u32; 4],
    ) -> (r: InteractionClaim)
        requires
            self.wf(),
            is_shape(
                columns(cols@),
                4 * N_LOGUP_COLUMNS as nat,
                pow2(self.log_size as nat),
            ),
        ensures
            final(tree_builder)@ == old(tree_builder)@ + committed(self.log_size, columns(cols@)),
            r.claimed_sum == secure_of(claimed_sum@),
    {
        finish_interaction(tree_builder, cols, self.log_size, claimed_sum)
    }
}

/// The interaction kernel is handed the entries of the memory and of the carries, all of them and
/// in order, and of each chain the entries where it starts and where it ends.
pub proof fn law_kernel_is_handed_ends_of_chains(lookups: Seq<Seq<Seq<Seq<u32>>>>, rows: nat)
    requires
        have_shapes(lookups, lookup_shapes(), rows),
    ensures
        ({
            let handed = interaction_lookups(lookups);
            &&& handed.len() == 23
            &&& handed.subrange(0, 6) == lookups[0]
            &&& handed.subrange(6, 8) == lookups[RC_3_3_3_3_3_GROUP as int]
            &&& handed.subrange(8, 14) == lookups[RC_4_4_4_4_GROUP as int]
            &&& handed.subrange(14, 17) == lookups[RC_4_4_GROUP as int]
            &&& handed[17] == lookups[FULL_ROUND_GROUP as int].first()
            &&& handed[18] == lookups[FULL_ROUND_GROUP as int][N_FULL_ROUND_FEEDS as int]
            &&& handed[19] == lookups[FULL_ROUND_GROUP as int][N_FULL_ROUND_FEEDS as int / 2]
            &&& handed[20] == lookups[FULL_ROUND_GROUP as int].last()
            &&& handed[21] == lookups[PARTIAL_ROUND_GROUP as int].first()
            &&& handed[22] == lookups[PARTIAL_ROUND_GROUP as int].last()
        }),
{
    let handed = interaction_lookups(lookups);
    assert(is_group(lookups[0], shape(6, 29), rows));
    assert(is_group(lookups[1], shape(2, 5), rows));
    assert(is_group(lookups[2], shape(6, 4), rows));
    assert(is_group(lookups[3], shape(3, 2), rows));
    assert(is_group(lookups[4], shape(10, 32), rows));
    assert(is_group(lookups[5], shape(28, 42), rows));
    assert(handed.subrange(0, 6) =~= lookups[0]);
    assert(handed.subrange(6, 8) =~= lookups[1]);
    assert(handed.subrange(8, 14) =~= lookups[2]);
    assert(handed.subrange(14, 17) =~= lookups[3]);
}

/// The groups of carries are tuples of the tables that they are counted in.
pub proof fn law_carries_fit_their_tables()
    ensures
        lookup_shapes()[RC_3_3_3_3_3_GROUP as int].width == rc_3_3_3_3_3_ranges().len(),
        lookup_shapes()[RC_4_4_4_4_GROUP as int].width == rc_4_4_4_4_ranges().len(),
        lookup_shapes()[RC_4_4_GROUP as int].width == rc_4_4_ranges().len(),
        lookup_shapes()[0].entries == N_IDS,
        lookup_shapes()[FULL_ROUND_GROUP as int].entries == N_FULL_ROUND_FEEDS + 2,
        lookup_shapes()[PARTIAL_ROUND_GROUP as int].entries == N_PARTIAL_ROUND_FEEDS + 1,
{
}

} // verus!
