//! What a kernel is launched with, and what is done with its outcome.
//!
//! A trace kernel fills three sets of buffers: the columns of the trace, the columns of every
//! lookup that a row makes, and the columns that other components are fed with. The last two come
//! in groups: a group holds the entries of one relation, and an entry one column for each of its
//! fields. Their pointers are handed to the kernel in this order.

use crate::column::{batches, columns, is_shape, new_zero_columns, zero_columns, BaseFieldVec};
use crate::field::{secure_from_m31_array, SecureField, P};
use crate::lookup::{
    create_modified_lookup_for_cuda, create_modified_lookup_for_cuda_with_offset,
    is_modified_lookup, is_per_relation_with_offset, law_modified_lookups_look_up,
    law_shifted_lookups_look_up, looks_up, looks_up_shifted, LookupElements,
};
use crate::tree_builder::{are_evaluations, committed, TreeBuilder, MAX_LOG_SIZE};
use vstd::arithmetic::power2::pow2;
use vstd::prelude::*;

verus! {

/// The number of entries of a group, and the number of fields of each.
#[derive(Clone, Copy, Debug, PartialEq, Eq, Structural)]
pub struct BufferShape {
    pub entries: usize,
    pub width: usize,
}

/// The buffers that a trace kernel fills.
pub struct TraceBuffers {
    pub trace: Vec<BaseFieldVec>,
    pub lookups: Vec<Vec<Vec<BaseFieldVec>>>,
    pub sub_inputs: Vec<Vec<Vec<BaseFieldVec>>>,
}

/// What a component claims of its trace.
#[derive(Clone, Copy, Debug, PartialEq, Eq, Structural)]
pub struct Claim {
    pub log_size: u32,
}

/// Nothing is claimed of a table: its size is fixed.
#[derive(Clone, Copy, Debug, PartialEq, Eq, Structural)]
pub struct TableClaim {}

/// What a component claims of its interaction trace.
#[derive(Clone, Copy, Debug, PartialEq, Eq, Structural)]
pub struct InteractionClaim {
    pub claimed_sum: SecureField,
}

/// The elements that a kernel needs: those of a relation, possibly for values that lack an offset.
#[derive(Clone, Copy, Debug)]
pub enum LookupRequest {
    Plain(u32),
    WithOffset(u32, u32),
}

/// A shape.
pub open spec fn shape(entries: usize, width: usize) -> BufferShape {
    BufferShape { entries, width }
}

/// The contents of groups.
pub open spec fn groups(gs: Seq<Vec<Vec<BaseFieldVec>>>) -> Seq<Seq<Seq<Seq<u32>>>> {
    Seq::new(gs.len(), |i: int| batches(gs[i]@))
}

/// The group has the given shape, and its columns hold `len` values each.
pub open spec fn is_group(group: Seq<Seq<Seq<u32>>>, s: BufferShape, len: nat) -> bool {
    &&& group.len() == s.entries
    &&& forall|e: int|
        0 <= e < group.len() ==> is_shape(#[trigger] group[e], s.width as nat, len)
}

/// The groups have the given shapes, and their columns hold `len` values each.
pub open spec fn have_shapes(
    gs: Seq<Seq<Seq<Seq<u32>>>>,
    shapes: Seq<BufferShape>,
    len: nat,
) -> bool {
    &&& gs.len() == shapes.len()
    &&& forall|g: int| 0 <= g < gs.len() ==> is_group(#[trigger] gs[g], shapes[g], len)
}

/// A group of the given shape whose columns hold `len` zeroes each.
pub open spec fn zero_group(s: BufferShape, len: nat) -> Seq<Seq<Seq<u32>>> {
    Seq::new(s.entries as nat, |e: int| zero_columns(s.width as nat, len))
}

/// Groups of the given shapes whose columns hold `len` zeroes each.
pub open spec fn zero_groups(shapes: Seq<BufferShape>, len: nat) -> Seq<Seq<Seq<Seq<u32>>>> {
    Seq::new(shapes.len(), |g: int| zero_group(shapes[g], len))
}

impl TraceBuffers {
    /// The buffers are those of a kernel with the given numbers of columns, for a trace with two
    /// to the power of `log_size` rows.
    pub open spec fn fit(
        self,
        n_trace_columns: nat,
        lookup_shapes: Seq<BufferShape>,
        sub_input_shapes: Seq<BufferShape>,
        log_size: u32,
    ) -> bool {
        let len = pow2(log_size as nat);
        &&& is_shape(columns(self.trace@), n_trace_columns, len)
        &&& have_shapes(groups(self.lookups@), lookup_shapes, len)
        &&& have_shapes(groups(self.sub_inputs@), sub_input_shapes, len)
    }
}

/// Returns groups of the given shapes whose columns hold `len` zeroes each.
pub fn allocate_groups(shapes: &Vec<BufferShape>, len: usize) -> (gs: Vec<Vec<Vec<BaseFieldVec>>>)
    ensures
        groups(gs@) == zero_groups(shapes@, len as nat),
        have_shapes(groups(gs@), shapes@, len as nat),
{
    let mut gs: Vec<Vec<Vec<BaseFieldVec>>> = Vec::new();
    let mut g: usize = 0;
    while g < shapes.len()
        invariant
            g <= shapes.len(),
            gs.len() == g,
            forall|i: int|
                0 <= i < g ==> batches((#[trigger] gs@[i])@) == zero_group(shapes@[i], len as nat),
        decreases shapes.len() - g,
    {
        let s = shapes[g];
        let mut group: Vec<Vec<BaseFieldVec>> = Vec::new();
        let mut e: usize = 0;
        while e < s.entries
            invariant
                e <= s.entries,
                group.len() == e,
                forall|i: int|
                    0 <= i < e ==> columns((#[trigger] group@[i])@) == zero_columns(
                        s.width as nat,
                        len as nat,
                    ),
            decreases s.entries - e,
        {
            group.push(new_zero_columns(s.width, len));
            e = e + 1;
        }
        assert(batches(group@) =~= zero_group(s, len as nat));
        gs.push(group);
        g = g + 1;
    }
    assert(groups(gs@) =~= zero_groups(shapes@, len as nat));
    gs
}

/// Returns buffers of zeroes for a trace kernel.
pub fn allocate(
    n_trace_columns: usize,
    lookup_shapes: &Vec<BufferShape>,
    sub_input_shapes: &Vec<BufferShape>,
    log_size: u32,
) -> (b: TraceBuffers)
    requires
        log_size < 32,
    ensures
        b.fit(n_trace_columns as nat, lookup_shapes@, sub_input_shapes@, log_size),
        columns(b.trace@) == zero_columns(n_trace_columns as nat, pow2(log_size as nat)),
        groups(b.lookups@) == zero_groups(lookup_shapes@, pow2(log_size as nat)),
        groups(b.sub_inputs@) == zero_groups(sub_input_shapes@, pow2(log_size as nat)),
{
    let len = crate::bits::exp2(log_size);
    TraceBuffers {
        trace: new_zero_columns(n_trace_columns, len),
        lookups: allocate_groups(lookup_shapes, len),
        sub_inputs: allocate_groups(sub_input_shapes, len),
    }
}

/// Tells whether there are `width` columns that hold `len` values each.
pub fn columns_have_shape(cols: &Vec<BaseFieldVec>, width: usize, len: usize) -> (r: bool)
    ensures
        r == is_shape(columns(cols@), width as nat, len as nat),
{
    if cols.len() != width {
        return false;
    }
    let mut i: usize = 0;
    while i < cols.len()
        invariant
            i <= cols.len(),
            forall|j: int| 0 <= j < i ==> (#[trigger] columns(cols@)[j]).len() == len,
        decreases cols.len() - i,
    {
        if cols[i].size() != len {
            assert(columns(cols@)[i as int].len() != len);
            return false;
        }
        i = i + 1;
    }
    true
}

/// Tells whether the columns are evaluations over a domain of the given size.
pub fn are_evaluations_of(cols: &Vec<BaseFieldVec>, log_size: u32) -> (r: bool)
    ensures
        r == are_evaluations(columns(cols@), log_size),
{
    log_size > 0 && log_size <= MAX_LOG_SIZE && columns_have_shape(
        cols,
        cols.len(),
        crate::bits::exp2(log_size),
    )
}

/// Tells whether the groups have the given shapes and their columns hold `len` values each.
pub fn groups_have_shapes(
    gs: &Vec<Vec<Vec<BaseFieldVec>>>,
    shapes: &Vec<BufferShape>,
    len: usize,
) -> (r: bool)
    ensures
        r == have_shapes(groups(gs@), shapes@, len as nat),
{
    if gs.len() != shapes.len() {
        return false;
    }
    let mut g: usize = 0;
    while g < gs.len()
        invariant
            g <= gs.len(),
            gs.len() == shapes.len(),
            forall|i: int|
                0 <= i < g ==> is_group(#[trigger] groups(gs@)[i], shapes@[i], len as nat),
        decreases gs.len() - g,
    {
        let group = &gs[g];
        let s = shapes[g];
        assert(groups(gs@)[g as int] == batches(group@));
        if group.len() != s.entries {
            return false;
        }
        let mut e: usize = 0;
        while e < group.len()
            invariant
                e <= group.len(),
                g < gs.len(),
                *group == gs@[g as int],
                s == shapes@[g as int],
                gs.len() == shapes.len(),
                groups(gs@)[g as int] == batches(group@),
                forall|i: int|
                    0 <= i < e ==> is_shape(
                        #[trigger] batches(group@)[i],
                        s.width as nat,
                        len as nat,
                    ),
            decreases group.len() - e,
        {
            if !columns_have_shape(&group[e], s.width, len) {
                assert(!is_shape(batches(group@)[e as int], s.width as nat, len as nat));
                assert(!is_group(groups(gs@)[g as int], s, len as nat));
                return false;
            }
            e = e + 1;
        }
        g = g + 1;
    }
    true
}

impl TraceBuffers {
    /// Tells whether the buffers are those of a kernel with the given numbers of columns.
    pub fn check(
        &self,
        n_trace_columns: usize,
        lookup_shapes: &Vec<BufferShape>,
        sub_input_shapes: &Vec<BufferShape>,
        log_size: u32,
    ) -> (r: bool)
        requires
            log_size < 32,
        ensures
            r == self.fit(n_trace_columns as nat, lookup_shapes@, sub_input_shapes@, log_size),
    {
        let len = crate::bits::exp2(log_size);
        columns_have_shape(&self.trace, n_trace_columns, len) && groups_have_shapes(
            &self.lookups,
            lookup_shapes,
            len,
        ) && groups_have_shapes(&self.sub_inputs, sub_input_shapes, len)
    }
}

/// The constants of a request are canonical.
pub open spec fn is_valid_request(request: LookupRequest) -> bool {
    match request {
        LookupRequest::Plain(relation_id) => relation_id < P,
        LookupRequest::WithOffset(relation_id, offset) => relation_id < P && offset < P,
    }
}

/// `m` holds the elements that were asked for.
pub open spec fn answers(
    m: LookupElements,
    common: LookupElements,
    request: LookupRequest,
) -> bool {
    match request {
        LookupRequest::Plain(relation_id) => is_modified_lookup(m, common, relation_id),
        LookupRequest::WithOffset(relation_id, offset) => is_per_relation_with_offset(
            m,
            common,
            relation_id,
            offset,
        ),
    }
}

/// `ms` holds the elements that were asked for, in the order of the requests.
pub open spec fn answer_all(
    ms: Seq<LookupElements>,
    common: LookupElements,
    requests: Seq<LookupRequest>,
) -> bool {
    &&& ms.len() == requests.len()
    &&& forall|i: int|
        0 <= i < ms.len() ==> (#[trigger] ms[i]).wf() && answers(ms[i], common, requests[i])
}

/// What answers a request looks the requested relation up.
pub open spec fn looks_up_request(
    m: LookupElements,
    common: LookupElements,
    request: LookupRequest,
) -> bool {
    match request {
        LookupRequest::Plain(relation_id) => looks_up(m, common, relation_id),
        LookupRequest::WithOffset(relation_id, offset) => looks_up_shifted(
            m,
            common,
            relation_id,
            offset,
        ),
    }
}

/// Every answer looks the relation up that was asked for at its place.
pub proof fn law_answers_look_up(
    ms: Seq<LookupElements>,
    common: LookupElements,
    requests: Seq<LookupRequest>,
)
    requires
        common.is_common(),
        answer_all(ms, common, requests),
    ensures
        ms.len() == requests.len(),
        forall|i: int|
            0 <= i < ms.len() ==> looks_up_request(#[trigger] ms[i], common, requests[i]),
{
    assert forall|i: int| 0 <= i < ms.len() implies looks_up_request(
        #[trigger] ms[i],
        common,
        requests[i],
    ) by {
        assert(answers(ms[i], common, requests[i]));
        match requests[i] {
            LookupRequest::Plain(relation_id) => {
                law_modified_lookups_look_up(ms[i], common, relation_id);
            },
            LookupRequest::WithOffset(relation_id, offset) => {
                law_shifted_lookups_look_up(ms[i], common, relation_id, offset);
            },
        }
    }
}

/// The registers of a state.
pub const N_REGISTERS: usize = 3;

/// The limbs of a value in memory.
pub const N_VALUE_LIMBS: usize = 28;

/// What an instruction is looked up by: its place, its offsets, its flags, and its extension.
pub const N_INSTRUCTION_FIELDS: usize = 7;

/// The number of entries of the first `n` groups.
pub open spec fn entries_before(shapes: Seq<BufferShape>, n: int) -> nat
    decreases n,
{
    if n <= 0 {
        0
    } else {
        entries_before(shapes, n - 1) + shapes[n - 1].entries as nat
    }
}

/// Returns the elements that are asked for, in the order of the requests.
pub fn modified_lookups(common: &LookupElements, requests: &Vec<LookupRequest>) -> (ms: Vec<
    LookupElements,
>)
    requires
        common.is_common(),
        forall|i: int| 0 <= i < requests@.len() ==> is_valid_request(#[trigger] requests@[i]),
    ensures
        answer_all(ms@, *common, requests@),
{
    let mut ms: Vec<LookupElements> = Vec::new();
    let mut i: usize = 0;
    while i < requests.len()
        invariant
            i <= requests.len(),
            common.is_common(),
            forall|i: int| 0 <= i < requests@.len() ==> is_valid_request(#[trigger] requests@[i]),
            answer_all(ms@, *common, requests@.take(i as int)),
        decreases requests.len() - i,
    {
        assert(is_valid_request(requests@[i as int]));
        let m = match requests[i] {
            LookupRequest::Plain(relation_id) => create_modified_lookup_for_cuda(
                common,
                relation_id,
            ),
            LookupRequest::WithOffset(relation_id, offset) =>
                create_modified_lookup_for_cuda_with_offset(common, relation_id, offset),
        };
        let ghost before = ms@;
        ms.push(m);
        i = i + 1;
        assert forall|k: int| 0 <= k < ms@.len() implies (#[trigger] ms@[k]).wf() && answers(
            ms@[k],
            *common,
            requests@.take(i as int)[k],
        ) by {
            if k < i - 1 {
                assert(ms@[k] == before[k]);
                assert(requests@.take(i - 1)[k] == requests@[k]);
            }
        }
    }
    assert(requests@.take(i as int) =~= requests@);
    ms
}

/// Returns the columns of zeroes that an interaction kernel fills: four for each secure column.
pub fn interaction_columns(n_columns: usize, log_size: u32) -> (cols: Vec<BaseFieldVec>)
    requires
        log_size < 32,
        n_columns < 0x1000_0000,
    ensures
        columns(cols@) == zero_columns(4 * n_columns as nat, pow2(log_size as nat)),
{
    new_zero_columns(4 * n_columns, crate::bits::exp2(log_size))
}

/// Commits the columns of an interaction trace and claims the sum whose coordinates the kernel
/// wrote.
pub fn finish_interaction(
    tree_builder: &mut TreeBuilder,
    cols: Vec<BaseFieldVec>,
    log_size: u32,
    claimed_sum: [u32; 4],
) -> (r: InteractionClaim)
    requires
        are_evaluations(columns(cols@), log_size),
    ensures
        final(tree_builder)@ == old(tree_builder)@ + committed(log_size, columns(cols@)),
        r.claimed_sum == secure_of(claimed_sum@),
{
    tree_builder.extend_evals(log_size, cols);
    InteractionClaim { claimed_sum: secure_from_m31_array(claimed_sum) }
}

/// The secure field element with the given coordinates.
pub open spec fn secure_of(limbs: Seq<u32>) -> SecureField {
    SecureField { a: limbs[0], b: limbs[1], c: limbs[2], d: limbs[3] }
}

/// What an interaction kernel wrote.
pub struct InteractionOutcome {
    pub columns: Vec<BaseFieldVec>,
    pub claimed_sum: [u32; 4],
}

/// A component whose trace was committed and whose interaction trace is yet to be written.
pub struct PendingInteraction {
    pub log_size: u32,
    pub lookup_data: Vec<Vec<Vec<BaseFieldVec>>>,
}

impl PendingInteraction {
    /// Commits the columns that the interaction kernel filled and claims its sum.
    pub fn write_interaction_trace(
        self,
        tree_builder: &mut TreeBuilder,
        cols: Vec<BaseFieldVec>,
        claimed_sum: [u32; 4],
    ) -> (r: InteractionClaim)
        requires
            are_evaluations(columns(cols@), self.log_size),
        ensures
            final(tree_builder)@ == old(tree_builder)@ + committed(self.log_size, columns(cols@)),
            r.claimed_sum == secure_of(claimed_sum@),
    {
        finish_interaction(tree_builder, cols, self.log_size, claimed_sum)
    }
}

/// The four words of a claimed sum are its coordinates, in order.
pub proof fn law_words_are_coordinates(limbs: Seq<u32>)
    requires
        limbs.len() == 4,
    ensures
        seq![secure_of(limbs).a, secure_of(limbs).b, secure_of(limbs).c, secure_of(limbs).d]
            == limbs,
{
    assert(seq![secure_of(limbs).a, secure_of(limbs).b, secure_of(limbs).c, secure_of(limbs).d]
        =~= limbs);
}

/// Buffers are made as they are described: a group for every shape, with as many entries as it
/// says, each of its width, and nothing but zeroes in them.
pub proof fn law_new_buffers_hold_zeroes(
    shapes: Seq<BufferShape>,
    len: nat,
    g: int,
    e: int,
    f: int,
    row: int,
)
    requires
        0 <= g < shapes.len(),
        0 <= e < shapes[g].entries,
        0 <= f < shapes[g].width,
        0 <= row < len,
    ensures
        zero_groups(shapes, len).len() == shapes.len(),
        zero_groups(shapes, len)[g].len() == shapes[g].entries,
        zero_groups(shapes, len)[g][e].len() == shapes[g].width,
        zero_groups(shapes, len)[g][e][f].len() == len,
        zero_groups(shapes, len)[g][e][f][row] == 0,
{
}

} // verus!
