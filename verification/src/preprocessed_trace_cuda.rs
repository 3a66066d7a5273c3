//! The preprocessed trace: which columns it is made of.

use crate::column::{columns, BaseFieldVec};
use crate::components_cuda::range_check::base::{table_row, total_bits};
use crate::preprocessed_columns::{
    gen_bitwise_xor_columns_cuda, gen_range_check_columns_cuda, gen_seq_column_cuda,
    law_a_sequence_counts_up, sequence, table_columns, xor_columns,
};
use crate::preprocessed_ids::{
    bitwise_xor_id, bitwise_xor_name, blake_sigma_id, indexed_name, law_bitwise_xor_name,
    law_indexed_name, law_range_check_name, law_tables_of_points_are_told_apart,
    parse_bitwise_xor_id, parse_blake_sigma_id, parse_pedersen_points_id,
    parse_pedersen_points_small_id, parse_poseidon_round_keys_id, parse_range_check_id,
    pedersen_points_id, pedersen_points_small_id, poseidon_round_keys_id, range_check_id,
    range_check_name, starts_with,
};
use crate::text::{begins_with, same_text, without_prefix};
use crate::tree_builder::{CircleEvaluation, Committed, MAX_LOG_SIZE};
use vstd::arithmetic::power2::pow2;
use vstd::prelude::*;

verus! {

/// The lower case equivalent of a text.
pub uninterp spec fn lowercase(text: Seq<char>) -> Seq<char>;

/// `str::to_lowercase` of `std`: the lower case equivalent of the text, which depends on the text
/// alone.
#[verifier::external_body]
fn to_lowercase(text: &str) -> (r: String)
    ensures
        r@ == lowercase(text@),
{
    text.to_lowercase()
}

/// Tells whether the value of the setting, given with its lower case equivalent, leaves generation
/// on the device enabled: it does unless it is `0` or `false`.
pub fn leaves_enabled(value: &str, lowercased: &str) -> (r: bool)
    ensures
        r == !(value@ == "0"@ || lowercased@ == "false"@),
{
    !(same_text(value, "0") || same_text(lowercased, "false"))
}

/// Tells whether preprocessed columns are generated on the device, for the value of the setting if
/// it has one. They are by default; the values `0` and `false`, the latter in any case, disable it.
pub fn use_gpu_generation(value: Option<&str>) -> (r: bool)
    ensures
        r == match value {
            Some(v) => !(v@ == "0"@ || lowercase(v@) == "false"@),
            None => true,
        },
{
    match value {
        Some(v) => leaves_enabled(v, to_lowercase(v).as_str()),
        None => true,
    }
}

/// What a name says of a column.
pub enum Kind {
    Sequence,
    RangeCheck(Seq<u32>, usize),
    BitwiseXor(u32, usize),
    PedersenPointsSmall(usize),
    PedersenPoints(usize),
    PoseidonRoundKeys(usize),
    BlakeSigma(usize),
    Unknown,
}

/// What the name says of the column. The forms are tried in this order.
pub open spec fn kind_of(id: Seq<char>) -> Kind {
    if begins_with(id, "seq_"@) {
        Kind::Sequence
    } else if let Some((bits, index)) = range_check_id(id) {
        Kind::RangeCheck(bits, index)
    } else if let Some((n_bits, index)) = bitwise_xor_id(id) {
        Kind::BitwiseXor(n_bits, index)
    } else if let Some(index) = pedersen_points_small_id(id) {
        Kind::PedersenPointsSmall(index)
    } else if let Some(index) = pedersen_points_id(id) {
        Kind::PedersenPoints(index)
    } else if let Some(index) = poseidon_round_keys_id(id) {
        Kind::PoseidonRoundKeys(index)
    } else if let Some(index) = blake_sigma_id(id) {
        Kind::BlakeSigma(index)
    } else {
        Kind::Unknown
    }
}

/// What a name says of a column.
pub enum ColumnKind {
    Sequence,
    RangeCheck(Vec<u32>, usize),
    BitwiseXor(u32, usize),
    PedersenPointsSmall(usize),
    PedersenPoints(usize),
    PoseidonRoundKeys(usize),
    BlakeSigma(usize),
    Unknown,
}

impl View for ColumnKind {
    type V = Kind;

    open spec fn view(&self) -> Kind {
        match *self {
            ColumnKind::Sequence => Kind::Sequence,
            ColumnKind::RangeCheck(bits, index) => Kind::RangeCheck(bits@, index),
            ColumnKind::BitwiseXor(n_bits, index) => Kind::BitwiseXor(n_bits, index),
            ColumnKind::PedersenPointsSmall(index) => Kind::PedersenPointsSmall(index),
            ColumnKind::PedersenPoints(index) => Kind::PedersenPoints(index),
            ColumnKind::PoseidonRoundKeys(index) => Kind::PoseidonRoundKeys(index),
            ColumnKind::BlakeSigma(index) => Kind::BlakeSigma(index),
            ColumnKind::Unknown => Kind::Unknown,
        }
    }
}

/// Returns what the name says of the column.
pub fn column_kind(id: &str) -> (kind: ColumnKind)
    ensures
        kind@ == kind_of(id@),
{
    if starts_with(id, "seq_") {
        return ColumnKind::Sequence;
    }
    if let Some((bits, index)) = parse_range_check_id(id) {
        return ColumnKind::RangeCheck(bits, index);
    }
    if let Some((n_bits, index)) = parse_bitwise_xor_id(id) {
        return ColumnKind::BitwiseXor(n_bits, index);
    }
    if let Some(index) = parse_pedersen_points_small_id(id) {
        return ColumnKind::PedersenPointsSmall(index);
    }
    if let Some(index) = parse_pedersen_points_id(id) {
        return ColumnKind::PedersenPoints(index);
    }
    if let Some(index) = parse_poseidon_round_keys_id(id) {
        return ColumnKind::PoseidonRoundKeys(index);
    }
    if let Some(index) = parse_blake_sigma_id(id) {
        return ColumnKind::BlakeSigma(index);
    }
    ColumnKind::Unknown
}

/// The names.
pub open spec fn names(ids: Seq<String>) -> Seq<Seq<char>> {
    Seq::new(ids.len(), |i: int| ids[i]@)
}

/// How many columns there are of each kind.
#[derive(Clone, Copy, Debug, PartialEq, Eq, Structural)]
pub struct ColumnCounts {
    pub seq: u32,
    pub range_check: u32,
    pub bitwise_xor: u32,
    pub pedersen: u32,
    pub pedersen_small: u32,
    pub poseidon: u32,
    pub blake: u32,
}

/// The counts with one more column of the given kind.
pub open spec fn with_one_more(counts: ColumnCounts, kind: Kind) -> ColumnCounts {
    match kind {
        Kind::Sequence => ColumnCounts { seq: (counts.seq + 1) as u32, ..counts },
        Kind::RangeCheck(_, _) => ColumnCounts {
            range_check: (counts.range_check + 1) as u32,
            ..counts
        },
        Kind::BitwiseXor(_, _) => ColumnCounts {
            bitwise_xor: (counts.bitwise_xor + 1) as u32,
            ..counts
        },
        Kind::PedersenPointsSmall(_) => ColumnCounts {
            pedersen_small: (counts.pedersen_small + 1) as u32,
            ..counts
        },
        Kind::PedersenPoints(_) => ColumnCounts {
            pedersen: (counts.pedersen + 1) as u32,
            ..counts
        },
        Kind::PoseidonRoundKeys(_) => ColumnCounts {
            poseidon: (counts.poseidon + 1) as u32,
            ..counts
        },
        Kind::BlakeSigma(_) => ColumnCounts { blake: (counts.blake + 1) as u32, ..counts },
        Kind::Unknown => counts,
    }
}

/// How many of the names are of each kind.
pub open spec fn counts_of(ids: Seq<Seq<char>>) -> ColumnCounts
    decreases ids.len(),
{
    if ids.len() == 0 {
        ColumnCounts {
            seq: 0,
            range_check: 0,
            bitwise_xor: 0,
            pedersen: 0,
            pedersen_small: 0,
            poseidon: 0,
            blake: 0,
        }
    } else {
        with_one_more(counts_of(ids.drop_last()), kind_of(ids.last()))
    }
}

/// The number of counted columns.
pub open spec fn total_count(counts: ColumnCounts) -> int {
    counts.seq + counts.range_check + counts.bitwise_xor + counts.pedersen
        + counts.pedersen_small + counts.poseidon + counts.blake
}

/// Every column of a known kind is counted once.
pub proof fn law_counts_add_up(ids: Seq<Seq<char>>)
    requires
        ids.len() <= u32::MAX,
        forall|i: int| 0 <= i < ids.len() ==> !(kind_of(#[trigger] ids[i]) is Unknown),
    ensures
        total_count(counts_of(ids)) == ids.len(),
    decreases ids.len(),
{
    if ids.len() > 0 {
        let before = ids.drop_last();
        assert forall|i: int| 0 <= i < before.len() implies !(kind_of(
            #[trigger] before[i],
        ) is Unknown) by {
            assert(before[i] == ids[i]);
        }
        law_counts_add_up(before);
        assert(!(kind_of(ids[ids.len() - 1]) is Unknown));
    }
}

proof fn lemma_counts_bound(ids: Seq<Seq<char>>)
    requires
        ids.len() <= u32::MAX,
    ensures
        total_count(counts_of(ids)) <= ids.len(),
    decreases ids.len(),
{
    if ids.len() > 0 {
        lemma_counts_bound(ids.drop_last());
    }
}

/// The column of a table that has the given index.
pub struct IndexedColumn {
    pub index: usize,
    pub column: CircleEvaluation,
}

/// Columns that are generated elsewhere: whole tables of points, and those columns of the round
/// keys and of the message permutations that the names ask for, in any order.
pub struct OutsideColumns {
    pub pedersen: Vec<CircleEvaluation>,
    pub pedersen_small: Vec<CircleEvaluation>,
    pub poseidon_round_keys: Vec<IndexedColumn>,
    pub blake_sigma: Vec<IndexedColumn>,
}

/// Where the first column with the given index stands; the number of columns if there is none.
pub open spec fn first_with(cols: Seq<IndexedColumn>, index: usize) -> int
    decreases cols.len(),
{
    if cols.len() == 0 {
        0
    } else {
        let at = first_with(cols.drop_last(), index);
        if at < cols.len() - 1 || cols.last().index == index {
            at
        } else {
            cols.len() as int
        }
    }
}

proof fn lemma_first_with(cols: Seq<IndexedColumn>, index: usize, at: int)
    requires
        0 <= at <= cols.len(),
        forall|k: int| 0 <= k < at ==> (#[trigger] cols[k]).index != index,
        at < cols.len() ==> cols[at].index == index,
    ensures
        first_with(cols, index) == at,
    decreases cols.len(),
{
    if cols.len() > 0 {
        let before = cols.drop_last();
        let inside = if at < before.len() {
            at
        } else {
            before.len() as int
        };
        assert forall|k: int| 0 <= k < inside implies (#[trigger] before[k]).index != index by {
            assert(cols[k].index != index);
        }
        lemma_first_with(before, index, inside);
    }
}

fn find_index(cols: &Vec<IndexedColumn>, index: usize) -> (at: usize)
    ensures
        at == first_with(cols@, index),
        at <= cols@.len(),
{
    let mut at: usize = 0;
    while at < cols.len() && cols[at].index != index
        invariant
            at <= cols@.len(),
            forall|k: int| 0 <= k < at ==> (#[trigger] cols@[k]).index != index,
        decreases cols.len() - at,
    {
        at = at + 1;
    }
    proof {
        lemma_first_with(cols@, index, at as int);
    }
    at
}

/// The evaluation.
pub open spec fn evaluation(eval: CircleEvaluation) -> Committed {
    (eval.log_size, eval.values@)
}

/// The evaluations.
pub open spec fn evaluations(evals: Seq<CircleEvaluation>) -> Seq<Committed> {
    Seq::new(evals.len(), |i: int| evaluation(evals[i]))
}

/// The column of the given kind.
pub open spec fn column_of(kind: Kind, log_size: u32, outside: OutsideColumns) -> Committed {
    match kind {
        Kind::Sequence => (log_size, sequence(log_size as nat)),
        Kind::RangeCheck(bits, index) => (
            total_bits(bits) as u32,
            table_columns(bits)[index as int],
        ),
        Kind::BitwiseXor(n_bits, index) => (
            (2 * n_bits) as u32,
            xor_columns(n_bits)[index as int],
        ),
        Kind::PedersenPointsSmall(index) => evaluation(outside.pedersen_small@[index as int]),
        Kind::PedersenPoints(index) => evaluation(outside.pedersen@[index as int]),
        Kind::PoseidonRoundKeys(index) => evaluation(
            outside.poseidon_round_keys@[first_with(outside.poseidon_round_keys@, index)].column,
        ),
        Kind::BlakeSigma(index) => evaluation(
            outside.blake_sigma@[first_with(outside.blake_sigma@, index)].column,
        ),
        Kind::Unknown => arbitrary(),
    }
}

/// The column can be generated.
pub open spec fn can_generate(kind: Kind, log_size: u32, outside: OutsideColumns) -> bool {
    &&& 0 < log_size <= MAX_LOG_SIZE
    &&& match kind {
        Kind::Sequence => true,
        Kind::RangeCheck(bits, index) => total_bits(bits) <= MAX_LOG_SIZE && index < bits.len(),
        Kind::BitwiseXor(n_bits, index) => 2 * n_bits <= MAX_LOG_SIZE && index < 3,
        Kind::PedersenPointsSmall(index) => index < outside.pedersen_small@.len(),
        Kind::PedersenPoints(index) => index < outside.pedersen@.len(),
        Kind::PoseidonRoundKeys(index) => first_with(outside.poseidon_round_keys@, index)
            < outside.poseidon_round_keys@.len(),
        Kind::BlakeSigma(index) => first_with(outside.blake_sigma@, index)
            < outside.blake_sigma@.len(),
        Kind::Unknown => false,
    }
}

/// The two columns belong to the same generated table.
pub open spec fn same_table(a: Kind, b: Kind) -> bool {
    match (a, b) {
        (Kind::RangeCheck(bits, _), Kind::RangeCheck(other, _)) => bits == other,
        (Kind::BitwiseXor(n_bits, _), Kind::BitwiseXor(other, _)) => n_bits == other,
        _ => false,
    }
}

/// No earlier column belongs to the same generated table.
pub open spec fn is_first_of_table(kinds: Seq<Kind>, i: int) -> bool {
    forall|j: int| 0 <= j < i ==> !same_table(#[trigger] kinds[j], kinds[i])
}

/// The column has the size of the table that it belongs to.
pub open spec fn has_table_size(kind: Kind, log_size: u32) -> bool {
    match kind {
        Kind::RangeCheck(bits, _) => log_size == total_bits(bits),
        Kind::BitwiseXor(n_bits, _) => log_size == 2 * n_bits,
        _ => true,
    }
}

/// What the names say of the columns.
pub open spec fn all_kinds(ids: Seq<Seq<char>>) -> Seq<Kind> {
    Seq::new(ids.len(), |i: int| kind_of(ids[i]))
}

/// The first column of each generated table has the size of the table.
pub open spec fn tables_have_sizes(kinds: Seq<Kind>, log_sizes: Seq<u32>) -> bool {
    forall|i: int|
        0 <= i < kinds.len() && is_first_of_table(kinds, i) ==> has_table_size(
            #[trigger] kinds[i],
            log_sizes[i],
        )
}

/// Every column can be generated.
pub open spec fn can_generate_all(
    ids: Seq<Seq<char>>,
    log_sizes: Seq<u32>,
    outside: OutsideColumns,
) -> bool {
    &&& ids.len() == log_sizes.len() <= u32::MAX
    &&& forall|i: int|
        0 <= i < ids.len() ==> can_generate(
            kind_of(#[trigger] ids[i]),
            log_sizes[i],
            outside,
        )
    &&& tables_have_sizes(all_kinds(ids), log_sizes)
}

/// The columns with the given names.
pub open spec fn columns_of(
    ids: Seq<Seq<char>>,
    log_sizes: Seq<u32>,
    outside: OutsideColumns,
) -> Seq<Committed> {
    Seq::new(ids.len(), |i: int| column_of(kind_of(ids[i]), log_sizes[i], outside))
}

/// A column follows from its own name and size: the other columns of the trace and their order do
/// not matter, and columns with the same name and size are the same.
pub proof fn law_a_column_follows_from_its_name(
    ids: Seq<Seq<char>>,
    log_sizes: Seq<u32>,
    i: int,
    other_ids: Seq<Seq<char>>,
    other_log_sizes: Seq<u32>,
    j: int,
    outside: OutsideColumns,
)
    requires
        0 <= i < ids.len(),
        0 <= j < other_ids.len(),
        ids[i] == other_ids[j],
        log_sizes[i] == other_log_sizes[j],
    ensures
        columns_of(ids, log_sizes, outside).len() == ids.len(),
        columns_of(ids, log_sizes, outside)[i] == columns_of(
            other_ids,
            other_log_sizes,
            outside,
        )[j],
{
}

/// The column has the size of the table that its name stands for.
pub open spec fn has_named_size(kind: Kind, log_size: u32, outside: OutsideColumns) -> bool {
    match kind {
        Kind::Sequence | Kind::RangeCheck(_, _) | Kind::BitwiseXor(_, _) => has_table_size(
            kind,
            log_size,
        ),
        _ => column_of(kind, log_size, outside).0 == log_size,
    }
}

/// Every column has the size of the table that its name stands for.
pub open spec fn have_named_sizes(
    ids: Seq<Seq<char>>,
    log_sizes: Seq<u32>,
    outside: OutsideColumns,
) -> bool {
    forall|i: int|
        0 <= i < ids.len() ==> has_named_size(kind_of(#[trigger] ids[i]), log_sizes[i], outside)
}

/// A column whose name stands for a table of the given size is an evaluation over the domain of
/// that size.
pub proof fn law_columns_have_their_sizes(
    ids: Seq<Seq<char>>,
    log_sizes: Seq<u32>,
    outside: OutsideColumns,
    i: int,
)
    requires
        can_generate_all(ids, log_sizes, outside),
        have_named_sizes(ids, log_sizes, outside),
        0 <= i < ids.len(),
    ensures
        columns_of(ids, log_sizes, outside)[i].0 == log_sizes[i],
{
    assert(can_generate(kind_of(ids[i]), log_sizes[i], outside));
    assert(has_named_size(kind_of(ids[i]), log_sizes[i], outside));
}

/// What the host generates for a kind and a size is what the kind stands for: ascending numbers, a
/// column of a table of tuples or of exclusive ors, or the column that was brought from elsewhere.
pub open spec fn is_host_generator(
    host: spec_fn(Kind, u32) -> Committed,
    outside: OutsideColumns,
) -> bool {
    &&& forall|log_size: u32| #[trigger]
        host(Kind::Sequence, log_size) == (log_size, sequence(log_size as nat))
    &&& forall|bits: Seq<u32>, index: usize, log_size: u32|
        index < bits.len() && log_size == total_bits(bits) ==> #[trigger] host(
            Kind::RangeCheck(bits, index),
            log_size,
        ) == (log_size, table_columns(bits)[index as int])
    &&& forall|n_bits: u32, index: usize, log_size: u32|
        index < 3 && log_size == 2 * n_bits ==> #[trigger] host(
            Kind::BitwiseXor(n_bits, index),
            log_size,
        ) == (log_size, xor_columns(n_bits)[index as int])
    &&& forall|index: usize|
        #![trigger outside.pedersen_small@[index as int]]
        index < outside.pedersen_small@.len() ==> host(
            Kind::PedersenPointsSmall(index),
            outside.pedersen_small@[index as int].log_size,
        ) == evaluation(outside.pedersen_small@[index as int])
    &&& forall|index: usize|
        #![trigger outside.pedersen@[index as int]]
        index < outside.pedersen@.len() ==> host(
            Kind::PedersenPoints(index),
            outside.pedersen@[index as int].log_size,
        ) == evaluation(outside.pedersen@[index as int])
    &&& forall|k: int|
        0 <= k < outside.poseidon_round_keys@.len() ==> host(
            Kind::PoseidonRoundKeys((#[trigger] outside.poseidon_round_keys@[k]).index),
            outside.poseidon_round_keys@[k].column.log_size,
        ) == evaluation(outside.poseidon_round_keys@[k].column)
    &&& forall|k: int|
        0 <= k < outside.blake_sigma@.len() ==> host(
            Kind::BlakeSigma((#[trigger] outside.blake_sigma@[k]).index),
            outside.blake_sigma@[k].column.log_size,
        ) == evaluation(outside.blake_sigma@[k].column)
}

/// What the host generates for the names.
pub open spec fn host_columns(
    host: spec_fn(Kind, u32) -> Committed,
    ids: Seq<Seq<char>>,
    log_sizes: Seq<u32>,
) -> Seq<Committed> {
    Seq::new(ids.len(), |i: int| host(kind_of(ids[i]), log_sizes[i]))
}

proof fn lemma_first_has_index(cols: Seq<IndexedColumn>, index: usize)
    requires
        first_with(cols, index) < cols.len(),
    ensures
        0 <= first_with(cols, index),
        cols[first_with(cols, index)].index == index,
        forall|j: int| 0 <= j < first_with(cols, index) ==> (#[trigger] cols[j]).index != index,
    decreases cols.len(),
{
    let before = cols.drop_last();
    if first_with(before, index) < before.len() {
        lemma_first_has_index(before, index);
        assert forall|j: int| 0 <= j < first_with(cols, index) implies (
        #[trigger] cols[j]).index != index by {
            assert(before[j] == cols[j]);
        }
    } else {
        lemma_first_with_bound(before, index);
        lemma_none_has_index(before, index);
        assert forall|j: int| 0 <= j < first_with(cols, index) implies (
        #[trigger] cols[j]).index != index by {
            assert(before[j] == cols[j]);
        }
    }
}

proof fn lemma_none_has_index(cols: Seq<IndexedColumn>, index: usize)
    requires
        first_with(cols, index) >= cols.len(),
    ensures
        forall|j: int| 0 <= j < cols.len() ==> (#[trigger] cols[j]).index != index,
    decreases cols.len(),
{
    if cols.len() > 0 {
        let before = cols.drop_last();
        lemma_first_with_bound(before, index);
        lemma_none_has_index(before, index);
        assert forall|j: int| 0 <= j < cols.len() implies (#[trigger] cols[j]).index != index by {
            if j < before.len() {
                assert(before[j] == cols[j]);
            }
        }
    }
}

proof fn lemma_first_with_bound(cols: Seq<IndexedColumn>, index: usize)
    ensures
        0 <= first_with(cols, index) <= cols.len(),
    decreases cols.len(),
{
    if cols.len() > 0 {
        lemma_first_with_bound(cols.drop_last(), index);
    }
}

/// Generation by name and generation on the host agree: for columns of known kinds and of the sizes
/// that their names stand for, both give the same evaluations over the same domains.
pub proof fn law_generation_on_and_off_agree(
    ids: Seq<Seq<char>>,
    log_sizes: Seq<u32>,
    outside: OutsideColumns,
    host: spec_fn(Kind, u32) -> Committed,
)
    requires
        can_generate_all(ids, log_sizes, outside),
        have_named_sizes(ids, log_sizes, outside),
        is_host_generator(host, outside),
    ensures
        columns_of(ids, log_sizes, outside) == host_columns(host, ids, log_sizes),
{
    let on = columns_of(ids, log_sizes, outside);
    let off = host_columns(host, ids, log_sizes);
    assert forall|i: int| 0 <= i < ids.len() implies on[i] == off[i] by {
        let kind = kind_of(ids[i]);
        let log_size = log_sizes[i];
        assert(can_generate(kind, log_size, outside));
        assert(has_named_size(kind, log_size, outside));
        match kind {
            Kind::Sequence => {
                assert(host(Kind::Sequence, log_size) == (log_size, sequence(log_size as nat)));
            },
            Kind::PoseidonRoundKeys(index) => {
                lemma_first_has_index(outside.poseidon_round_keys@, index);
            },
            Kind::BlakeSigma(index) => {
                lemma_first_has_index(outside.blake_sigma@, index);
            },
            _ => {},
        }
    }
    assert(on =~= off);
}

/// The tables that were generated, each with the widths of its segments.
struct TableCache {
    entries: Vec<(Vec<u32>, Vec<BaseFieldVec>)>,
}

impl TableCache {
    /// Every entry holds the columns of its table, and no table is there twice.
    spec fn wf(self) -> bool {
        &&& forall|c: int|
            0 <= c < self.entries@.len() ==> columns((#[trigger] self.entries@[c]).1@)
                == table_columns(self.entries@[c].0@)
        &&& forall|c: int, d: int|
            0 <= c < d < self.entries@.len() ==> (#[trigger] self.entries@[c]).0@
                != (#[trigger] self.entries@[d]).0@
    }

    /// Returns a column of the table; the table is generated if it is not there yet.
    fn column(&mut self, bits: &Vec<u32>, index: usize) -> (r: BaseFieldVec)
        requires
            old(self).wf(),
            total_bits(bits@) <= MAX_LOG_SIZE,
            index < bits@.len(),
        ensures
            final(self).wf(),
            r@ == table_columns(bits@)[index as int],
    {
        let mut c: usize = 0;
        while c < self.entries.len()
            invariant
                c <= self.entries.len(),
                self.wf(),
                index < bits@.len(),
                forall|d: int| 0 <= d < c ==> (#[trigger] self.entries@[d]).0@ != bits@,
            decreases self.entries.len() - c,
        {
            if same_numbers(&self.entries[c].0, bits) {
                assert(columns(self.entries@[c as int].1@) == table_columns(bits@));
                assert(columns(self.entries@[c as int].1@).len() == bits@.len());
                return self.entries[c].1[index].duplicate();
            }
            c = c + 1;
        }
        let cols = gen_range_check_columns_cuda(bits);
        assert(columns(cols@).len() == bits@.len());
        let r = cols[index].duplicate();
        let key = bits.clone();
        assert(key@ =~= bits@);
        self.entries.push((key, cols));
        r
    }
}

/// The xor tables that were generated, each with its number of bits.
struct XorCache {
    entries: Vec<(u32, Vec<BaseFieldVec>)>,
}

impl XorCache {
    /// Every entry holds the columns of its table, and no table is there twice.
    spec fn wf(self) -> bool {
        &&& forall|c: int|
            0 <= c < self.entries@.len() ==> columns((#[trigger] self.entries@[c]).1@)
                == xor_columns(self.entries@[c].0)
        &&& forall|c: int, d: int|
            0 <= c < d < self.entries@.len() ==> (#[trigger] self.entries@[c]).0
                != (#[trigger] self.entries@[d]).0
    }

    /// Returns a column of the table; the table is generated if it is not there yet.
    fn column(&mut self, n_bits: u32, index: usize) -> (r: BaseFieldVec)
        requires
            old(self).wf(),
            2 * n_bits <= MAX_LOG_SIZE,
            index < 3,
        ensures
            final(self).wf(),
            r@ == xor_columns(n_bits)[index as int],
    {
        let mut c: usize = 0;
        while c < self.entries.len()
            invariant
                c <= self.entries.len(),
                self.wf(),
                index < 3,
                forall|d: int| 0 <= d < c ==> (#[trigger] self.entries@[d]).0 != n_bits,
            decreases self.entries.len() - c,
        {
            if self.entries[c].0 == n_bits {
                assert(columns(self.entries@[c as int].1@).len() == 3);
                return self.entries[c].1[index].duplicate();
            }
            c = c + 1;
        }
        let cols = gen_bitwise_xor_columns_cuda(n_bits);
        assert(columns(cols@).len() == 3);
        let r = cols[index].duplicate();
        self.entries.push((n_bits, cols));
        r
    }
}

fn same_numbers(a: &Vec<u32>, b: &Vec<u32>) -> (r: bool)
    ensures
        r == (a@ == b@),
{
    if a.len() != b.len() {
        return false;
    }
    let mut i: usize = 0;
    while i < a.len()
        invariant
            i <= a.len() == b.len(),
            forall|j: int| 0 <= j < i ==> #[trigger] a@[j] == b@[j],
        decreases a.len() - i,
    {
        if a[i] != b[i] {
            return false;
        }
        i = i + 1;
    }
    assert(a@ =~= b@);
    true
}

fn duplicate_evaluation(eval: &CircleEvaluation) -> (r: CircleEvaluation)
    ensures
        evaluation(r) == evaluation(*eval),
{
    CircleEvaluation { log_size: eval.log_size, values: eval.values.duplicate() }
}

/// Returns the preprocessed columns with the given names, in their order, and how many there are
/// of each kind. A table that several names share is generated once.
pub fn gen_preprocessed_trace_on_gpu(
    log_sizes: &Vec<u32>,
    ids: &Vec<String>,
    outside: &OutsideColumns,
) -> (r: (Vec<CircleEvaluation>, ColumnCounts))
    requires
        can_generate_all(names(ids@), log_sizes@, *outside),
    ensures
        evaluations(r.0@) == columns_of(names(ids@), log_sizes@, *outside),
        r.1 == counts_of(names(ids@)),
{
    let ghost all = names(ids@);
    let mut tables = TableCache { entries: Vec::new() };
    let mut xor_tables = XorCache { entries: Vec::new() };
    let mut results: Vec<CircleEvaluation> = Vec::new();
    let mut counts = ColumnCounts {
        seq: 0,
        range_check: 0,
        bitwise_xor: 0,
        pedersen: 0,
        pedersen_small: 0,
        poseidon: 0,
        blake: 0,
    };
    let mut i: usize = 0;
    assert(all.take(0) =~= Seq::<Seq<char>>::empty());
    while i < ids.len()
        invariant
            i <= ids.len(),
            all == names(ids@),
            can_generate_all(all, log_sizes@, *outside),
            tables.wf(),
            xor_tables.wf(),
            results@.len() == i,
            forall|k: int|
                0 <= k < i ==> evaluation(#[trigger] results@[k]) == column_of(
                    kind_of(all[k]),
                    log_sizes@[k],
                    *outside,
                ),
            counts == counts_of(all.take(i as int)),
        decreases ids.len() - i,
    {
        let log_size = log_sizes[i];
        let kind = column_kind(ids[i].as_str());
        proof {
            assert(all[i as int] == ids@[i as int]@);
            assert(can_generate(kind_of(all[i as int]), log_size, *outside));
            lemma_counts_bound(all.take(i as int));
            assert(all.take(i + 1).drop_last() =~= all.take(i as int));
            assert(all.take(i + 1).last() == all[i as int]);
        }
        let eval = match kind {
            ColumnKind::Sequence => {
                counts.seq = counts.seq + 1;
                CircleEvaluation { log_size, values: gen_seq_column_cuda(log_size) }
            },
            ColumnKind::RangeCheck(bits, index) => {
                counts.range_check = counts.range_check + 1;
                let table_log_size = match crate::preprocessed_columns::sum_of_bits(
                    &bits,
                    MAX_LOG_SIZE,
                ) {
                    Some(n) => n,
                    None => log_size,
                };
                CircleEvaluation {
                    log_size: table_log_size,
                    values: tables.column(&bits, index),
                }
            },
            ColumnKind::BitwiseXor(n_bits, index) => {
                counts.bitwise_xor = counts.bitwise_xor + 1;
                CircleEvaluation {
                    log_size: 2 * n_bits,
                    values: xor_tables.column(n_bits, index),
                }
            },
            ColumnKind::PedersenPointsSmall(index) => {
                counts.pedersen_small = counts.pedersen_small + 1;
                duplicate_evaluation(&outside.pedersen_small[index])
            },
            ColumnKind::PedersenPoints(index) => {
                counts.pedersen = counts.pedersen + 1;
                duplicate_evaluation(&outside.pedersen[index])
            },
            ColumnKind::PoseidonRoundKeys(index) => {
                counts.poseidon = counts.poseidon + 1;
                let at = find_index(&outside.poseidon_round_keys, index);
                duplicate_evaluation(&outside.poseidon_round_keys[at].column)
            },
            ColumnKind::BlakeSigma(index) => {
                counts.blake = counts.blake + 1;
                let at = find_index(&outside.blake_sigma, index);
                duplicate_evaluation(&outside.blake_sigma[at].column)
            },
            ColumnKind::Unknown => CircleEvaluation {
                log_size,
                values: BaseFieldVec::new_zeroes(0),
            },
        };
        results.push(eval);
        i = i + 1;
    }
    assert(all.take(i as int) =~= all);
    assert(evaluations(results@) =~= columns_of(all, log_sizes@, *outside));
    (results, counts)
}

/// Returns the preprocessed columns: generated by name where that is enabled, otherwise those that
/// the host generated.
pub fn gen_preprocessed_trace_cuda(
    enabled: bool,
    log_sizes: &Vec<u32>,
    ids: &Vec<String>,
    outside: &OutsideColumns,
    host: Vec<CircleEvaluation>,
) -> (r: Vec<CircleEvaluation>)
    requires
        enabled ==> can_generate_all(names(ids@), log_sizes@, *outside),
    ensures
        evaluations(r@) == (if enabled {
            columns_of(names(ids@), log_sizes@, *outside)
        } else {
            evaluations(host@)
        }),
{
    if enabled {
        gen_preprocessed_trace_on_gpu(log_sizes, ids, outside).0
    } else {
        host
    }
}

/// What is said of the columns.
spec fn said(kinds: Seq<ColumnKind>) -> Seq<Kind> {
    Seq::new(kinds.len(), |i: int| kinds[i]@)
}

fn kinds_of(ids: &Vec<String>) -> (kinds: Vec<ColumnKind>)
    ensures
        said(kinds@) == all_kinds(names(ids@)),
{
    let mut kinds: Vec<ColumnKind> = Vec::new();
    let mut i: usize = 0;
    while i < ids.len()
        invariant
            i <= ids@.len(),
            kinds@.len() == i,
            forall|k: int| 0 <= k < i ==> (#[trigger] kinds@[k])@ == kind_of(names(ids@)[k]),
        decreases ids.len() - i,
    {
        kinds.push(column_kind(ids[i].as_str()));
        i = i + 1;
    }
    assert(said(kinds@) =~= all_kinds(names(ids@)));
    kinds
}

fn in_same_table(a: &ColumnKind, b: &ColumnKind) -> (r: bool)
    ensures
        r == same_table(a@, b@),
{
    match (a, b) {
        (ColumnKind::RangeCheck(bits, _), ColumnKind::RangeCheck(other, _)) => same_numbers(
            bits,
            other,
        ),
        (ColumnKind::BitwiseXor(n_bits, _), ColumnKind::BitwiseXor(other, _)) => *n_bits == *other,
        _ => false,
    }
}

fn first_of_table(kinds: &Vec<ColumnKind>, i: usize) -> (r: bool)
    requires
        i < kinds@.len(),
    ensures
        r == is_first_of_table(said(kinds@), i as int),
{
    let ghost all = said(kinds@);
    let mut j: usize = 0;
    while j < i
        invariant
            j <= i < kinds@.len(),
            all == said(kinds@),
            forall|k: int| 0 <= k < j ==> !same_table(#[trigger] all[k], all[i as int]),
        decreases i - j,
    {
        if in_same_table(&kinds[j], &kinds[i]) {
            assert(same_table(all[j as int], all[i as int]));
            return false;
        }
        j = j + 1;
    }
    true
}

/// Tells whether the column has the size of the table that it belongs to.
fn of_table_size(kind: &ColumnKind, log_size: u32) -> (r: bool)
    requires
        log_size <= MAX_LOG_SIZE,
    ensures
        r == has_table_size(kind@, log_size),
{
    match kind {
        ColumnKind::RangeCheck(bits, _) => match crate::preprocessed_columns::sum_of_bits(
            bits,
            MAX_LOG_SIZE,
        ) {
            Some(n) => n == log_size,
            None => false,
        },
        ColumnKind::BitwiseXor(n_bits, _) => log_size % 2 == 0 && *n_bits == log_size / 2,
        _ => true,
    }
}

/// Tells whether the column can be generated.
fn is_generable(kind: &ColumnKind, log_size: u32, outside: &OutsideColumns) -> (r: bool)
    ensures
        r == can_generate(kind@, log_size, *outside),
{
    if log_size == 0 || log_size > MAX_LOG_SIZE {
        return false;
    }
    match kind {
        ColumnKind::Sequence => true,
        ColumnKind::RangeCheck(bits, index) => *index < bits.len()
            && crate::preprocessed_columns::sum_of_bits(bits, MAX_LOG_SIZE).is_some(),
        ColumnKind::BitwiseXor(n_bits, index) => *n_bits <= MAX_LOG_SIZE / 2 && *index < 3,
        ColumnKind::PedersenPointsSmall(index) => *index < outside.pedersen_small.len(),
        ColumnKind::PedersenPoints(index) => *index < outside.pedersen.len(),
        ColumnKind::PoseidonRoundKeys(index) => find_index(&outside.poseidon_round_keys, *index)
            < outside.poseidon_round_keys.len(),
        ColumnKind::BlakeSigma(index) => find_index(&outside.blake_sigma, *index)
            < outside.blake_sigma.len(),
        ColumnKind::Unknown => false,
    }
}

/// The column can be generated, and has the size of its table if it is the first of one.
spec fn is_ready(
    kinds: Seq<Kind>,
    log_sizes: Seq<u32>,
    outside: OutsideColumns,
    i: int,
) -> bool {
    &&& can_generate(kinds[i], log_sizes[i], outside)
    &&& is_first_of_table(kinds, i) ==> has_table_size(kinds[i], log_sizes[i])
}

fn is_column_ready(
    kinds: &Vec<ColumnKind>,
    log_sizes: &Vec<u32>,
    outside: &OutsideColumns,
    i: usize,
) -> (r: bool)
    requires
        i < kinds@.len() == log_sizes@.len(),
    ensures
        r == is_ready(said(kinds@), log_sizes@, *outside, i as int),
{
    assert(said(kinds@)[i as int] == kinds@[i as int]@);
    is_generable(&kinds[i], log_sizes[i], outside) && (!first_of_table(kinds, i) || of_table_size(
        &kinds[i],
        log_sizes[i],
    ))
}

proof fn lemma_ready_columns(ids: Seq<Seq<char>>, log_sizes: Seq<u32>, outside: OutsideColumns)
    requires
        ids.len() == log_sizes.len() <= u32::MAX,
    ensures
        can_generate_all(ids, log_sizes, outside) <==> forall|i: int|
            0 <= i < ids.len() ==> #[trigger] is_ready(all_kinds(ids), log_sizes, outside, i),
{
    let kinds = all_kinds(ids);
    if can_generate_all(ids, log_sizes, outside) {
        assert forall|i: int| 0 <= i < ids.len() implies #[trigger] is_ready(
            kinds,
            log_sizes,
            outside,
            i,
        ) by {
            assert(kinds[i] == kind_of(ids[i]));
        }
    }
    if forall|i: int| 0 <= i < ids.len() ==> #[trigger] is_ready(kinds, log_sizes, outside, i) {
        assert forall|i: int| 0 <= i < ids.len() implies can_generate(
            kind_of(#[trigger] ids[i]),
            log_sizes[i],
            outside,
        ) by {
            assert(is_ready(kinds, log_sizes, outside, i));
        }
        assert forall|i: int|
            0 <= i < kinds.len() && is_first_of_table(kinds, i) implies has_table_size(
            #[trigger] kinds[i],
            log_sizes[i],
        ) by {
            assert(is_ready(kinds, log_sizes, outside, i));
        }
    }
}

/// Tells whether every column can be generated.
pub fn can_be_generated(
    log_sizes: &Vec<u32>,
    ids: &Vec<String>,
    outside: &OutsideColumns,
) -> (r: bool)
    ensures
        r == can_generate_all(names(ids@), log_sizes@, *outside),
{
    if ids.len() != log_sizes.len() || ids.len() > u32::MAX as usize {
        return false;
    }
    let kinds = kinds_of(ids);
    let ghost all = said(kinds@);
    proof {
        lemma_ready_columns(names(ids@), log_sizes@, *outside);
        assert(all == all_kinds(names(ids@)));
        assert(all.len() == ids@.len());
    }
    let mut i: usize = 0;
    while i < kinds.len()
        invariant
            i <= kinds@.len() == log_sizes@.len() == ids@.len(),
            ids@.len() <= u32::MAX,
            all == said(kinds@),
            all == all_kinds(names(ids@)),
            forall|k: int| 0 <= k < i ==> #[trigger] is_ready(all, log_sizes@, *outside, k),
        decreases kinds.len() - i,
    {
        if !is_column_ready(&kinds, log_sizes, outside, i) {
            proof {
                assert(!is_ready(all, log_sizes@, *outside, i as int));
                lemma_ready_columns(names(ids@), log_sizes@, *outside);
            }
            return false;
        }
        i = i + 1;
    }
    true
}

/// What has to be generated before the preprocessed columns: whether a table of points is needed,
/// and which columns of round keys and of message permutations.
pub struct OutsideNeeds {
    pub pedersen: bool,
    pub pedersen_small: bool,
    pub poseidon_round_keys: Vec<usize>,
    pub blake_sigma: Vec<usize>,
}

/// The columns of round keys that the names ask for.
pub open spec fn round_keys_asked(ids: Seq<Seq<char>>) -> Seq<usize>
    decreases ids.len(),
{
    if ids.len() == 0 {
        Seq::empty()
    } else {
        match kind_of(ids.last()) {
            Kind::PoseidonRoundKeys(index) => round_keys_asked(ids.drop_last()).push(index),
            _ => round_keys_asked(ids.drop_last()),
        }
    }
}

/// The columns of message permutations that the names ask for.
pub open spec fn sigmas_asked(ids: Seq<Seq<char>>) -> Seq<usize>
    decreases ids.len(),
{
    if ids.len() == 0 {
        Seq::empty()
    } else {
        match kind_of(ids.last()) {
            Kind::BlakeSigma(index) => sigmas_asked(ids.drop_last()).push(index),
            _ => sigmas_asked(ids.drop_last()),
        }
    }
}

/// Every name of a column of round keys, and every one of message permutations, is one request.
pub proof fn law_one_request_for_each_name(ids: Seq<Seq<char>>)
    requires
        ids.len() <= u32::MAX,
    ensures
        round_keys_asked(ids).len() == counts_of(ids).poseidon,
        sigmas_asked(ids).len() == counts_of(ids).blake,
    decreases ids.len(),
{
    if ids.len() > 0 {
        law_one_request_for_each_name(ids.drop_last());
        lemma_counts_bound(ids.drop_last());
    }
}

/// Every column of round keys or of message permutations that a name stands for is asked for.
pub proof fn law_every_column_is_asked_for(ids: Seq<Seq<char>>, i: int)
    requires
        0 <= i < ids.len(),
    ensures
        kind_of(ids[i]) matches Kind::PoseidonRoundKeys(index) ==> round_keys_asked(ids).contains(
            index,
        ),
        kind_of(ids[i]) matches Kind::BlakeSigma(index) ==> sigmas_asked(ids).contains(index),
    decreases ids.len(),
{
    let before = ids.drop_last();
    let keys = round_keys_asked(ids);
    let sigmas = sigmas_asked(ids);
    if i == ids.len() - 1 {
        match kind_of(ids[i]) {
            Kind::PoseidonRoundKeys(index) => {
                assert(keys[keys.len() - 1] == index);
            },
            Kind::BlakeSigma(index) => {
                assert(sigmas[sigmas.len() - 1] == index);
            },
            _ => {},
        }
    } else {
        assert(before[i] == ids[i]);
        law_every_column_is_asked_for(before, i);
        match kind_of(ids[i]) {
            Kind::PoseidonRoundKeys(index) => {
                let k = choose|k: int|
                    0 <= k < round_keys_asked(before).len() && round_keys_asked(before)[k] == index;
                assert(keys[k] == index);
            },
            Kind::BlakeSigma(index) => {
                let k = choose|k: int|
                    0 <= k < sigmas_asked(before).len() && sigmas_asked(before)[k] == index;
                assert(sigmas[k] == index);
            },
            _ => {},
        }
    }
}

/// Returns what has to be generated before the columns with the given names, or the position of the
/// first name that is of no known kind.
pub fn outside_needs(ids: &Vec<String>) -> (r: Result<OutsideNeeds, usize>)
    ensures
        match r {
            Ok(needs) => {
                &&& forall|i: int|
                    0 <= i < ids@.len() ==> !(kind_of(#[trigger] names(ids@)[i]) is Unknown)
                &&& needs.pedersen <==> exists|i: int|
                    0 <= i < ids@.len() && kind_of(#[trigger] names(ids@)[i]) is PedersenPoints
                &&& needs.pedersen_small <==> exists|i: int|
                    0 <= i < ids@.len() && kind_of(
                        #[trigger] names(ids@)[i],
                    ) is PedersenPointsSmall
                &&& needs.poseidon_round_keys@ == round_keys_asked(names(ids@))
                &&& needs.blake_sigma@ == sigmas_asked(names(ids@))
            },
            Err(at) => {
                &&& at < ids@.len()
                &&& kind_of(names(ids@)[at as int]) is Unknown
                &&& forall|i: int|
                    0 <= i < at ==> !(kind_of(#[trigger] names(ids@)[i]) is Unknown)
            },
        },
{
    let ghost all = names(ids@);
    let mut pedersen: bool = false;
    let mut pedersen_small: bool = false;
    let mut poseidon_round_keys: Vec<usize> = Vec::new();
    let mut blake_sigma: Vec<usize> = Vec::new();
    let mut i: usize = 0;
    assert(all.take(0) =~= Seq::<Seq<char>>::empty());
    while i < ids.len()
        invariant
            i <= ids.len(),
            all == names(ids@),
            forall|k: int| 0 <= k < i ==> !(kind_of(#[trigger] all[k]) is Unknown),
            pedersen <==> exists|k: int| 0 <= k < i && kind_of(#[trigger] all[k]) is PedersenPoints,
            pedersen_small <==> exists|k: int|
                0 <= k < i && kind_of(#[trigger] all[k]) is PedersenPointsSmall,
            poseidon_round_keys@ == round_keys_asked(all.take(i as int)),
            blake_sigma@ == sigmas_asked(all.take(i as int)),
        decreases ids.len() - i,
    {
        proof {
            assert(all[i as int] == ids@[i as int]@);
            assert(all.take(i + 1).drop_last() =~= all.take(i as int));
            assert(all.take(i + 1).last() == all[i as int]);
        }
        match column_kind(ids[i].as_str()) {
            ColumnKind::PedersenPointsSmall(_) => {
                pedersen_small = true;
            },
            ColumnKind::PedersenPoints(_) => {
                pedersen = true;
            },
            ColumnKind::PoseidonRoundKeys(index) => {
                poseidon_round_keys.push(index);
            },
            ColumnKind::BlakeSigma(index) => {
                blake_sigma.push(index);
            },
            ColumnKind::Unknown => {
                return Err(i);
            },
            _ => {},
        }
        i = i + 1;
    }
    assert(all.take(i as int) =~= all);
    Ok(OutsideNeeds { pedersen, pedersen_small, poseidon_round_keys, blake_sigma })
}

/// The names of the kind.
pub open spec fn names_of(ids: Seq<Seq<char>>, is_kind: spec_fn(Kind) -> bool) -> Seq<Seq<char>> {
    ids.filter(|id: Seq<char>| is_kind(kind_of(id)))
}

proof fn lemma_names_of_step(ids: Seq<Seq<char>>, is_kind: spec_fn(Kind) -> bool)
    requires
        ids.len() > 0,
    ensures
        names_of(ids, is_kind).len() == names_of(ids.drop_last(), is_kind).len() + (if is_kind(
            kind_of(ids.last()),
        ) {
            1nat
        } else {
            0nat
        }),
{
    reveal(Seq::filter);
}

/// Every kind is counted as often as it is named.
pub proof fn law_counts_are_numbers_of_names(ids: Seq<Seq<char>>)
    requires
        ids.len() <= u32::MAX,
    ensures
        counts_of(ids).seq == names_of(ids, |k: Kind| k is Sequence).len(),
        counts_of(ids).range_check == names_of(ids, |k: Kind| k is RangeCheck).len(),
        counts_of(ids).bitwise_xor == names_of(ids, |k: Kind| k is BitwiseXor).len(),
        counts_of(ids).pedersen == names_of(ids, |k: Kind| k is PedersenPoints).len(),
        counts_of(ids).pedersen_small == names_of(ids, |k: Kind| k is PedersenPointsSmall).len(),
        counts_of(ids).poseidon == names_of(ids, |k: Kind| k is PoseidonRoundKeys).len(),
        counts_of(ids).blake == names_of(ids, |k: Kind| k is BlakeSigma).len(),
    decreases ids.len(),
{
    if ids.len() == 0 {
        reveal(Seq::filter);
    } else {
        law_counts_are_numbers_of_names(ids.drop_last());
        lemma_counts_bound(ids.drop_last());
        lemma_names_of_step(ids, |k: Kind| k is Sequence);
        lemma_names_of_step(ids, |k: Kind| k is RangeCheck);
        lemma_names_of_step(ids, |k: Kind| k is BitwiseXor);
        lemma_names_of_step(ids, |k: Kind| k is PedersenPoints);
        lemma_names_of_step(ids, |k: Kind| k is PedersenPointsSmall);
        lemma_names_of_step(ids, |k: Kind| k is PoseidonRoundKeys);
        lemma_names_of_step(ids, |k: Kind| k is BlakeSigma);
    }
}

proof fn lemma_does_not_begin(text: Seq<char>, pattern: Seq<char>, at: int)
    requires
        0 <= at < pattern.len(),
        at < text.len() ==> text[at] != pattern[at],
    ensures
        !begins_with(text, pattern),
        without_prefix(text, pattern) is None,
{
    if begins_with(text, pattern) {
        assert(text.subrange(0, pattern.len() as int)[at] == text[at]);
    }
}

/// A name tells the kind of its column, and the number or the numbers in it: whatever begins like a
/// sequence is one; the other names are a table's name and the index of a column.
pub proof fn law_names_tell_kinds(
    rest: Seq<char>,
    bits: Seq<u32>,
    n_bits: u32,
    index: usize,
)
    requires
        bits.len() > 0,
    ensures
        kind_of("seq_"@ + rest) == Kind::Sequence,
        kind_of(range_check_name(bits, index)) == Kind::RangeCheck(bits, index),
        kind_of(bitwise_xor_name(n_bits, index)) == Kind::BitwiseXor(n_bits, index),
        kind_of(indexed_name("pedersen_points_small_"@, index)) == Kind::PedersenPointsSmall(
            index,
        ),
        kind_of(indexed_name("pedersen_points_"@, index)) == Kind::PedersenPoints(index),
        kind_of(indexed_name("poseidon_round_keys_"@, index)) == Kind::PoseidonRoundKeys(index),
        kind_of(indexed_name("blake_sigma_"@, index)) == Kind::BlakeSigma(index),
{
    reveal_strlit("seq_");
    reveal_strlit("range_check_");
    reveal_strlit("bitwise_xor_");
    reveal_strlit("pedersen_points_small_");
    reveal_strlit("pedersen_points_");
    reveal_strlit("poseidon_round_keys_");
    reveal_strlit("blake_sigma_");
    let sequence_name = "seq_"@ + rest;
    assert(sequence_name.subrange(0, 4) =~= "seq_"@);
    let range_check = range_check_name(bits, index);
    lemma_does_not_begin(range_check, "seq_"@, 0);
    law_range_check_name(bits, index);
    let xor = bitwise_xor_name(n_bits, index);
    lemma_does_not_begin(xor, "seq_"@, 0);
    lemma_does_not_begin(xor, "range_check_"@, 0);
    law_bitwise_xor_name(n_bits, index);
    law_tables_of_points_are_told_apart(index);
    let small = indexed_name("pedersen_points_small_"@, index);
    lemma_does_not_begin(small, "seq_"@, 0);
    lemma_does_not_begin(small, "range_check_"@, 0);
    lemma_does_not_begin(small, "bitwise_xor_"@, 0);
    let points = indexed_name("pedersen_points_"@, index);
    lemma_does_not_begin(points, "seq_"@, 0);
    lemma_does_not_begin(points, "range_check_"@, 0);
    lemma_does_not_begin(points, "bitwise_xor_"@, 0);
    let keys = indexed_name("poseidon_round_keys_"@, index);
    law_indexed_name("poseidon_round_keys_"@, index);
    lemma_does_not_begin(keys, "seq_"@, 0);
    lemma_does_not_begin(keys, "range_check_"@, 0);
    lemma_does_not_begin(keys, "bitwise_xor_"@, 0);
    lemma_does_not_begin(keys, "pedersen_points_small_"@, 1);
    lemma_does_not_begin(keys, "pedersen_points_"@, 1);
    let sigma = indexed_name("blake_sigma_"@, index);
    law_indexed_name("blake_sigma_"@, index);
    lemma_does_not_begin(sigma, "seq_"@, 0);
    lemma_does_not_begin(sigma, "range_check_"@, 0);
    lemma_does_not_begin(sigma, "bitwise_xor_"@, 1);
    lemma_does_not_begin(sigma, "pedersen_points_small_"@, 0);
    lemma_does_not_begin(sigma, "pedersen_points_"@, 0);
    lemma_does_not_begin(sigma, "poseidon_round_keys_"@, 0);
}

/// No column before place `k` has the index.
pub open spec fn no_earlier(cols: Seq<IndexedColumn>, index: usize, k: int) -> bool {
    forall|j: int| 0 <= j < k ==> (#[trigger] cols[j]).index != index
}

/// The column with a name is the one that the name stands for: numbers in ascending order, a column
/// of the table of all tuples or of all exclusive ors, or the column with that index of a table
/// that was brought from elsewhere.
pub proof fn law_columns_are_those_named(
    ids: Seq<Seq<char>>,
    log_sizes: Seq<u32>,
    outside: OutsideColumns,
    i: int,
    bits: Seq<u32>,
    n_bits: u32,
    index: usize,
)
    requires
        can_generate_all(ids, log_sizes, outside),
        0 <= i < ids.len(),
        bits.len() > 0,
    ensures
        ({
            let column = columns_of(ids, log_sizes, outside)[i];
            &&& begins_with(ids[i], "seq_"@) ==> column.0 == log_sizes[i] && column.1.len() == pow2(
                log_sizes[i] as nat,
            ) && forall|k: int| 0 <= k < column.1.len() ==> #[trigger] column.1[k] == k
            &&& ids[i] == range_check_name(bits, index) ==> column.0 == total_bits(bits)
                && forall|k: int|
                0 <= k < pow2(total_bits(bits)) ==> #[trigger] column.1[k] == table_row(
                    bits,
                    k as nat,
                )[index as int]
            &&& ids[i] == bitwise_xor_name(n_bits, index) ==> column.0 == 2 * n_bits && column.1
                == xor_columns(n_bits)[index as int]
            &&& ids[i] == indexed_name("pedersen_points_small_"@, index) ==> column == evaluation(
                outside.pedersen_small@[index as int],
            )
            &&& ids[i] == indexed_name("pedersen_points_"@, index) ==> column == evaluation(
                outside.pedersen@[index as int],
            )
            &&& ids[i] == indexed_name("poseidon_round_keys_"@, index) ==> exists|k: int|
                0 <= k < outside.poseidon_round_keys@.len() && (
                #[trigger] outside.poseidon_round_keys@[k]).index == index && column == evaluation(
                    outside.poseidon_round_keys@[k].column,
                ) && no_earlier(outside.poseidon_round_keys@, index, k)
            &&& ids[i] == indexed_name("blake_sigma_"@, index) ==> exists|k: int|
                0 <= k < outside.blake_sigma@.len() && (#[trigger] outside.blake_sigma@[k]).index
                    == index && column == evaluation(outside.blake_sigma@[k].column) && no_earlier(
                    outside.blake_sigma@,
                    index,
                    k,
                )
        }),
{
    let id = ids[i];
    let column = columns_of(ids, log_sizes, outside)[i];
    assert(can_generate(kind_of(id), log_sizes[i], outside));
    law_names_tell_kinds(Seq::empty(), bits, n_bits, index);
    if begins_with(id, "seq_"@) {
        assert forall|k: int| 0 <= k < column.1.len() implies #[trigger] column.1[k] == k by {
            law_a_sequence_counts_up(log_sizes[i] as nat, k, k);
        }
    }
    if id == indexed_name("poseidon_round_keys_"@, index) {
        lemma_first_has_index(outside.poseidon_round_keys@, index);
    }
    if id == indexed_name("blake_sigma_"@, index) {
        lemma_first_has_index(outside.blake_sigma@, index);
    }
}

/// Lists of names and of evaluations are read in their order.
pub proof fn law_lists_are_read_in_order(
    ids: Seq<String>,
    more_ids: Seq<String>,
    evals: Seq<CircleEvaluation>,
    more_evals: Seq<CircleEvaluation>,
)
    ensures
        names(ids + more_ids) == names(ids) + names(more_ids),
        ids.len() == 1 ==> names(ids) == seq![ids[0]@],
        evaluations(evals + more_evals) == evaluations(evals) + evaluations(more_evals),
        evals.len() == 1 ==> evaluations(evals) == seq![(evals[0].log_size, evals[0].values@)],
{
    assert(names(ids + more_ids) =~= names(ids) + names(more_ids));
    assert(evaluations(evals + more_evals) =~= evaluations(evals) + evaluations(more_evals));
    if ids.len() == 1 {
        assert(names(ids) =~= seq![ids[0]@]);
    }
    if evals.len() == 1 {
        assert(evaluations(evals) =~= seq![(evals[0].log_size, evals[0].values@)]);
    }
}

/// A column is only taken for one of a kind if its name begins as the names of this kind do.
pub proof fn law_kinds_have_their_names(id: Seq<char>)
    ensures
        kind_of(id) is Sequence <==> begins_with(id, "seq_"@),
        kind_of(id) is RangeCheck ==> begins_with(id, "range_check_"@),
        kind_of(id) is BitwiseXor ==> begins_with(id, "bitwise_xor_"@),
        kind_of(id) is PedersenPointsSmall ==> begins_with(id, "pedersen_points_small_"@),
        kind_of(id) is PedersenPoints ==> begins_with(id, "pedersen_points_"@) && !begins_with(
            id,
            "pedersen_points_small_"@,
        ),
        kind_of(id) is PoseidonRoundKeys ==> begins_with(id, "poseidon_round_keys_"@),
        kind_of(id) is BlakeSigma ==> begins_with(id, "blake_sigma_"@),
{
}

} // verus!
