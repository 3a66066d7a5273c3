//! Lookup elements and the relations that use them.
//!
//! An entry of a relation is the tuple of the relation's constant and the entry's values. Kernels
//! know nothing of relation constants: they are handed elements into which the constant is baked.

use crate::column::is_canonical;
use crate::field::{
    reduced, secure_difference, secure_minus, secure_scaled, secure_times, SecureField, P,
};
use vstd::prelude::*;

verus! {

/// The random elements by which the values of an entry are combined into one.
pub struct LookupElements {
    pub z: SecureField,
    pub alpha: SecureField,
    pub alpha_powers: Vec<SecureField>,
}

/// The number of powers in the elements that all relations share.
pub const N_COMMON_POWERS: usize = 128;

impl LookupElements {
    /// All coordinates are canonical.
    pub open spec fn wf(self) -> bool {
        &&& self.z.wf()
        &&& self.alpha.wf()
        &&& forall|i: int|
            0 <= i < self.alpha_powers@.len() ==> (#[trigger] self.alpha_powers@[i]).wf()
    }

    /// These are elements that all relations share.
    pub open spec fn is_common(self) -> bool {
        &&& self.wf()
        &&& self.alpha_powers@.len() == N_COMMON_POWERS
    }
}

/// The constants that identify the relations. The relations of the 19-bit range checks and those
/// of the 9-bit pairs come in eight variants each, in order.
pub struct RelationIds {
    pub memory_address_to_id: u32,
    pub memory_id_to_big: u32,
    pub opcodes: u32,
    pub verify_instruction: u32,
    pub rc_18: u32,
    pub rc_18_b: u32,
    pub rc_11: u32,
    pub rc_7_2_5: u32,
    pub rc_4_3: u32,
    pub rc_4_4: u32,
    pub rc_4_4_4_4: u32,
    pub rc_3_3_3_3_3: u32,
    pub range_check_252_width_27: u32,
    pub verify_bitwise_xor_8: u32,
    pub verify_bitwise_xor_8_b: u32,
    pub triple_xor_32: u32,
    pub blake_round: u32,
    pub partial_ec_mul: u32,
    pub pedersen_points_table: u32,
    pub cube_252: u32,
    pub poseidon_round_keys: u32,
    pub poseidon_full_round_chain: u32,
    pub poseidon_3_partial_rounds_chain: u32,
    pub rc_19: [u32; 8],
    pub rc_9_9: [u32; 8],
}

impl RelationIds {
    /// All constants are canonical.
    pub open spec fn wf(self) -> bool {
        &&& self.memory_address_to_id < P
        &&& self.memory_id_to_big < P
        &&& self.opcodes < P
        &&& self.verify_instruction < P
        &&& self.rc_18 < P
        &&& self.rc_18_b < P
        &&& self.rc_11 < P
        &&& self.rc_7_2_5 < P
        &&& self.rc_4_3 < P
        &&& self.rc_4_4 < P
        &&& self.rc_4_4_4_4 < P
        &&& self.rc_3_3_3_3_3 < P
        &&& self.range_check_252_width_27 < P
        &&& self.verify_bitwise_xor_8 < P
        &&& self.verify_bitwise_xor_8_b < P
        &&& self.triple_xor_32 < P
        &&& self.blake_round < P
        &&& self.partial_ec_mul < P
        &&& self.pedersen_points_table < P
        &&& self.cube_252 < P
        &&& self.poseidon_round_keys < P
        &&& self.poseidon_full_round_chain < P
        &&& self.poseidon_3_partial_rounds_chain < P
        &&& forall|i: int| 0 <= i < 8 ==> #[trigger] self.rc_19@[i] < P
        &&& forall|i: int| 0 <= i < 8 ==> #[trigger] self.rc_9_9@[i] < P
    }
}

/// The sum of the values, each multiplied by its weight.
pub open spec fn weighted(weight: spec_fn(int) -> int, values: Seq<u32>) -> int
    decreases values.len(),
{
    if values.len() == 0 {
        0
    } else {
        weighted(weight, values.drop_last()) + weight(values.len() - 1) * values.last()
    }
}

/// The values weighted by the powers, minus z.
pub open spec fn combined_by(
    z: SecureField,
    powers: Seq<SecureField>,
    values: Seq<u32>,
) -> SecureField {
    reduced(
        weighted(|i: int| powers[i].a as int, values) - z.a,
        weighted(|i: int| powers[i].b as int, values) - z.b,
        weighted(|i: int| powers[i].c as int, values) - z.c,
        weighted(|i: int| powers[i].d as int, values) - z.d,
    )
}

/// The denominator of an entry: its values weighted by the powers of alpha, minus z.
pub open spec fn combined(e: LookupElements, values: Seq<u32>) -> SecureField {
    combined_by(e.z, e.alpha_powers@, values)
}

/// `m` is `common` with the relation constant baked into z and the powers shifted by one.
pub open spec fn is_per_relation(
    m: LookupElements,
    common: LookupElements,
    relation_constant: u32,
    n_powers: nat,
) -> bool {
    &&& m.z == secure_difference(
        common.z,
        secure_scaled(common.alpha_powers@[0], relation_constant),
    )
    &&& m.alpha == common.alpha
    &&& m.alpha_powers@ == common.alpha_powers@.subrange(1, n_powers as int + 1)
}

/// `m` is `common` with the relation constant baked into z, every remaining power kept, and
/// `offset` added to the first value of every entry.
pub open spec fn is_per_relation_with_offset(
    m: LookupElements,
    common: LookupElements,
    relation_constant: u32,
    offset: u32,
) -> bool {
    let per_relation_z = secure_difference(
        common.z,
        secure_scaled(common.alpha_powers@[0], relation_constant),
    );
    &&& m.z == secure_difference(per_relation_z, secure_scaled(common.alpha_powers@[1], offset))
    &&& m.alpha == common.alpha
    &&& m.alpha_powers@ == common.alpha_powers@.subrange(1, common.alpha_powers@.len() as int)
}

/// `m` is what a kernel is handed for a relation: `common` with the relation constant baked into
/// z, every remaining power kept.
pub open spec fn is_modified_lookup(
    m: LookupElements,
    common: LookupElements,
    relation_constant: u32,
) -> bool {
    is_per_relation(m, common, relation_constant, (common.alpha_powers@.len() - 1) as nat)
}

proof fn lemma_weighted_ext(f: spec_fn(int) -> int, g: spec_fn(int) -> int, values: Seq<u32>)
    requires
        forall|i: int| 0 <= i < values.len() ==> #[trigger] f(i) == g(i),
    ensures
        weighted(f, values) == weighted(g, values),
    decreases values.len(),
{
    if values.len() > 0 {
        lemma_weighted_ext(f, g, values.drop_last());
        assert(f(values.len() - 1) == g(values.len() - 1));
    }
}

proof fn lemma_weighted_prepend(f: spec_fn(int) -> int, first: u32, values: Seq<u32>)
    ensures
        weighted(f, seq![first] + values) == f(0) * first + weighted(|i: int| f(i + 1), values),
    decreases values.len(),
{
    let all = seq![first] + values;
    if values.len() == 0 {
        assert(all.drop_last() =~= Seq::<u32>::empty());
        assert(weighted(f, all.drop_last()) == 0);
    } else {
        assert(all.drop_last() =~= seq![first] + values.drop_last());
        lemma_weighted_prepend(f, first, values.drop_last());
    }
}

proof fn lemma_weighted_first(f: spec_fn(int) -> int, values: Seq<u32>, moved: Seq<u32>, by: int)
    requires
        values.len() > 0,
        moved.len() == values.len(),
        moved.skip(1) == values.skip(1),
        moved[0] == values[0] + by,
    ensures
        weighted(f, moved) == weighted(f, values) + f(0) * by,
{
    assert(values =~= seq![values[0]] + values.skip(1));
    assert(moved =~= seq![moved[0]] + values.skip(1));
    lemma_weighted_prepend(f, values[0], values.skip(1));
    lemma_weighted_prepend(f, moved[0], values.skip(1));
    assert(f(0) * (values[0] + by) == f(0) * values[0] + f(0) * by) by (nonlinear_arith);
}

/// One coordinate: a sum minus a z from which a product was taken is the sum and the product
/// minus the z.
proof fn lemma_coordinate(sum: int, z: int, product: int)
    ensures
        (sum - (z - product % (P as int)) % (P as int)) % (P as int) == (product + sum - z) % (
        P as int),
{
    let p = P as int;
    vstd::arithmetic::div_mod::lemma_sub_mod_noop_right(sum, z - product % p, p);
    vstd::arithmetic::div_mod::lemma_sub_mod_noop_right(z, product, p);
    vstd::arithmetic::div_mod::lemma_sub_mod_noop_right(sum, z - product, p);
    assert((z - product % p) % p == (z - product) % p);
}

/// The elements with a baked-in constant give an entry the denominator that the shared elements
/// give it with the relation constant in front:
/// `sum alpha'_i * v_i - z' == alpha_0 * constant + sum alpha_(i+1) * v_i - z`.
pub proof fn law_per_relation_denominator(
    m: LookupElements,
    common: LookupElements,
    relation_constant: u32,
    n_powers: nat,
    values: Seq<u32>,
)
    requires
        n_powers + 1 <= common.alpha_powers@.len(),
        values.len() <= n_powers,
        is_per_relation(m, common, relation_constant, n_powers),
    ensures
        combined(m, values) == combined(common, seq![relation_constant] + values),
{
    let powers = common.alpha_powers@;
    let shifted = m.alpha_powers@;
    let fa = |i: int| powers[i].a as int;
    let fb = |i: int| powers[i].b as int;
    let fc = |i: int| powers[i].c as int;
    let fd = |i: int| powers[i].d as int;
    lemma_weighted_prepend(fa, relation_constant, values);
    lemma_weighted_prepend(fb, relation_constant, values);
    lemma_weighted_prepend(fc, relation_constant, values);
    lemma_weighted_prepend(fd, relation_constant, values);
    lemma_weighted_ext(|i: int| shifted[i].a as int, |i: int| fa(i + 1), values);
    lemma_weighted_ext(|i: int| shifted[i].b as int, |i: int| fb(i + 1), values);
    lemma_weighted_ext(|i: int| shifted[i].c as int, |i: int| fc(i + 1), values);
    lemma_weighted_ext(|i: int| shifted[i].d as int, |i: int| fd(i + 1), values);
    lemma_coordinate(
        weighted(|i: int| shifted[i].a as int, values),
        common.z.a as int,
        powers[0].a * relation_constant,
    );
    lemma_coordinate(
        weighted(|i: int| shifted[i].b as int, values),
        common.z.b as int,
        powers[0].b * relation_constant,
    );
    lemma_coordinate(
        weighted(|i: int| shifted[i].c as int, values),
        common.z.c as int,
        powers[0].c * relation_constant,
    );
    lemma_coordinate(
        weighted(|i: int| shifted[i].d as int, values),
        common.z.d as int,
        powers[0].d * relation_constant,
    );
}

/// One coordinate of the offset law.
proof fn lemma_offset_coordinate(
    sum: int,
    z: int,
    product: int,
    power: int,
    offset: int,
    value: int,
    moved_sum: int,
)
    requires
        moved_sum == sum + power * ((value + offset) % (P as int) - value),
    ensures
        (sum - ((z - product % (P as int)) % (P as int) - (power * offset) % (P as int)) % (
        P as int)) % (P as int) == (product + moved_sum - z) % (P as int),
{
    let p = P as int;
    let z1 = (z - product % p) % p;
    lemma_coordinate(sum, z1, power * offset);
    lemma_coordinate(sum + power * offset, z, product);
    let k = (value + offset) / p;
    vstd::arithmetic::div_mod::lemma_fundamental_div_mod(value + offset, p);
    assert(power * ((value + offset) % p - value) == power * offset + (-(power * k)) * p)
        by (nonlinear_arith)
        requires
            value + offset == p * k + (value + offset) % p,
    ;
    let total = product + sum + power * offset - z;
    assert(product + moved_sum - z == p * (-(power * k)) + total) by (nonlinear_arith)
        requires
            moved_sum == sum + (power * offset + (-(power * k)) * p),
            total == product + sum + power * offset - z,
    ;
    vstd::arithmetic::div_mod::lemma_mod_multiples_vanish(-(power * k), total, p);
}

/// The elements with a baked-in constant and offset give an entry the denominator that the shared
/// elements give to the entry with the offset added to its first value and the relation constant
/// in front.
pub proof fn law_offset_denominator(
    m: LookupElements,
    common: LookupElements,
    relation_constant: u32,
    offset: u32,
    values: Seq<u32>,
)
    requires
        0 < values.len() < common.alpha_powers@.len(),
        is_per_relation_with_offset(m, common, relation_constant, offset),
    ensures
        combined(m, values) == combined(
            common,
            seq![relation_constant] + values.update(
                0,
                ((values[0] + offset) % (P as int)) as u32,
            ),
        ),
{
    let powers = common.alpha_powers@;
    let shifted = m.alpha_powers@;
    let moved = values.update(0, ((values[0] + offset) % (P as int)) as u32);
    let by = (values[0] + offset) % (P as int) - values[0];
    assert(moved.skip(1) =~= values.skip(1));
    let fa = |i: int| powers[i].a as int;
    let fb = |i: int| powers[i].b as int;
    let fc = |i: int| powers[i].c as int;
    let fd = |i: int| powers[i].d as int;
    let ga = |i: int| shifted[i].a as int;
    let gb = |i: int| shifted[i].b as int;
    let gc = |i: int| shifted[i].c as int;
    let gd = |i: int| shifted[i].d as int;
    lemma_weighted_prepend(fa, relation_constant, moved);
    lemma_weighted_prepend(fb, relation_constant, moved);
    lemma_weighted_prepend(fc, relation_constant, moved);
    lemma_weighted_prepend(fd, relation_constant, moved);
    lemma_weighted_ext(ga, |i: int| fa(i + 1), moved);
    lemma_weighted_ext(gb, |i: int| fb(i + 1), moved);
    lemma_weighted_ext(gc, |i: int| fc(i + 1), moved);
    lemma_weighted_ext(gd, |i: int| fd(i + 1), moved);
    lemma_weighted_first(ga, values, moved, by);
    lemma_weighted_first(gb, values, moved, by);
    lemma_weighted_first(gc, values, moved, by);
    lemma_weighted_first(gd, values, moved, by);
    assert(shifted[0] == powers[1]);
    let v = values[0] as int;
    let o = offset as int;
    let k = relation_constant as int;
    lemma_offset_coordinate(
        weighted(ga, values),
        common.z.a as int,
        powers[0].a * k,
        powers[1].a as int,
        o,
        v,
        weighted(ga, moved),
    );
    lemma_offset_coordinate(
        weighted(gb, values),
        common.z.b as int,
        powers[0].b * k,
        powers[1].b as int,
        o,
        v,
        weighted(gb, moved),
    );
    lemma_offset_coordinate(
        weighted(gc, values),
        common.z.c as int,
        powers[0].c * k,
        powers[1].c as int,
        o,
        v,
        weighted(gc, moved),
    );
    lemma_offset_coordinate(
        weighted(gd, values),
        common.z.d as int,
        powers[0].d * k,
        powers[1].d as int,
        o,
        v,
        weighted(gd, moved),
    );
}

/// An entry of the relation has the denominator that the shared elements give to the entry with the
/// relation constant in front.
#[verifier::opaque]
pub open spec fn looks_up(m: LookupElements, common: LookupElements, constant: u32) -> bool {
    forall|values: Seq<u32>|
        values.len() < common.alpha_powers@.len() ==> #[trigger] combined(m, values) == combined(
            common,
            seq![constant] + values,
        )
}

/// An entry of the relation, stored without an offset in its first value, has the denominator that
/// the shared elements give to the entry with the offset and with the relation constant in front.
#[verifier::opaque]
pub open spec fn looks_up_shifted(
    m: LookupElements,
    common: LookupElements,
    constant: u32,
    offset: u32,
) -> bool {
    forall|values: Seq<u32>|
        0 < values.len() < common.alpha_powers@.len() ==> #[trigger] combined(m, values)
            == combined(
            common,
            seq![constant] + values.update(0, ((values[0] + offset) % (P as int)) as u32),
        )
}

/// What a kernel is handed for a relation looks that relation up.
pub proof fn law_modified_lookups_look_up(
    m: LookupElements,
    common: LookupElements,
    constant: u32,
)
    requires
        common.alpha_powers@.len() > 0,
        is_modified_lookup(m, common, constant),
    ensures
        looks_up(m, common, constant),
{
    reveal(looks_up);
    let n = (common.alpha_powers@.len() - 1) as nat;
    assert forall|values: Seq<u32>|
        values.len() < common.alpha_powers@.len() implies #[trigger] combined(m, values)
        == combined(common, seq![constant] + values) by {
        law_per_relation_denominator(m, common, constant, n, values);
    }
}

/// What a kernel is handed for a relation whose values lack an offset looks that relation up with
/// the offset.
pub proof fn law_shifted_lookups_look_up(
    m: LookupElements,
    common: LookupElements,
    constant: u32,
    offset: u32,
)
    requires
        common.alpha_powers@.len() > 1,
        is_per_relation_with_offset(m, common, constant, offset),
    ensures
        looks_up_shifted(m, common, constant, offset),
{
    reveal(looks_up_shifted);
    assert forall|values: Seq<u32>|
        0 < values.len() < common.alpha_powers@.len() implies #[trigger] combined(m, values)
        == combined(
        common,
        seq![constant] + values.update(0, ((values[0] + offset) % (P as int)) as u32),
    ) by {
        law_offset_denominator(m, common, constant, offset, values);
    }
}

/// Returns elements into which a relation constant is baked, with `n_powers` powers of alpha.
pub fn create_per_relation_lookup_elements(
    common: &LookupElements,
    relation_constant: u32,
    n_powers: usize,
) -> (m: LookupElements)
    requires
        common.wf(),
        relation_constant < P,
        n_powers < common.alpha_powers@.len(),
    ensures
        m.wf(),
        is_per_relation(m, *common, relation_constant, n_powers as nat),
{
    let mut alpha_powers: Vec<SecureField> = Vec::new();
    let mut i: usize = 0;
    while i < n_powers
        invariant
            i <= n_powers,
            n_powers < common.alpha_powers@.len(),
            common.wf(),
            alpha_powers@ == common.alpha_powers@.subrange(1, i + 1),
        decreases n_powers - i,
    {
        alpha_powers.push(common.alpha_powers[i + 1]);
        i = i + 1;
        assert(alpha_powers@ =~= common.alpha_powers@.subrange(1, i + 1));
    }
    assert(common.alpha_powers@[0].wf());
    let baked = secure_times(common.alpha_powers[0], relation_constant);
    let z = secure_minus(common.z, baked);
    assert forall|j: int| 0 <= j < alpha_powers@.len() implies (
    #[trigger] alpha_powers@[j]).wf() by {
        assert(common.alpha_powers@[j + 1].wf());
    }
    LookupElements { z, alpha: common.alpha, alpha_powers }
}

/// Returns the elements that a kernel is handed for a relation.
pub fn create_modified_lookup_for_cuda(common: &LookupElements, relation_constant: u32) -> (m:
    LookupElements)
    requires
        common.wf(),
        relation_constant < P,
        common.alpha_powers@.len() > 0,
    ensures
        m.wf(),
        is_modified_lookup(m, *common, relation_constant),
{
    create_per_relation_lookup_elements(common, relation_constant, common.alpha_powers.len() - 1)
}

/// Returns the elements that a kernel is handed for a relation when the values that it combines
/// lack `offset`.
pub fn create_modified_lookup_for_cuda_with_offset(
    common: &LookupElements,
    relation_constant: u32,
    offset: u32,
) -> (m: LookupElements)
    requires
        common.wf(),
        relation_constant < P,
        offset < P,
        common.alpha_powers@.len() > 1,
    ensures
        m.wf(),
        is_per_relation_with_offset(m, *common, relation_constant, offset),
{
    let m = create_modified_lookup_for_cuda(common, relation_constant);
    assert(common.alpha_powers@[1].wf());
    let baked = secure_times(common.alpha_powers[1], offset);
    let z = secure_minus(m.z, baked);
    LookupElements { z, alpha: m.alpha, alpha_powers: m.alpha_powers }
}

/// `LookupElements::combine` of `stwo_constraint_framework`, with base field values: the values
/// weighted by the powers, minus z. There may not be more values than powers.
#[verifier::external_body]
fn combine_values(
    z: SecureField,
    alpha: SecureField,
    alpha_powers: [SecureField; 128],
    values: &Vec<u32>,
) -> (r: SecureField)
    requires
        z.wf(),
        alpha.wf(),
        forall|i: int| 0 <= i < 128 ==> (#[trigger] alpha_powers@[i]).wf(),
        is_canonical(values@),
        values@.len() <= 128,
    ensures
        r == combined_by(z, alpha_powers@, values@),
{
    let of = |x: SecureField| {
        stwo::core::fields::qm31::QM31::from_u32_unchecked(x.a, x.b, x.c, x.d)
    };
    let (z, alpha, alpha_powers) = (of(z), of(alpha), alpha_powers.map(of));
    let e = stwo_constraint_framework::logup::LookupElements { z, alpha, alpha_powers };
    let values: Vec<stwo::core::fields::m31::M31> = values.iter().map(|v| (*v).into()).collect();
    let r: stwo::core::fields::qm31::QM31 = e.combine(&values);
    let [a, b, c, d] = r.to_m31_array();
    SecureField { a: a.0, b: b.0, c: c.0, d: d.0 }
}

/// Returns the denominator of an entry.
pub fn combine(e: &LookupElements, values: &Vec<u32>) -> (r: SecureField)
    requires
        e.wf(),
        is_canonical(values@),
        values@.len() <= e.alpha_powers@.len() <= N_COMMON_POWERS,
    ensures
        r == combined(*e, values@),
{
    let mut powers: [SecureField; 128] = [SecureField { a: 0, b: 0, c: 0, d: 0 };128];
    let mut i: usize = 0;
    while i < e.alpha_powers.len()
        invariant
            i <= e.alpha_powers@.len() <= N_COMMON_POWERS,
            e.wf(),
            forall|j: int| 0 <= j < i ==> #[trigger] powers@[j] == e.alpha_powers@[j],
            forall|j: int| 0 <= j < 128 ==> (#[trigger] powers@[j]).wf(),
        decreases e.alpha_powers.len() - i,
    {
        assert(e.alpha_powers@[i as int].wf());
        powers[i] = e.alpha_powers[i];
        i = i + 1;
    }
    proof {
        let given = e.alpha_powers@;
        lemma_weighted_ext(
            |i: int| powers@[i].a as int,
            |i: int| given[i].a as int,
            values@,
        );
        lemma_weighted_ext(
            |i: int| powers@[i].b as int,
            |i: int| given[i].b as int,
            values@,
        );
        lemma_weighted_ext(
            |i: int| powers@[i].c as int,
            |i: int| given[i].c as int,
            values@,
        );
        lemma_weighted_ext(
            |i: int| powers@[i].d as int,
            |i: int| given[i].d as int,
            values@,
        );
    }
    combine_values(e.z, e.alpha, powers, values)
}

} // verus!
