//! The base field of a trace column and the secure field of a claimed sum.
//!
//! A base field element is held as its canonical representative, a number below [`P`]. The field
//! operations are those of `stwo`.

use vstd::prelude::*;

verus! {

/// The order of the base field.
pub const P: u32 = 2147483647;

/// An element of the secure field: its four coordinates over the base field.
#[derive(Clone, Copy, Debug, PartialEq, Eq, Structural)]
pub struct SecureField {
    pub a: u32,
    pub b: u32,
    pub c: u32,
    pub d: u32,
}

impl SecureField {
    /// The coordinates are canonical.
    pub open spec fn wf(self) -> bool {
        &&& self.a < P
        &&& self.b < P
        &&& self.c < P
        &&& self.d < P
    }
}

/// The element with the given coordinates, each reduced.
pub open spec fn reduced(a: int, b: int, c: int, d: int) -> SecureField {
    SecureField {
        a: (a % (P as int)) as u32,
        b: (b % (P as int)) as u32,
        c: (c % (P as int)) as u32,
        d: (d % (P as int)) as u32,
    }
}

/// The difference of two secure field elements: coordinate by coordinate.
pub open spec fn secure_difference(x: SecureField, y: SecureField) -> SecureField {
    reduced(x.a - y.a, x.b - y.b, x.c - y.c, x.d - y.d)
}

/// A secure field element scaled by a base field element: coordinate by coordinate.
pub open spec fn secure_scaled(x: SecureField, k: u32) -> SecureField {
    reduced(x.a * k, x.b * k, x.c * k, x.d * k)
}

/// The addition of `stwo`'s `M31`: the sum of two canonical elements modulo the field's order.
#[verifier::external_body]
pub(crate) fn m31_sum(x: u32, y: u32) -> (r: u32)
    requires
        x < P,
        y < P,
    ensures
        r == (x + y) % (P as int),
{
    let x = stwo::core::fields::m31::M31::from_u32_unchecked(x);
    let y = stwo::core::fields::m31::M31::from_u32_unchecked(y);
    (x + y).0
}

/// The subtraction of `stwo`'s `M31`: the difference of two canonical elements modulo the field's
/// order.
#[verifier::external_body]
pub(crate) fn m31_difference(x: u32, y: u32) -> (r: u32)
    requires
        x < P,
        y < P,
    ensures
        r == (x - y) % (P as int),
{
    let x = stwo::core::fields::m31::M31::from_u32_unchecked(x);
    let y = stwo::core::fields::m31::M31::from_u32_unchecked(y);
    (x - y).0
}

/// The negation of `stwo`'s `M31`: the canonical element that adds up to zero with the given one.
#[verifier::external_body]
pub(crate) fn m31_negation(x: u32) -> (r: u32)
    requires
        x < P,
    ensures
        r == (-x) % (P as int),
{
    (-stwo::core::fields::m31::M31::from_u32_unchecked(x)).0
}

/// The subtraction of `stwo`'s `QM31`, on canonical coordinates: it subtracts coordinate by
/// coordinate.
#[verifier::external_body]
pub(crate) fn secure_minus(x: SecureField, y: SecureField) -> (r: SecureField)
    requires
        x.wf(),
        y.wf(),
    ensures
        r == secure_difference(x, y),
{
    let r = stwo::core::fields::qm31::QM31::from_u32_unchecked(x.a, x.b, x.c, x.d)
        - stwo::core::fields::qm31::QM31::from_u32_unchecked(y.a, y.b, y.c, y.d);
    let [a, b, c, d] = r.to_m31_array();
    SecureField { a: a.0, b: b.0, c: c.0, d: d.0 }
}

/// The product of `stwo`'s `QM31` with an embedded `M31`, on canonical coordinates: every
/// coordinate is multiplied by the base field element.
#[verifier::external_body]
pub(crate) fn secure_times(x: SecureField, k: u32) -> (r: SecureField)
    requires
        x.wf(),
        k < P,
    ensures
        r == secure_scaled(x, k),
{
    let k = stwo::core::fields::m31::M31::from_u32_unchecked(k);
    let r = stwo::core::fields::qm31::QM31::from_u32_unchecked(x.a, x.b, x.c, x.d)
        * stwo::core::fields::qm31::QM31::from(k);
    let [a, b, c, d] = r.to_m31_array();
    SecureField { a: a.0, b: b.0, c: c.0, d: d.0 }
}

/// `QM31::from_m31_array` of `stwo`: the element whose coordinates are the given four, in order.
#[verifier::external_body]
pub(crate) fn secure_from_m31_array(limbs: [u32; 4]) -> (r: SecureField)
    ensures
        r == (SecureField { a: limbs@[0], b: limbs@[1], c: limbs@[2], d: limbs@[3] }),
{
    let limbs = limbs.map(stwo::core::fields::m31::M31::from_u32_unchecked);
    let r = stwo::core::fields::qm31::QM31::from_m31_array(limbs);
    let [a, b, c, d] = r.to_m31_array();
    SecureField { a: a.0, b: b.0, c: c.0, d: d.0 }
}

} // verus!
