use vstd::prelude::*;

verus! {

/// The fixed-point scale of every transform and rectangle component: a
/// stored value `v` stands for `v / FIXED_ONE`.
pub const FIXED_ONE: i64 = 65536;

/// `p / d`, rounded toward zero.
pub open spec fn trunc_div(p: int, d: int) -> int {
    if p >= 0 {
        p / d
    } else {
        -((-p) / d)
    }
}

/// `v`, held to the range of `i64`.
pub open spec fn clamp_i64(v: int) -> i64 {
    if v < i64::MIN {
        i64::MIN
    } else if v > i64::MAX {
        i64::MAX
    } else {
        v as i64
    }
}

/// The fixed-point product of `a` and `b`, rounded toward zero and held to
/// the range of `i64`.
pub open spec fn fixed_mul(a: i64, b: i64) -> i64 {
    clamp_i64(trunc_div(a * b, FIXED_ONE as int))
}

/// The sum of `a` and `b`, held to the range of `i64`.
pub open spec fn fixed_add(a: i64, b: i64) -> i64 {
    clamp_i64(a + b)
}

pub(crate) fn clamp_to_i64(v: i128) -> (r: i64)
    ensures
        r == clamp_i64(v as int),
{
    if v < i64::MIN as i128 {
        i64::MIN
    } else if v > i64::MAX as i128 {
        i64::MAX
    } else {
        v as i64
    }
}

pub fn mul_fixed(a: i64, b: i64) -> (r: i64)
    ensures
        r == fixed_mul(a, b),
{
    assert(-0x4000_0000_0000_0000_0000_0000_0000_0000 <= a * b <= 0x4000_0000_0000_0000_0000_0000_0000_0000)
        by (nonlinear_arith)
        requires
            i64::MIN <= a <= i64::MAX,
            i64::MIN <= b <= i64::MAX,
    ;
    let p: i128 = a as i128 * b as i128;
    let magnitude: u128 = if p >= 0 {
        p as u128
    } else {
        (-p) as u128
    };
    let q: u128 = magnitude / (FIXED_ONE as u128);
    let signed: i128 = if p >= 0 {
        q as i128
    } else {
        -(q as i128)
    };
    clamp_to_i64(signed)
}

pub fn add_fixed(a: i64, b: i64) -> (r: i64)
    ensures
        r == fixed_add(a, b),
{
    clamp_to_i64(a as i128 + b as i128)
}

/// A 2D affine transform with perspective terms, in fixed point.
#[derive(Clone, Copy, PartialEq, Eq, Debug, Structural)]
pub struct FlutterTransformation {
    pub scale_x: i64,
    pub skew_x: i64,
    pub trans_x: i64,
    pub skew_y: i64,
    pub scale_y: i64,
    pub trans_y: i64,
    pub pers0: i64,
    pub pers1: i64,
    pub pers2: i64,
}

pub open spec fn identity() -> FlutterTransformation {
    FlutterTransformation {
        scale_x: FIXED_ONE,
        skew_x: 0,
        trans_x: 0,
        skew_y: 0,
        scale_y: FIXED_ONE,
        trans_y: 0,
        pers0: 0,
        pers1: 0,
        pers2: FIXED_ONE,
    }
}

/// `a` composed with `b`: the scales and the last perspective term
/// multiply; the translations, the skews and the first two perspective
/// terms, which are zero in the identity, add.
pub open spec fn merged(a: FlutterTransformation, b: FlutterTransformation) -> FlutterTransformation {
    FlutterTransformation {
        scale_x: fixed_mul(a.scale_x, b.scale_x),
        skew_x: fixed_add(a.skew_x, b.skew_x),
        trans_x: fixed_add(a.trans_x, b.trans_x),
        skew_y: fixed_add(a.skew_y, b.skew_y),
        scale_y: fixed_mul(a.scale_y, b.scale_y),
        trans_y: fixed_add(a.trans_y, b.trans_y),
        pers0: fixed_add(a.pers0, b.pers0),
        pers1: fixed_add(a.pers1, b.pers1),
        pers2: fixed_mul(a.pers2, b.pers2),
    }
}

impl FlutterTransformation {
    /// The transform that changes nothing.
    pub fn empty() -> (t: FlutterTransformation)
        ensures
            t == identity(),
    {
        FlutterTransformation {
            scale_x: FIXED_ONE,
            skew_x: 0,
            trans_x: 0,
            skew_y: 0,
            scale_y: FIXED_ONE,
            trans_y: 0,
            pers0: 0,
            pers1: 0,
            pers2: FIXED_ONE,
        }
    }

    /// This transform composed with `other` (see `merged`).
    pub fn merge_with(&self, other: &FlutterTransformation) -> (t: FlutterTransformation)
        ensures
            t == merged(*self, *other),
    {
        FlutterTransformation {
            scale_x: mul_fixed(self.scale_x, other.scale_x),
            skew_x: add_fixed(self.skew_x, other.skew_x),
            trans_x: add_fixed(self.trans_x, other.trans_x),
            skew_y: add_fixed(self.skew_y, other.skew_y),
            scale_y: mul_fixed(self.scale_y, other.scale_y),
            trans_y: add_fixed(self.trans_y, other.trans_y),
            pers0: add_fixed(self.pers0, other.pers0),
            pers1: add_fixed(self.pers1, other.pers1),
            pers2: mul_fixed(self.pers2, other.pers2),
        }
    }
}

proof fn lemma_mul_one(a: i64)
    ensures
        fixed_mul(a, FIXED_ONE) == a,
        fixed_mul(FIXED_ONE, a) == a,
{
    let one = FIXED_ONE as int;
    assert(a >= 0 ==> (a * one) / one == a) by (nonlinear_arith)
        requires
            one == 65536,
    ;
    assert(a < 0 ==> ((-a) * one) / one == -a) by (nonlinear_arith)
        requires
            one == 65536,
    ;
    assert(a * one == one * a) by (nonlinear_arith);
    assert(-(a * one) == (-a) * one) by (nonlinear_arith);
}

/// Every transform comes back unchanged from composing with the identity,
/// on either side. Translations compose the same in either order, and add
/// exactly where the sum fits. Scales multiply: as fixed-point numbers in
/// general, and exactly for whole-number scales whose product fits.
pub proof fn lemma_transform_composition(t: FlutterTransformation, u: FlutterTransformation, a: int, b: int)
    ensures
        merged(identity(), t) == t,
        merged(t, identity()) == t,
        merged(t, u).trans_x == merged(u, t).trans_x,
        merged(t, u).trans_y == merged(u, t).trans_y,
        i64::MIN <= t.trans_x + u.trans_x <= i64::MAX ==> merged(t, u).trans_x == t.trans_x + u.trans_x,
        i64::MIN <= t.trans_y + u.trans_y <= i64::MAX ==> merged(t, u).trans_y == t.trans_y + u.trans_y,
        merged(t, u).scale_x == fixed_mul(t.scale_x, u.scale_x),
        merged(t, u).scale_y == fixed_mul(t.scale_y, u.scale_y),
        t.scale_x == a * FIXED_ONE && u.scale_x == b * FIXED_ONE && i64::MIN <= a * b * FIXED_ONE
            <= i64::MAX ==> merged(t, u).scale_x == a * b * FIXED_ONE,
{
    lemma_mul_one(t.scale_x);
    lemma_mul_one(t.scale_y);
    lemma_mul_one(t.pers2);
    if t.scale_x == a * FIXED_ONE && u.scale_x == b * FIXED_ONE && i64::MIN <= a * b * FIXED_ONE <= i64::MAX {
        let one = FIXED_ONE as int;
        let p = (a * one) * (b * one);
        assert(p == (a * b * one) * one) by (nonlinear_arith)
            requires
                p == (a * one) * (b * one),
        ;
        assert(p >= 0 ==> p / one == a * b * one) by (nonlinear_arith)
            requires
                p == (a * b * one) * one,
                one == 65536,
        ;
        assert(p < 0 ==> (-p) / one == -(a * b * one)) by (nonlinear_arith)
            requires
                p == (a * b * one) * one,
                one == 65536,
        ;
    }
}

} // verus!
