//! The odds of landing a trick, as exact whole numbers, and the attempt
//! that draws against them.
use crate::trick::{Angle, Stance, Trick};
use vstd::prelude::*;

verus! {

/// Chances are whole numbers of this many parts: a chance of `CHANCE_SCALE`
/// is certainty. It is 100 to the power 8, one factor in hundredths for each
/// of the eight things that make a trick harder.
pub const CHANCE_SCALE: u64 = 10000000000000000;

pub open spec fn stance_factor(s: Stance) -> nat {
    match s {
        Stance::Ollie => 95,
        Stance::Nollie => 90,
        Stance::Fakie => 90,
        Stance::Switch => 70,
    }
}

/// A factor in hundredths that applies only when `present` holds.
pub open spec fn factor(present: bool, hundredths: nat) -> nat {
    if present {
        hundredths
    } else {
        100
    }
}

pub open spec fn turn_is_360(t: Trick) -> bool {
    t.turn matches Some(r) && r.angle == Angle::A360
}

pub open spec fn shuv_is_360(t: Trick) -> bool {
    t.shuv matches Some(r) && r.angle == Angle::A360
}

/// The factors, in hundredths, that make up the chance of landing `t`: one
/// for the stance and one for each of the seven other things that can make
/// it harder (100 where that thing is absent).
pub open spec fn factors(t: Trick) -> Seq<nat> {
    seq![
        stance_factor(t.stance),
        factor(t.turn is Some, 90),
        factor(t.shuv is Some, 90),
        factor(t.flip is Some, 70),
        factor(t.catch is Some, 80),
        factor(t.revert, 85),
        factor(turn_is_360(t), 80),
        factor(shuv_is_360(t), 80),
    ]
}

pub open spec fn product(s: Seq<nat>) -> nat
    decreases s.len(),
{
    if s.len() == 0 {
        1
    } else {
        product(s.drop_last()) * s.last()
    }
}

pub open spec fn hundred_pow(n: nat) -> nat
    decreases n,
{
    if n == 0 {
        1
    } else {
        hundred_pow((n - 1) as nat) * 100
    }
}

/// The chance of landing `t`, in parts of `CHANCE_SCALE`.
pub open spec fn chance_of(t: Trick) -> nat {
    product(factors(t))
}

proof fn lemma_mul_le(x: int, y: int, max_x: int, max_y: int) by (nonlinear_arith)
    requires
        0 <= x <= max_x,
        0 <= y <= max_y,
    ensures
        0 <= x * y <= max_x * max_y,
{
}

proof fn lemma_mul_pos(x: int, y: int) by (nonlinear_arith)
    requires
        0 < x,
        0 < y,
    ensures
        0 < x * y,
{
}

fn factor_exec(present: bool, hundredths: u64) -> (r: u64)
    ensures
        r == factor(present, hundredths as nat),
{
    if present {
        hundredths
    } else {
        100
    }
}

fn stance_factor_exec(s: Stance) -> (r: u64)
    ensures
        r == stance_factor(s),
{
    match s {
        Stance::Ollie => 95,
        Stance::Nollie => 90,
        Stance::Fakie => 90,
        Stance::Switch => 70,
    }
}

/// Multiplies a running product, at most `bound`, by one more factor of at
/// most 100.
fn scale(acc: u64, f: u64, Ghost(bound): Ghost<int>) -> (r: u64)
    requires
        acc <= bound,
        f <= 100,
        bound * 100 <= CHANCE_SCALE,
    ensures
        r == acc * f,
        r <= bound * 100,
{
    proof {
        lemma_mul_le(acc as int, f as int, bound, 100);
    }
    acc * f
}

impl Trick {
    /// The chance of landing this trick, in parts of `CHANCE_SCALE`.
    pub fn calculate_chance(&self) -> (r: u64)
        ensures
            r == chance_of(*self),
            0 < r <= CHANCE_SCALE,
    {
        let c = stance_factor_exec(self.stance);
        let c = scale(c, factor_exec(self.turn.is_some(), 90), Ghost(100));
        let c = scale(c, factor_exec(self.shuv.is_some(), 90), Ghost(10000));
        let c = scale(c, factor_exec(self.flip.is_some(), 70), Ghost(1000000));
        let c = scale(c, factor_exec(self.catch.is_some(), 80), Ghost(100000000));
        let c = scale(c, factor_exec(self.revert, 85), Ghost(10000000000));
        let turn_360 = match self.turn {
            Some(r) => r.angle == Angle::A360,
            None => false,
        };
        let c = scale(c, factor_exec(turn_360, 80), Ghost(1000000000000));
        let shuv_360 = match self.shuv {
            Some(r) => r.angle == Angle::A360,
            None => false,
        };
        let c = scale(c, factor_exec(shuv_360, 80), Ghost(100000000000000));
        proof {
            reveal_with_fuel(product, 9);
            lemma_chance_in_range(*self);
        }
        c
    }
}

proof fn lemma_product_bounds(s: Seq<nat>)
    requires
        forall|i: int| 0 <= i < s.len() ==> 0 < #[trigger] s[i] <= 100,
    ensures
        0 < product(s) <= hundred_pow(s.len()),
    decreases s.len(),
{
    if s.len() > 0 {
        let p = s.drop_last();
        assert forall|i: int| 0 <= i < p.len() implies 0 < #[trigger] p[i] <= 100 by {
            assert(p[i] == s[i]);
        }
        lemma_product_bounds(p);
        lemma_mul_le(product(p) as int, s.last() as int, hundred_pow(p.len()) as int, 100);
        lemma_mul_pos(product(p) as int, s.last() as int);
    }
}

proof fn lemma_product_mono(a: Seq<nat>, b: Seq<nat>)
    requires
        a.len() == b.len(),
        forall|i: int| 0 <= i < a.len() ==> #[trigger] b[i] <= a[i],
    ensures
        product(b) <= product(a),
    decreases a.len(),
{
    if a.len() > 0 {
        let pa = a.drop_last();
        let pb = b.drop_last();
        assert forall|i: int| 0 <= i < pa.len() implies #[trigger] pb[i] <= pa[i] by {
            assert(pa[i] == a[i] && pb[i] == b[i]);
        }
        lemma_product_mono(pa, pb);
        lemma_mul_le(product(pb) as int, b.last() as int, product(pa) as int, a.last() as int);
    }
}

/// Every trick has a chance above zero and at most certainty.
pub proof fn lemma_chance_in_range(t: Trick)
    ensures
        0 < chance_of(t) <= CHANCE_SCALE,
{
    let f = factors(t);
    assert forall|i: int| 0 <= i < f.len() implies 0 < #[trigger] f[i] <= 100 by {}
    lemma_product_bounds(f);
    assert(hundred_pow(8) == CHANCE_SCALE) by {
        reveal_with_fuel(hundred_pow, 9);
    }
}

/// `u` is `t` with zero or more modifiers added: the same stance, and every
/// modifier of `t` kept as it is.
pub open spec fn extends(t: Trick, u: Trick) -> bool {
    &&& u.stance == t.stance
    &&& (t.turn is Some ==> u.turn == t.turn)
    &&& (t.shuv is Some ==> u.shuv == t.shuv)
    &&& (t.flip is Some ==> u.flip == t.flip)
    &&& (t.catch is Some ==> u.catch == t.catch)
    &&& (t.revert ==> u.revert)
}

/// Adding modifiers to a trick never makes it more likely to land.
pub proof fn lemma_chance_falls_with_modifiers(t: Trick, u: Trick)
    requires
        extends(t, u),
    ensures
        chance_of(u) <= chance_of(t),
{
    let a = factors(t);
    let b = factors(u);
    assert forall|i: int| 0 <= i < a.len() implies #[trigger] b[i] <= a[i] by {}
    lemma_product_mono(a, b);
}

/// Relies on rand::thread_rng and rand::Rng::gen_range: a value drawn from
/// the half-open range `0..bound`, which gen_range asks to be non-empty.
#[verifier::external_body]
fn draw_below(bound: u64) -> (r: u64)
    requires
        0 < bound,
    ensures
        r < bound,
{
    rand::Rng::gen_range(&mut rand::thread_rng(), 0..bound)
}

/// An attempt lands when its draw falls below the chance.
pub open spec fn lands(draw: u64, chance: u64) -> bool {
    draw < chance
}

/// Decides an attempt from a draw in `0..CHANCE_SCALE`: it lands when the
/// draw falls below the chance.
pub fn resolve(draw: u64, chance: u64) -> (landed: bool)
    ensures
        landed == lands(draw, chance),
        landed == (draw < chance),
{
    draw < chance
}

impl Trick {
    /// Attempts the trick once, with a fresh random draw, at the given chance
    /// in parts of `CHANCE_SCALE`.
    pub fn land_trick(&self, chance: u64) -> (landed: bool)
        ensures
            exists|draw: u64| draw < CHANCE_SCALE && landed == #[trigger] lands(draw, chance),
            chance == 0 ==> !landed,
            chance >= CHANCE_SCALE ==> landed,
    {
        let draw = draw_below(CHANCE_SCALE);
        let landed = resolve(draw, chance);
        assert(landed == lands(draw, chance));
        landed
    }
}

} // verus!
