//! The exact price grid behind the derived floating price. A tick names the
//! ratio 1.0001^tick, and the derived price divides it by
//! 10^(quote decimals - base decimals). The displayed price is a floating
//! point approximation of this grid and stays outside the library; the laws
//! below hold of the grid itself, as exact ratios of naturals.
use vstd::prelude::*;

verus! {

pub open spec fn pow_nat(b: nat, e: nat) -> nat
    decreases e,
{
    if e == 0 {
        1
    } else {
        b * pow_nat(b, (e - 1) as nat)
    }
}

/// Numerator of 1.0001^tick: 10001^tick for nonnegative ticks, else
/// 10000^(-tick).
pub open spec fn grid_num(tick: int) -> nat {
    if tick >= 0 {
        pow_nat(10001, tick as nat)
    } else {
        pow_nat(10000, (-tick) as nat)
    }
}

/// Denominator of 1.0001^tick.
pub open spec fn grid_den(tick: int) -> nat {
    if tick >= 0 {
        pow_nat(10000, tick as nat)
    } else {
        pow_nat(10001, (-tick) as nat)
    }
}

/// Numerator of the derived price for a pair whose base and quote assets
/// have the given decimal places.
pub open spec fn derived_price_num(tick: int, base_decimals: nat, quote_decimals: nat) -> nat {
    grid_num(tick) * (if base_decimals >= quote_decimals {
        pow_nat(10, (base_decimals - quote_decimals) as nat)
    } else {
        1
    })
}

/// Denominator of the derived price.
pub open spec fn derived_price_den(tick: int, base_decimals: nat, quote_decimals: nat) -> nat {
    grid_den(tick) * (if quote_decimals > base_decimals {
        pow_nat(10, (quote_decimals - base_decimals) as nat)
    } else {
        1
    })
}

proof fn lemma_pow_nat_pos(b: nat, e: nat)
    requires
        b >= 1,
    ensures
        pow_nat(b, e) >= 1,
    decreases e,
{
    if e > 0 {
        lemma_pow_nat_pos(b, (e - 1) as nat);
        assert(b * pow_nat(b, (e - 1) as nat) >= 1 * 1) by (nonlinear_arith)
            requires
                b >= 1,
                pow_nat(b, (e - 1) as nat) >= 1,
        ;
    }
}

proof fn lemma_grid_pos(t: int)
    ensures
        grid_num(t) >= 1,
        grid_den(t) >= 1,
{
    if t >= 0 {
        lemma_pow_nat_pos(10001, t as nat);
        lemma_pow_nat_pos(10000, t as nat);
    } else {
        lemma_pow_nat_pos(10000, (-t) as nat);
        lemma_pow_nat_pos(10001, (-t) as nat);
    }
}

/// One step up the grid strictly raises the ratio.
proof fn lemma_grid_step(t: int)
    ensures
        grid_num(t + 1) * grid_den(t) > grid_num(t) * grid_den(t + 1),
{
    if t >= 0 {
        let x = pow_nat(10001, t as nat);
        let y = pow_nat(10000, t as nat);
        lemma_pow_nat_pos(10001, t as nat);
        lemma_pow_nat_pos(10000, t as nat);
        assert(grid_num(t + 1) == 10001 * x);
        assert(grid_den(t + 1) == 10000 * y);
        assert((10001 * x) * y > x * (10000 * y)) by (nonlinear_arith)
            requires
                x >= 1,
                y >= 1,
        ;
    } else if t == -1 {
        assert(pow_nat(10000, 0) == 1);
        assert(pow_nat(10001, 0) == 1);
        assert(grid_num(0) == 1 && grid_den(0) == 1);
        assert(grid_num(-1) == 10000 * pow_nat(10000, 0));
        assert(grid_den(-1) == 10001 * pow_nat(10001, 0));
        assert(grid_num(t + 1) * grid_den(t) == 10001);
        assert(grid_num(t) * grid_den(t + 1) == 10000);
    } else {
        let k = (-t) as nat;
        let x = pow_nat(10000, (k - 1) as nat);
        let y = pow_nat(10001, (k - 1) as nat);
        lemma_pow_nat_pos(10000, (k - 1) as nat);
        lemma_pow_nat_pos(10001, (k - 1) as nat);
        assert(grid_num(t) == 10000 * x);
        assert(grid_den(t) == 10001 * y);
        assert(grid_num(t + 1) == x);
        assert(grid_den(t + 1) == y);
        assert(x * (10001 * y) > (10000 * x) * y) by (nonlinear_arith)
            requires
                x >= 1,
                y >= 1,
        ;
    }
}

/// Ratio comparison is transitive when the denominators are positive.
proof fn lemma_ratio_trans(a: nat, b: nat, c: nat, d: nat, e: nat, f: nat)
    requires
        b >= 1,
        d >= 1,
        f >= 1,
        a * d < c * b,
        c * f < e * d,
    ensures
        a * f < e * b,
{
    assert((a * d) * f < (c * b) * f) by (nonlinear_arith)
        requires
            a * d < c * b,
            f >= 1,
    ;
    assert((c * f) * b < (e * d) * b) by (nonlinear_arith)
        requires
            c * f < e * d,
            b >= 1,
    ;
    assert((c * b) * f == (c * f) * b) by (nonlinear_arith);
    assert((a * d) * f == (a * f) * d) by (nonlinear_arith);
    assert((e * d) * b == (e * b) * d) by (nonlinear_arith);
    assert(a * f < e * b) by (nonlinear_arith)
        requires
            (a * f) * d < (e * b) * d,
            d >= 1,
    ;
}

/// The grid ratio 1.0001^tick is strictly increasing in the tick.
pub proof fn lemma_grid_strictly_increasing(t1: int, t2: int)
    requires
        t1 < t2,
    ensures
        grid_num(t1) * grid_den(t2) < grid_num(t2) * grid_den(t1),
    decreases t2 - t1,
{
    if t2 == t1 + 1 {
        lemma_grid_step(t1);
    } else {
        lemma_grid_strictly_increasing(t1, t2 - 1);
        lemma_grid_step(t2 - 1);
        lemma_grid_pos(t1);
        lemma_grid_pos(t2 - 1);
        lemma_grid_pos(t2);
        lemma_ratio_trans(
            grid_num(t1),
            grid_den(t1),
            grid_num(t2 - 1),
            grid_den(t2 - 1),
            grid_num(t2),
            grid_den(t2),
        );
    }
}

/// For a fixed pair the derived price is strictly increasing in the tick.
pub proof fn lemma_derived_price_strictly_increasing(
    t1: int,
    t2: int,
    base_decimals: nat,
    quote_decimals: nat,
)
    requires
        t1 < t2,
    ensures
        derived_price_num(t1, base_decimals, quote_decimals) * derived_price_den(
            t2,
            base_decimals,
            quote_decimals,
        ) < derived_price_num(t2, base_decimals, quote_decimals) * derived_price_den(
            t1,
            base_decimals,
            quote_decimals,
        ),
{
    let p: nat = if base_decimals >= quote_decimals {
        pow_nat(10, (base_decimals - quote_decimals) as nat)
    } else {
        1
    };
    let q: nat = if quote_decimals > base_decimals {
        pow_nat(10, (quote_decimals - base_decimals) as nat)
    } else {
        1
    };
    lemma_pow_nat_pos(10, (if base_decimals >= quote_decimals {
        base_decimals - quote_decimals
    } else {
        0
    }) as nat);
    lemma_pow_nat_pos(10, (if quote_decimals > base_decimals {
        quote_decimals - base_decimals
    } else {
        0
    }) as nat);
    lemma_grid_strictly_increasing(t1, t2);
    assert((grid_num(t1) * p) * (grid_den(t2) * q) < (grid_num(t2) * p) * (grid_den(t1) * q))
        by (nonlinear_arith)
        requires
            grid_num(t1) * grid_den(t2) < grid_num(t2) * grid_den(t1),
            p >= 1,
            q >= 1,
    ;
}

/// At tick 0 the derived price is exactly 10 to the difference of the
/// base's and the quote's decimal places.
pub proof fn lemma_derived_price_at_tick_zero(base_decimals: nat, quote_decimals: nat)
    ensures
        base_decimals >= quote_decimals ==> derived_price_num(0, base_decimals, quote_decimals)
            == pow_nat(10, (base_decimals - quote_decimals) as nat) && derived_price_den(
            0,
            base_decimals,
            quote_decimals,
        ) == 1,
        base_decimals < quote_decimals ==> derived_price_num(0, base_decimals, quote_decimals) == 1
            && derived_price_den(0, base_decimals, quote_decimals) == pow_nat(
            10,
            (quote_decimals - base_decimals) as nat,
        ),
{
    assert(grid_num(0) == 1 && grid_den(0) == 1);
}

} // verus!
