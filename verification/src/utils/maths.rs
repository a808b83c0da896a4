//! Checked arithmetic over the protocol's value types, and the fraction
//! helpers used for proportional splits.
//!
//! Every primitive fails explicitly with an error instead of wrapping. The
//! fraction helpers carry their product in a 128-bit intermediate, so the
//! only way they can fail is a zero denominator or a result that does not
//! fit back into 64 bits.

use vstd::arithmetic::div_mod::{
    lemma_div_is_ordered, lemma_fundamental_div_mod, lemma_mod_bound,
};
use vstd::arithmetic::mul::lemma_mul_inequality;
use vstd::prelude::*;

use crate::error::XxusdError;
use crate::state::{Amount, Timestamp};

verus! {

/// The sum of a sequence of 64-bit values, as an unbounded integer.
pub open spec fn sum_seq(s: Seq<u64>) -> int
    decreases s.len(),
{
    if s.len() == 0 {
        0
    } else {
        sum_seq(s.drop_last()) + s.last()
    }
}

/// `a / d` rounded towards positive infinity, for a non-negative dividend
/// and a positive divisor.
pub open spec fn pos_div_ceil(a: int, d: int) -> int {
    (a + d - 1) / d
}

/// `floor(amount * numerator / denominator)`.
pub open spec fn fraction_floor(amount: int, numerator: int, denominator: int) -> int {
    (amount * numerator) / denominator
}

/// `ceil(amount * numerator / denominator)`.
pub open spec fn fraction_ceil(amount: int, numerator: int, denominator: int) -> int {
    pos_div_ceil(amount * numerator, denominator)
}

/// The sum of a sequence of unbounded integers.
pub open spec fn sum_int(s: Seq<int>) -> int
    decreases s.len(),
{
    if s.len() == 0 {
        0
    } else {
        sum_int(s.drop_last()) + s.last()
    }
}

/// The smaller of two integers.
pub open spec fn min_int(a: int, b: int) -> int {
    if a < b {
        a
    } else {
        b
    }
}

pub proof fn lemma_sum_seq_nonneg(s: Seq<u64>)
    ensures
        sum_seq(s) >= 0,
    decreases s.len(),
{
    if s.len() > 0 {
        lemma_sum_seq_nonneg(s.drop_last());
    }
}

pub proof fn lemma_sum_seq_take_succ(s: Seq<u64>, i: int)
    requires
        0 <= i < s.len(),
    ensures
        sum_seq(s.take(i + 1)) == sum_seq(s.take(i)) + s[i],
{
    assert(s.take(i + 1).drop_last() =~= s.take(i));
    assert(s.take(i + 1).last() == s[i]);
}

pub proof fn lemma_sum_seq_split(s: Seq<u64>, k: int)
    requires
        0 <= k <= s.len(),
    ensures
        sum_seq(s) == sum_seq(s.take(k)) + sum_seq(s.skip(k)),
    decreases s.len(),
{
    if k == s.len() {
        assert(s.take(k) =~= s);
        assert(s.skip(k) =~= Seq::<u64>::empty());
    } else {
        lemma_sum_seq_split(s.drop_last(), k);
        assert(s.drop_last().take(k) =~= s.take(k));
        assert(s.skip(k).drop_last() =~= s.drop_last().skip(k));
        assert(s.skip(k).last() == s.last());
    }
}

pub proof fn lemma_sum_seq_take_le(s: Seq<u64>, k: int)
    requires
        0 <= k <= s.len(),
    ensures
        sum_seq(s.take(k)) <= sum_seq(s),
{
    lemma_sum_seq_split(s, k);
    lemma_sum_seq_nonneg(s.skip(k));
}

/// If two sequences compare pointwise, their sums compare the same way.
pub proof fn lemma_sum_seq_le(s1: Seq<u64>, s2: Seq<u64>)
    requires
        s1.len() == s2.len(),
        forall|i: int| 0 <= i < s1.len() ==> s1[i] <= s2[i],
    ensures
        sum_seq(s1) <= sum_seq(s2),
    decreases s1.len(),
{
    if s1.len() > 0 {
        lemma_sum_seq_le(s1.drop_last(), s2.drop_last());
    }
}

/// A sequence of machine words and a sequence of integers that agree
/// pointwise have the same sum.
pub proof fn lemma_sum_seq_as_int(s: Seq<u64>, t: Seq<int>)
    requires
        s.len() == t.len(),
        forall|i: int| 0 <= i < s.len() ==> s[i] as int == t[i],
    ensures
        sum_seq(s) == sum_int(t),
    decreases s.len(),
{
    if s.len() > 0 {
        lemma_sum_seq_as_int(s.drop_last(), t.drop_last());
    }
}

pub proof fn lemma_sum_int_cons(x: int, s: Seq<int>)
    ensures
        sum_int(seq![x] + s) == x + sum_int(s),
    decreases s.len(),
{
    let t = seq![x] + s;
    if s.len() == 0 {
        assert(t.drop_last() =~= s);
        assert(t.last() == x);
    } else {
        assert(t.drop_last() =~= seq![x] + s.drop_last());
        assert(t.last() == s.last());
        lemma_sum_int_cons(x, s.drop_last());
    }
}

pub proof fn lemma_sum_int_nonneg(s: Seq<int>)
    requires
        forall|i: int| 0 <= i < s.len() ==> s[i] >= 0,
    ensures
        sum_int(s) >= 0,
    decreases s.len(),
{
    if s.len() > 0 {
        lemma_sum_int_nonneg(s.drop_last());
    }
}

pub proof fn lemma_sum_int_le(s1: Seq<int>, s2: Seq<int>)
    requires
        s1.len() == s2.len(),
        forall|i: int| 0 <= i < s1.len() ==> s1[i] <= s2[i],
    ensures
        sum_int(s1) <= sum_int(s2),
    decreases s1.len(),
{
    if s1.len() > 0 {
        lemma_sum_int_le(s1.drop_last(), s2.drop_last());
    }
}

/// Summing a pointwise linear combination equals the linear combination of
/// the sums.
pub proof fn lemma_sum_int_linear(s: Seq<int>, a: Seq<int>, b: Seq<int>, c: Seq<int>)
    requires
        s.len() == a.len() && s.len() == b.len() && s.len() == c.len(),
        forall|i: int| 0 <= i < s.len() ==> s[i] == a[i] + b[i] - c[i],
    ensures
        sum_int(s) == sum_int(a) + sum_int(b) - sum_int(c),
    decreases s.len(),
{
    if s.len() > 0 {
        lemma_sum_int_linear(s.drop_last(), a.drop_last(), b.drop_last(), c.drop_last());
    }
}

pub proof fn lemma_sum_int_zero(s: Seq<int>)
    requires
        forall|i: int| 0 <= i < s.len() ==> s[i] == 0,
    ensures
        sum_int(s) == 0,
    decreases s.len(),
{
    if s.len() > 0 {
        lemma_sum_int_zero(s.drop_last());
    }
}

pub proof fn lemma_sum_int_elem(s: Seq<int>, i: int)
    requires
        0 <= i < s.len(),
        forall|j: int| 0 <= j < s.len() ==> s[j] >= 0,
    ensures
        s[i] <= sum_int(s),
    decreases s.len(),
{
    if i == s.len() - 1 {
        lemma_sum_int_nonneg(s.drop_last());
    } else {
        lemma_sum_int_elem(s.drop_last(), i);
    }
}

/// The basic bounds of the ceiling division: it is the least integer whose
/// multiple of `d` reaches `a`.
pub proof fn lemma_pos_div_ceil_facts(a: int, d: int)
    requires
        a >= 0,
        d > 0,
    ensures
        pos_div_ceil(a, d) >= 0,
        a <= d * pos_div_ceil(a, d) < a + d,
        d * (a / d) <= a,
        a / d <= pos_div_ceil(a, d),
        a == 0 ==> pos_div_ceil(a, d) == 0,
{
    let q = pos_div_ceil(a, d);
    lemma_fundamental_div_mod(a + d - 1, d);
    lemma_mod_bound(a + d - 1, d);
    assert(q >= 0) by (nonlinear_arith)
        requires
            d > 0,
            d * q >= a,
            a >= 0,
    ;
    lemma_fundamental_div_mod(a, d);
    lemma_mod_bound(a, d);
    lemma_div_is_ordered(a, a + d - 1, d);
    if a == 0 {
        assert(q == 0) by (nonlinear_arith)
            requires
                d > 0,
                0 <= d * q < d,
        ;
    }
}

/// A floor fraction with `numerator <= denominator` never exceeds the
/// amount it splits.
pub proof fn lemma_fraction_floor_le_amount(amount: int, numerator: int, denominator: int)
    requires
        amount >= 0,
        0 <= numerator <= denominator,
        denominator > 0,
    ensures
        0 <= fraction_floor(amount, numerator, denominator) <= amount,
{
    lemma_mul_inequality(numerator, denominator, amount);
    lemma_div_is_ordered(0, amount * numerator, denominator);
    lemma_div_is_ordered(amount * numerator, amount * denominator, denominator);
    assert((amount * denominator) / denominator == amount) by (nonlinear_arith)
        requires
            denominator > 0,
    ;
}

/// A ceiling fraction with `numerator <= denominator` never exceeds the
/// amount it splits.
pub proof fn lemma_fraction_ceil_le_amount(amount: int, numerator: int, denominator: int)
    requires
        amount >= 0,
        0 <= numerator <= denominator,
        denominator > 0,
    ensures
        0 <= fraction_ceil(amount, numerator, denominator) <= amount,
{
    let d = denominator;
    lemma_mul_inequality(numerator, denominator, amount);
    lemma_pos_div_ceil_facts(amount * numerator, d);
    let q = pos_div_ceil(amount * numerator, d);
    assert(d * q < amount * d + d);
    assert(q <= amount) by (nonlinear_arith)
        requires
            d > 0,
            d * q < amount * d + d,
    ;
}

/// Splitting a dividend across two ceiling divisions loses at most one unit:
/// `ceil((x + y) / d) <= ceil(x / d) + ceil(y / d) <= ceil((x + y) / d) + 1`.
pub proof fn lemma_pos_div_ceil_subadd(x: int, y: int, d: int)
    requires
        x >= 0,
        y >= 0,
        d > 0,
    ensures
        pos_div_ceil(x + y, d) <= pos_div_ceil(x, d) + pos_div_ceil(y, d),
        pos_div_ceil(x, d) + pos_div_ceil(y, d) <= pos_div_ceil(x + y, d) + 1,
{
    let qx = pos_div_ceil(x, d);
    let qy = pos_div_ceil(y, d);
    let q = pos_div_ceil(x + y, d);
    lemma_pos_div_ceil_facts(x, d);
    lemma_pos_div_ceil_facts(y, d);
    lemma_pos_div_ceil_facts(x + y, d);
    assert(q <= qx + qy) by (nonlinear_arith)
        requires
            d > 0,
            d * q < x + y + d,
            d * qx >= x,
            d * qy >= y,
    ;
    assert(qx + qy <= q + 1) by (nonlinear_arith)
        requires
            d > 0,
            d * qx < x + d,
            d * qy < y + d,
            d * q >= x + y,
    ;
}

/// Splitting a dividend across two floor divisions loses at most one unit:
/// `floor(x / d) + floor(y / d) <= floor((x + y) / d) <= floor(x / d) + floor(y / d) + 1`.
pub proof fn lemma_div_floor_subadd(x: int, y: int, d: int)
    requires
        x >= 0,
        y >= 0,
        d > 0,
    ensures
        x / d + y / d <= (x + y) / d,
        (x + y) / d <= x / d + y / d + 1,
{
    let qx = x / d;
    let qy = y / d;
    let q = (x + y) / d;
    lemma_fundamental_div_mod(x, d);
    lemma_mod_bound(x, d);
    lemma_fundamental_div_mod(y, d);
    lemma_mod_bound(y, d);
    lemma_fundamental_div_mod(x + y, d);
    lemma_mod_bound(x + y, d);
    assert(qx + qy <= q) by (nonlinear_arith)
        requires
            d > 0,
            d * qx <= x,
            d * qy <= y,
            d * q > x + y - d,
    ;
    assert(q <= qx + qy + 1) by (nonlinear_arith)
        requires
            d > 0,
            d * qx > x - d,
            d * qy > y - d,
            d * q <= x + y,
    ;
}

/// `pos_div_ceil` recovers an exact multiple.
pub proof fn lemma_pos_div_ceil_exact(a: int, d: int)
    requires
        a >= 0,
        d > 0,
    ensures
        pos_div_ceil(a * d, d) == a,
{
    assert(a * d >= 0) by (nonlinear_arith)
        requires
            a >= 0,
            d > 0,
    ;
    lemma_pos_div_ceil_facts(a * d, d);
    let q = pos_div_ceil(a * d, d);
    assert(q == a) by (nonlinear_arith)
        requires
            d > 0,
            a * d <= d * q < a * d + d,
    ;
}

/// Each part scaled by `m / d` and rounded up, as a sequence.
pub open spec fn ceil_products_seq(m: int, d: int, parts: Seq<int>) -> Seq<int> {
    parts.map_values(|p: int| pos_div_ceil(m * p, d))
}

/// Distributing `m` over parts proportionally with ceiling rounding yields a
/// total between the ceiling of the undivided product and that ceiling plus
/// one unit per extra part.
pub proof fn lemma_sum_ceil_products(m: int, d: int, parts: Seq<int>)
    requires
        d > 0,
        m >= 0,
        forall|i: int| 0 <= i < parts.len() ==> parts[i] >= 0,
    ensures
        pos_div_ceil(m * sum_int(parts), d) <= sum_int(ceil_products_seq(m, d, parts)),
        sum_int(ceil_products_seq(m, d, parts)) <= pos_div_ceil(m * sum_int(parts), d) + (
        if parts.len() > 0 {
            parts.len() - 1
        } else {
            0
        }),
    decreases parts.len(),
{
    lemma_pos_div_ceil_facts(0, d);
    if parts.len() == 0 {
        assert(ceil_products_seq(m, d, parts) =~= Seq::<int>::empty());
    } else {
        let prefix = parts.drop_last();
        let x = parts.last();
        let sp = sum_int(prefix);
        lemma_sum_ceil_products(m, d, prefix);
        assert(ceil_products_seq(m, d, parts).drop_last() =~= ceil_products_seq(m, d, prefix));
        assert(ceil_products_seq(m, d, parts).last() == pos_div_ceil(m * x, d));
        lemma_sum_int_nonneg(prefix);
        assert(m * sum_int(parts) == m * sp + m * x) by (nonlinear_arith)
            requires
                sum_int(parts) == sp + x,
        ;
        assert(m * sp >= 0 && m * x >= 0) by (nonlinear_arith)
            requires
                m >= 0,
                sp >= 0,
                x >= 0,
        ;
        lemma_pos_div_ceil_subadd(m * sp, m * x, d);
    }
}

/// Each part scaled by `m / d` and rounded down, as a sequence.
pub open spec fn floor_products_seq(m: int, d: int, parts: Seq<int>) -> Seq<int> {
    parts.map_values(|p: int| (m * p) / d)
}

/// Distributing `m` over parts proportionally with floor rounding yields a
/// total between the floor of the undivided product less one unit per extra
/// part, and that floor itself.
pub proof fn lemma_sum_floor_products(m: int, d: int, parts: Seq<int>)
    requires
        d > 0,
        m >= 0,
        forall|i: int| 0 <= i < parts.len() ==> parts[i] >= 0,
    ensures
        sum_int(floor_products_seq(m, d, parts)) <= (m * sum_int(parts)) / d,
        (m * sum_int(parts)) / d <= sum_int(floor_products_seq(m, d, parts)) + (
        if parts.len() > 0 {
            parts.len() - 1
        } else {
            0
        }),
    decreases parts.len(),
{
    if parts.len() == 0 {
        assert(floor_products_seq(m, d, parts) =~= Seq::<int>::empty());
        assert(m * sum_int(parts) == 0) by (nonlinear_arith)
            requires
                sum_int(parts) == 0,
        ;
    } else {
        let prefix = parts.drop_last();
        let x = parts.last();
        let sp = sum_int(prefix);
        lemma_sum_floor_products(m, d, prefix);
        assert(floor_products_seq(m, d, parts).drop_last() =~= floor_products_seq(m, d, prefix));
        assert(floor_products_seq(m, d, parts).last() == (m * x) / d);
        lemma_sum_int_nonneg(prefix);
        assert(m * sum_int(parts) == m * sp + m * x) by (nonlinear_arith)
            requires
                sum_int(parts) == sp + x,
        ;
        assert(m * sp >= 0 && m * x >= 0) by (nonlinear_arith)
            requires
                m >= 0,
                sp >= 0,
                x >= 0,
        ;
        lemma_div_floor_subadd(m * sp, m * x, d);
    }
}

pub fn checked_add(a: Amount, b: Amount) -> (r: Result<Amount, XxusdError>)
    ensures
        a.0 + b.0 <= u64::MAX ==> r == Ok::<Amount, XxusdError>(Amount((a.0 + b.0) as u64)),
        a.0 + b.0 > u64::MAX ==> r == Err::<Amount, XxusdError>(XxusdError::MathOverflow),
{
    match a.0.checked_add(b.0) {
        Some(v) => Ok(Amount(v)),
        None => Err(XxusdError::MathOverflow),
    }
}

/// Subtraction of two amounts; fails instead of wrapping below zero.
pub fn checked_sub(a: Amount, b: Amount) -> (r: Result<Amount, XxusdError>)
    ensures
        a.0 >= b.0 ==> r == Ok::<Amount, XxusdError>(Amount((a.0 - b.0) as u64)),
        a.0 < b.0 ==> r == Err::<Amount, XxusdError>(XxusdError::MathOverflow),
{
    match a.0.checked_sub(b.0) {
        Some(v) => Ok(Amount(v)),
        None => Err(XxusdError::MathOverflow),
    }
}

/// Multiplication of an amount by a scalar; fails instead of wrapping.
pub fn checked_mul(a: Amount, b: u64) -> (r: Result<Amount, XxusdError>)
    ensures
        a.0 * b <= u64::MAX ==> r == Ok::<Amount, XxusdError>(Amount((a.0 * b) as u64)),
        a.0 * b > u64::MAX ==> r == Err::<Amount, XxusdError>(XxusdError::MathOverflow),
{
    match a.0.checked_mul(b) {
        Some(v) => Ok(Amount(v)),
        None => Err(XxusdError::MathOverflow),
    }
}

/// Division of an amount by a scalar; fails on a zero divisor.
pub fn checked_div(a: Amount, b: u64) -> (r: Result<Amount, XxusdError>)
    ensures
        b > 0 ==> r == Ok::<Amount, XxusdError>(Amount((a.0 as int / b as int) as u64)),
        b == 0 ==> r == Err::<Amount, XxusdError>(XxusdError::MathOverflow),
{
    match a.0.checked_div(b) {
        Some(v) => Ok(Amount(v)),
        None => Err(XxusdError::MathOverflow),
    }
}

/// Unwraps an amount to the raw 64-bit unit it already is.
pub fn checked_as_u64(value: Amount) -> (r: Result<u64, XxusdError>)
    ensures
        r == Ok::<u64, XxusdError>(value.0),
{
    Ok(value.value())
}

/// Advances a timestamp by a signed number of seconds; fails instead of
/// wrapping.
pub fn checked_add_timestamp(a: Timestamp, b: i64) -> (r: Result<Timestamp, XxusdError>)
    ensures
        i64::MIN <= a.0 + b <= i64::MAX ==> r == Ok::<Timestamp, XxusdError>(
            Timestamp((a.0 + b) as i64),
        ),
        !(i64::MIN <= a.0 + b <= i64::MAX) ==> r == Err::<Timestamp, XxusdError>(
            XxusdError::MathOverflow,
        ),
{
    match a.0.checked_add(b) {
        Some(v) => Ok(Timestamp(v)),
        None => Err(XxusdError::MathOverflow),
    }
}

/// The signed distance in seconds between two timestamps; fails instead of
/// wrapping.
pub fn checked_sub_timestamp(a: Timestamp, b: Timestamp) -> (r: Result<i64, XxusdError>)
    ensures
        i64::MIN <= a.0 - b.0 <= i64::MAX ==> r == Ok::<i64, XxusdError>((a.0 - b.0) as i64),
        !(i64::MIN <= a.0 - b.0 <= i64::MAX) ==> r == Err::<i64, XxusdError>(
            XxusdError::MathOverflow,
        ),
{
    match a.0.checked_sub(b.0) {
        Some(v) => Ok(v),
        None => Err(XxusdError::MathOverflow),
    }
}

/// Sums a per-depository value vector; fails if the total does not fit in
/// 64 bits.
#[verifier::loop_isolation(false)]
pub fn calculate_depositories_sum_value(depositories_values: &Vec<u64>) -> (r: Result<
    u64,
    XxusdError,
>)
    ensures
        sum_seq(depositories_values@) <= u64::MAX ==> r == Ok::<u64, XxusdError>(
            sum_seq(depositories_values@) as u64,
        ),
        sum_seq(depositories_values@) > u64::MAX ==> r == Err::<u64, XxusdError>(
            XxusdError::MathOverflow,
        ),
{
    let ghost s = depositories_values@;
    let mut total: u64 = 0;
    let mut i: usize = 0;
    while i < depositories_values.len()
        invariant
            0 <= i <= s.len(),
            s == depositories_values@,
            total == sum_seq(s.take(i as int)),
        decreases s.len() - i,
    {
        proof {
            lemma_sum_seq_take_succ(s, i as int);
        }
        match total.checked_add(depositories_values[i]) {
            Some(v) => {
                total = v;
            },
            None => {
                proof {
                    lemma_sum_seq_take_le(s, i + 1);
                }
                return Err(XxusdError::MathOverflow);
            },
        }
        i = i + 1;
    }
    proof {
        assert(s.take(s.len() as int) =~= s);
    }
    Ok(total)
}

/// `ceil(amount * numerator / denominator)`, carried through a 128-bit
/// intermediate; fails on a zero denominator or a result over 64 bits.
pub fn compute_amount_fraction_ceil(amount: u64, numerator: u64, denominator: u64) -> (r: Result<
    u64,
    XxusdError,
>)
    ensures
        denominator == 0 ==> r == Err::<u64, XxusdError>(XxusdError::DivisionByZero),
        denominator > 0 && fraction_ceil(amount as int, numerator as int, denominator as int)
            <= u64::MAX ==> r == Ok::<u64, XxusdError>(
            fraction_ceil(amount as int, numerator as int, denominator as int) as u64,
        ),
        denominator > 0 && fraction_ceil(amount as int, numerator as int, denominator as int)
            > u64::MAX ==> r == Err::<u64, XxusdError>(XxusdError::MathOverflow),
{
    if denominator == 0 {
        return Err(XxusdError::DivisionByZero);
    }
    proof {
        assert(amount as int * numerator as int <= u64::MAX as int * u64::MAX as int)
            by (nonlinear_arith)
            requires
                0 <= amount as int <= u64::MAX as int,
                0 <= numerator as int <= u64::MAX as int,
        ;
    }
    let product: u128 = (amount as u128) * (numerator as u128);
    let ceil: u128 = (product + (denominator as u128 - 1)) / (denominator as u128);
    if ceil > u64::MAX as u128 {
        Err(XxusdError::MathOverflow)
    } else {
        Ok(ceil as u64)
    }
}

/// `amount` less `floor(amount * numerator / denominator)`, i.e.
/// `floor(amount * (denominator - numerator) / denominator)`, carried
/// through a 128-bit intermediate. The result never exceeds `amount`; the
/// call fails on a zero denominator or a numerator above the denominator.
pub fn compute_amount_less_fraction_floor(
    amount: u64,
    numerator: u64,
    denominator: u64,
) -> (r: Result<u64, XxusdError>)
    ensures
        denominator == 0 ==> r == Err::<u64, XxusdError>(XxusdError::DivisionByZero),
        denominator > 0 && numerator > denominator ==> r == Err::<u64, XxusdError>(
            XxusdError::MathOverflow,
        ),
        denominator > 0 && numerator <= denominator ==> r == Ok::<u64, XxusdError>(
            fraction_floor(
                amount as int,
                denominator as int - numerator as int,
                denominator as int,
            ) as u64,
        ),
        r is Ok ==> r->Ok_0 <= amount,
{
    if denominator == 0 {
        return Err(XxusdError::DivisionByZero);
    }
    if numerator > denominator {
        return Err(XxusdError::MathOverflow);
    }
    let rest: u64 = denominator - numerator;
    proof {
        assert(amount as int * rest as int <= u64::MAX as int * u64::MAX as int)
            by (nonlinear_arith)
            requires
                0 <= amount as int <= u64::MAX as int,
                0 <= rest as int <= u64::MAX as int,
        ;
    }
    let product: u128 = (amount as u128) * (rest as u128);
    let less: u128 = product / (denominator as u128);
    proof {
        lemma_fraction_floor_le_amount(amount as int, rest as int, denominator as int);
    }
    Ok(less as u64)
}

} // verus!
