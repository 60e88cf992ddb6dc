//! The Nepali place-value groups of a magnitude: the lowest two digits, then
//! one digit (the hundreds), then two digits per group (thousand, lakh,
//! crore, ...).
use vstd::prelude::*;
use crate::lang::lexicon::MAX_POSITION;

verus! {

/// The first magnitude that has no phrase: ten to the thirteenth, one step
/// past the last scale word.
pub const LIMIT: u128 = 10_000_000_000_000;

/// The base-100 digits of `n`, lowest first; none for zero.
pub open spec fn pairs(n: nat) -> Seq<nat>
    decreases n,
{
    if n == 0 {
        Seq::empty()
    } else {
        seq![n % 100] + pairs(n / 100)
    }
}

/// The groups of `n`, lowest first. Zero is the single group 0. Any other
/// magnitude has its lowest two digits, its hundreds digit, and then two
/// digits per group for as long as something is left.
pub open spec fn groups(n: nat) -> Seq<nat> {
    if n == 0 {
        seq![0nat]
    } else {
        seq![n % 100, (n / 100) % 10] + pairs(n / 1000)
    }
}

/// What one of position `position` is worth: 1, 100, 1000, 100000, ...
pub open spec fn weight(position: nat) -> nat
    decreases position,
{
    if position == 0 {
        1
    } else if position == 1 {
        100
    } else if position == 2 {
        1000
    } else {
        100 * weight((position - 1) as nat)
    }
}

/// The sum of the first `k` groups of `gs`, each times its weight.
pub open spec fn weighted_sum(gs: Seq<nat>, k: nat) -> nat
    decreases k,
{
    if k == 0 {
        0
    } else {
        weighted_sum(gs, (k - 1) as nat) + gs[k - 1] * weight((k - 1) as nat)
    }
}

/// The groups as natural numbers.
pub open spec fn group_values(splits: Seq<u64>) -> Seq<nat> {
    Seq::new(splits.len(), |i: int| splits[i] as nat)
}

/// Whether every non-zero group of `n` sits at a position that has a name,
/// which is what a cardinal phrase needs.
pub open spec fn in_range(n: nat) -> bool {
    forall|i: int| 0 <= i < groups(n).len() && #[trigger] groups(n)[i] != 0 ==> i <= MAX_POSITION
}

/// The position of the lowest non-zero group among the positions from `from`
/// up; the length of `gs` where there is none.
pub open spec fn lowest_populated(gs: Seq<nat>, from: nat) -> nat
    decreases gs.len() - from,
{
    if from >= gs.len() {
        gs.len()
    } else if gs[from as int] != 0 {
        from
    } else {
        lowest_populated(gs, from + 1)
    }
}

/// Every base-100 digit is below 100.
pub proof fn lemma_pairs_bound(n: nat, i: int)
    requires
        0 <= i < pairs(n).len(),
    ensures
        pairs(n)[i] < 100,
    decreases n,
{
    if i > 0 {
        lemma_pairs_bound(n / 100, i - 1);
    }
}

/// Every group is below 100, and the hundreds group below 10.
pub proof fn lemma_groups_bound(n: nat, i: int)
    requires
        0 <= i < groups(n).len(),
    ensures
        groups(n)[i] < 100,
        i == 1 ==> groups(n)[i] < 10,
{
    if n != 0 && i >= 2 {
        lemma_pairs_bound(n / 1000, i - 2);
    }
}

/// The highest base-100 digit of a non-zero number is not zero.
pub proof fn lemma_pairs_top(n: nat)
    requires
        n > 0,
    ensures
        pairs(n).len() > 0,
        pairs(n).last() != 0,
    decreases n,
{
    if n / 100 > 0 {
        lemma_pairs_top(n / 100);
        assert(pairs(n).last() == pairs(n / 100).last());
    } else {
        assert(pairs(0).len() == 0);
        assert(pairs(n).last() == n % 100);
    }
}

/// 100 to the `k`.
pub open spec fn hundred_to(k: nat) -> nat
    decreases k,
{
    if k == 0 {
        1
    } else {
        100 * hundred_to((k - 1) as nat)
    }
}

/// A number has at most `k` base-100 digits exactly when it is below 100 to
/// the `k`.
pub proof fn lemma_pairs_len(n: nat, k: nat)
    ensures
        pairs(n).len() <= k <==> n < hundred_to(k),
    decreases k,
{
    lemma_hundred_to_positive(k);
    if k > 0 && n != 0 {
        lemma_pairs_len(n / 100, (k - 1) as nat);
        let lower = hundred_to((k - 1) as nat);
        assert(n / 100 < lower <==> n < 100 * lower) by (nonlinear_arith);
        assert(pairs(n).len() == 1 + pairs(n / 100).len());
    }
}

/// A magnitude has a cardinal phrase exactly when it is below [`LIMIT`].
pub proof fn lemma_in_range(n: nat)
    ensures
        in_range(n) <==> n < LIMIT,
{
    if n != 0 {
        let upper = pairs(n / 1000);
        let gs = groups(n);
        lemma_pairs_len(n / 1000, 5);
        assert(hundred_to(5) == 10_000_000_000) by {
            reveal_with_fuel(hundred_to, 6);
        }
        assert(gs.len() == 2 + upper.len());
        if n >= LIMIT {
            lemma_pairs_top(n / 1000);
            assert(gs[gs.len() - 1] == upper.last());
        }
    }
}

/// The groups recompose the magnitude: each group times the weight of its
/// position, summed over all positions, is the magnitude again.
pub proof fn lemma_groups_recompose(n: nat)
    ensures
        weighted_sum(groups(n), groups(n).len()) == n,
{
    let gs = groups(n);
    assert(weighted_sum(gs, 0) == 0);
    assert(weighted_sum(gs, 1) == weighted_sum(gs, 0) + gs[0] * weight(0));
    assert(weight(0) == 1 && weight(1) == 100 && weight(2) == 1000);
    if n != 0 {
        let upper = n / 1000;
        lemma_pairs_recompose(upper, gs, 2, pairs(upper).len());
        assert(weighted_sum(gs, 2) == weighted_sum(gs, 1) + gs[1] * weight(1));
        assert(gs[0] == n % 100 && gs[1] == (n / 100) % 10);
        assert(gs[0] * 1 == gs[0]);
        assert(weighted_sum(gs, 2) == n % 100 + ((n / 100) % 10) * 100);
        assert(n == n % 100 + ((n / 100) % 10) * 100 + 1000 * upper);
    }
}

/// With the base-100 digits of `m` standing in `gs` from position `offset`,
/// the groups from `offset` up to `offset + k` add the lowest `k` digits of
/// `m`, weighted from `offset`, to the sum of the groups below.
proof fn lemma_pairs_recompose(m: nat, gs: Seq<nat>, offset: nat, k: nat)
    requires
        offset >= 2,
        k <= pairs(m).len(),
        gs.len() >= offset + pairs(m).len(),
        forall|i: int| 0 <= i < pairs(m).len() ==> gs[offset as int + i] == #[trigger] pairs(m)[i],
    ensures
        weighted_sum(gs, offset + k) == weighted_sum(gs, offset) + weight(offset) * (m
            % hundred_to(k)),
        k == pairs(m).len() ==> m % hundred_to(k) == m,
    decreases k,
{
    if k == 0 {
        assert(m % 1 == 0);
        assert(weight(offset) * 0 == 0);
    } else {
        let j = (k - 1) as nat;
        lemma_pairs_recompose(m, gs, offset, j);
        lemma_pairs_digit(m, j as int);
        lemma_weight_step(offset, j);
        let h = hundred_to(j);
        lemma_hundred_to_positive(j);
        lemma_mod_split(m, h);
        let digit = (m / h) % 100;
        let low = m % h;
        let w = weight(offset);
        assert(gs[offset as int + j as int] == digit);
        assert(hundred_to(k) == 100 * h);
        assert(m % hundred_to(k) == low + digit * h);
        assert(weighted_sum(gs, offset + k) == weighted_sum(gs, offset + j) + gs[offset + j
            as int] * weight(offset + j));
        assert(weight(offset + j) == w * h);
        assert(w * low + digit * (w * h) == w * (low + digit * h)) by (nonlinear_arith);
    }
    if k == pairs(m).len() {
        lemma_pairs_len(m, k);
        lemma_hundred_to_positive(k);
        vstd::arithmetic::div_mod::lemma_small_mod(m, hundred_to(k));
    }
}

/// The base-100 digit `i` of `m` is `m / 100^i % 100`.
proof fn lemma_pairs_digit(m: nat, i: int)
    requires
        0 <= i < pairs(m).len(),
    ensures
        pairs(m)[i] == (m / hundred_to(i as nat)) % 100,
    decreases i,
{
    if i > 0 {
        lemma_pairs_digit(m / 100, i - 1);
        let h = hundred_to((i - 1) as nat);
        lemma_hundred_to_positive((i - 1) as nat);
        vstd::arithmetic::div_mod::lemma_div_denominator(m as int, 100, h as int);
        assert(hundred_to(i as nat) == 100 * h);
        assert(pairs(m)[i] == pairs(m / 100)[i - 1]);
    } else {
        assert(hundred_to(0) == 1);
        assert(m / 1 == m);
    }
}

proof fn lemma_hundred_to_positive(k: nat)
    ensures
        hundred_to(k) > 0,
    decreases k,
{
    if k > 0 {
        lemma_hundred_to_positive((k - 1) as nat);
    }
}

/// From position 2 on, each position weighs 100 times the one below.
proof fn lemma_weight_step(offset: nat, j: nat)
    requires
        offset >= 2,
    ensures
        weight(offset + j) == weight(offset) * hundred_to(j),
    decreases j,
{
    let w = weight(offset);
    if j > 0 {
        lemma_weight_step(offset, (j - 1) as nat);
        let h = hundred_to((j - 1) as nat);
        assert(weight(offset + j) == 100 * weight((offset + j - 1) as nat));
        assert(hundred_to(j) == 100 * h);
        assert(100 * (w * h) == w * (100 * h)) by (nonlinear_arith);
    } else {
        assert(hundred_to(0) == 1);
        assert(w * 1 == w);
    }
}

/// The remainder by `100 * h` is the remainder by `h` plus the next base-100
/// digit times `h`.
proof fn lemma_mod_split(m: nat, h: nat)
    requires
        h > 0,
    ensures
        m % (100 * h) == m % h + ((m / h) % 100) * h,
{
    vstd::arithmetic::div_mod::lemma_breakdown(m as int, h as int, 100);
    let digit = (m as int / h as int) % 100;
    assert(h * 100 == 100 * h) by (nonlinear_arith);
    assert(h * digit == digit * h) by (nonlinear_arith);
}

} // verus!
