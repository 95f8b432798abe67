//! Facts of modular arithmetic on which the index scheme of the ring rests.
//!
//! The ring keeps two logical indices in `[0, ro)`, where `ro` (the roll-over
//! value) is a multiple of the number of slots `s`. An index names the slot
//! `index % s`; the number of stored elements is `(end - begin) % ro`.
use vstd::prelude::*;
use vstd::arithmetic::div_mod::{
    lemma_add_mod_noop,
    lemma_fundamental_div_mod,
    lemma_fundamental_div_mod_converse_mod,
    lemma_mod_mod,
    lemma_mod_multiples_basic,
    lemma_mod_multiples_vanish,
    lemma_small_mod,
    lemma_sub_mod_noop,
};

verus! {

/// The largest multiple of `s` that does not exceed `max` is a multiple of `s`,
/// at least `2 * s` when `max / s > 1`, and at most `max`.
pub proof fn lemma_roll_over_bounds(max: int, s: int)
    requires
        0 < s,
        0 <= max,
        max / s > 1,
    ensures
        (max - max % s) % s == 0,
        2 * s <= max - max % s <= max,
{
    lemma_fundamental_div_mod(max, s);
    let q = max / s;
    assert(max - max % s == q * s) by (nonlinear_arith)
        requires
            max == s * q + max % s,
    ;
    lemma_mod_multiples_basic(q, s);
    assert(2 * s <= q * s) by (nonlinear_arith)
        requires
            q >= 2,
            s > 0,
    ;
}

/// Reducing modulo a multiple of `s` before reducing modulo `s` changes nothing.
pub proof fn lemma_mod_of_multiple(x: int, ro: int, s: int)
    requires
        0 < s,
        0 < ro,
        ro % s == 0,
    ensures
        (x % ro) % s == x % s,
{
    lemma_fundamental_div_mod(ro, s);
    let q = ro / s;
    assert(q > 0) by (nonlinear_arith)
        requires
            ro == s * q,
            ro > 0,
            s > 0,
    ;
    lemma_mod_mod(x, s, q);
}

/// Two offsets below `s` from the same base name different slots.
pub proof fn lemma_slots_distinct(base: int, a: int, b: int, s: int)
    requires
        0 < s,
        0 <= a < s,
        0 <= b < s,
        a != b,
    ensures
        (base + a) % s != (base + b) % s,
{
    lemma_fundamental_div_mod(base + a, s);
    lemma_fundamental_div_mod(base + b, s);
    let qa = (base + a) / s;
    let qb = (base + b) / s;
    if (base + a) % s == (base + b) % s {
        assert(false) by (nonlinear_arith)
            requires
                base + a == s * qa + (base + a) % s,
                base + b == s * qb + (base + b) % s,
                (base + a) % s == (base + b) % s,
                0 <= a < s,
                0 <= b < s,
                a != b,
        ;
    }
}

/// Moving the base one step, with roll-over at `ro`, moves every slot one step.
pub proof fn lemma_slot_after_step(base: int, k: int, ro: int, s: int)
    requires
        0 < s,
        0 < ro,
        ro % s == 0,
    ensures
        ((base + 1) % ro + k) % s == (base + 1 + k) % s,
{
    let x = (base + 1) % ro;
    lemma_add_mod_noop(x, k, s);
    lemma_mod_of_multiple(base + 1, ro, s);
    lemma_add_mod_noop(base + 1, k, s);
}

/// If `end` is `c` steps past `begin` modulo a multiple of `s`, then its slot
/// is the slot `c` steps past the slot of `begin`.
pub proof fn lemma_slot_of_distance(begin: int, end: int, c: int, ro: int, s: int)
    requires
        0 < s,
        0 < ro,
        ro % s == 0,
        (end - begin) % ro == c,
    ensures
        end % s == (begin + c) % s,
{
    lemma_fundamental_div_mod(end - begin, ro);
    lemma_fundamental_div_mod(ro, s);
    let d = (end - begin) / ro;
    let q = ro / s;
    assert(end == s * (q * d) + (begin + c)) by (nonlinear_arith)
        requires
            end - begin == ro * d + c,
            ro == s * q,
    ;
    lemma_mod_multiples_vanish(q * d, begin + c, s);
}

/// Advancing `end` by one (with roll-over) adds one to the distance, unless
/// the distance would reach `ro`.
pub proof fn lemma_distance_after_end_step(begin: int, end: int, ro: int)
    requires
        0 <= begin < ro,
        0 <= end < ro,
        (end - begin) % ro + 1 < ro,
    ensures
        ((end + 1) % ro - begin) % ro == (end - begin) % ro + 1,
{
    lemma_small_mod(begin as nat, ro as nat);
    lemma_sub_mod_noop(end + 1, begin, ro);
    lemma_add_mod_noop(end - begin, 1, ro);
    lemma_small_mod(1, ro as nat);
    lemma_small_mod(((end - begin) % ro + 1) as nat, ro as nat);
}

/// Advancing `begin` by one (with roll-over) takes one from a positive distance.
pub proof fn lemma_distance_after_begin_step(begin: int, end: int, ro: int)
    requires
        0 <= begin < ro,
        0 <= end < ro,
        (end - begin) % ro > 0,
    ensures
        (end - (begin + 1) % ro) % ro == (end - begin) % ro - 1,
{
    lemma_small_mod(end as nat, ro as nat);
    lemma_sub_mod_noop(end, begin + 1, ro);
    lemma_add_mod_noop(end - begin, -1, ro);
    lemma_fundamental_div_mod(-1, ro);
    assert((-1int) % ro == ro - 1) by {
        lemma_fundamental_div_mod_converse_mod(-1, ro, -1, ro - 1);
    }
    let c = (end - begin) % ro;
    lemma_fundamental_div_mod_converse_mod(c + (ro - 1), ro, 1, c - 1);
}

/// Two indices in `[0, ro)` are at distance zero exactly when they are equal.
pub proof fn lemma_distance_zero(begin: int, end: int, ro: int)
    requires
        0 <= begin < ro,
        0 <= end < ro,
    ensures
        ((end - begin) % ro == 0) <==> (end == begin),
{
    lemma_fundamental_div_mod(end - begin, ro);
    let d = (end - begin) / ro;
    if (end - begin) % ro == 0 {
        assert(d == 0) by (nonlinear_arith)
            requires
                end - begin == ro * d,
                -ro < end - begin < ro,
                ro > 0,
        ;
    }
}

/// Two indices in `[0, ro)` are at distance `s` exactly when the second is the
/// first advanced by `s` with roll-over.
pub proof fn lemma_distance_is(begin: int, end: int, s: int, ro: int)
    requires
        0 <= begin < ro,
        0 <= end < ro,
        0 <= s < ro,
    ensures
        ((end - begin) % ro == s) <==> (end == (begin + s) % ro),
{
    lemma_fundamental_div_mod(end - begin, ro);
    let d = (end - begin) / ro;
    if (end - begin) % ro == s {
        assert(begin + s == (-d) * ro + end) by (nonlinear_arith)
            requires
                end - begin == ro * d + s,
        ;
        lemma_fundamental_div_mod_converse_mod(begin + s, ro, -d, end);
    }
    if end == (begin + s) % ro {
        lemma_small_mod(begin as nat, ro as nat);
        lemma_sub_mod_noop(begin + s, begin, ro);
        lemma_small_mod(s as nat, ro as nat);
    }
}

} // verus!
