//! Daily selection: which quote of a set is served at a given instant.
//!
//! An instant is a number of whole seconds after the Unix epoch,
//! 1970-01-01T00:00:00Z. Days are nominal: each has 86400 seconds.

use vstd::prelude::*;
use vstd::arithmetic::div_mod::{
    lemma_fundamental_div_mod_converse,
    lemma_mod_add_multiples_vanish,
    lemma_mod_bound,
    lemma_small_mod,
};

verus! {

/// Length of a nominal day in seconds. Leap seconds are ignored.
pub const SECONDS_IN_DAY: u64 = 86400;

/// Number of whole days from the Unix epoch to the instant `secs`.
pub open spec fn day_number(secs: nat) -> nat {
    secs / 86400
}

/// True when the instant `secs` lies in day `day`, counted from the epoch:
/// from the first second of that day on, and before the next day begins.
pub open spec fn within_day(secs: nat, day: nat) -> bool {
    day * 86400 <= secs < (day + 1) * 86400
}

/// Index served at the instant `secs` from a set of `size` quotes: the day
/// number, wrapped to the size of the set.
pub open spec fn daily_index(secs: nat, size: nat) -> nat
    recommends
        size > 0,
{
    day_number(secs) % size
}

/// Selects the index of the quote of the day.
pub fn select(now: u64, set_size: usize) -> (index: usize)
    requires
        set_size > 0,
    ensures
        index == daily_index(now as nat, set_size as nat),
        index < set_size,
{
    let day: u64 = now / SECONDS_IN_DAY;
    let index: u64 = day % (set_size as u64);
    index as usize
}

/// The day number of an instant is the one day that the instant lies in.
pub proof fn lemma_day_number(secs: nat, day: nat)
    ensures
        within_day(secs, day) <==> day_number(secs) == day,
{
}

/// The selected index is a position in the set.
pub proof fn lemma_index_in_range(secs: nat, size: nat)
    requires
        size > 0,
    ensures
        daily_index(secs, size) < size,
{
    lemma_mod_bound(day_number(secs) as int, size as int);
}

/// Two instants of one day select the same index.
pub proof fn lemma_same_day_same_index(first: nat, second: nat, day: nat, size: nat)
    requires
        size > 0,
        within_day(first, day),
        within_day(second, day),
    ensures
        daily_index(first, size) == daily_index(second, size),
{
    lemma_day_number(first, day);
    lemma_day_number(second, day);
}

/// As many days later as the set has quotes, the same index is selected again.
pub proof fn lemma_cycle(secs: nat, size: nat)
    requires
        size > 0,
    ensures
        daily_index(secs + size * 86400, size) == daily_index(secs, size),
{
    assert(day_number(secs + size * 86400) == day_number(secs) + size);
    lemma_mod_add_multiples_vanish(day_number(secs) as int, size as int);
}

/// One day later the next index is selected, and after the last the first.
pub proof fn lemma_next_day(secs: nat, size: nat)
    requires
        size > 0,
    ensures
        daily_index(secs + 86400, size) == if daily_index(secs, size) + 1 < size {
            daily_index(secs, size) + 1
        } else {
            0
        },
{
    let day: int = day_number(secs) as int;
    let n: int = size as int;
    assert(day_number(secs + 86400) == day + 1);
    lemma_mod_bound(day, n);
    let q: int = day / n;
    let r: int = day % n;
    assert(day == n * q + r) by (nonlinear_arith)
        requires
            n > 0,
            q == day / n,
            r == day % n,
    ;
    if r + 1 < n {
        lemma_fundamental_div_mod_converse(day + 1, n, q, r + 1);
    } else {
        assert(day + 1 == (q + 1) * n + 0) by (nonlinear_arith)
            requires
                day == n * q + r,
                r + 1 == n,
        ;
        lemma_fundamental_div_mod_converse(day + 1, n, q + 1, 0);
    }
}

/// Each position of the set is selected on some day: position `index` on the
/// day of that number.
pub proof fn lemma_every_index_served(index: nat, size: nat)
    requires
        index < size,
    ensures
        daily_index(index * 86400, size) == index,
{
    assert(day_number(index * 86400) == index);
    lemma_small_mod(index, size);
}

} // verus!
