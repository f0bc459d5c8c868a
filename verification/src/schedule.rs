//! Laws of the emission schedule: what walks do to the memo, that memoization
//! makes the schedule the same for everyone, and how the emission moves from one
//! epoch to the next.

use vstd::arithmetic::div_mod::{
    lemma_basic_div, lemma_div_by_self, lemma_fundamental_div_mod,
    lemma_fundamental_div_mod_converse, lemma_mod_pos_bound,
};
use vstd::prelude::*;

use crate::flow::{
    emission_at, emission_in_replay, emission_of, emitted_before, lemma_emission_within_remaining,
    recorded, remaining, replayed, well_formed_memo, EpochId,
};

verus! {

/// A walk changes no entry that the memo held, and fills exactly the epochs it
/// visits: afterwards the memo holds an entry for an epoch if and only if it held
/// one before or the walk visited the epoch.
pub proof fn lemma_replay_extends_memo(
    amount: u128,
    end_epoch: EpochId,
    memo: Map<EpochId, u128>,
    lo: EpochId,
    hi: EpochId,
)
    ensures
        ({
            let after = replayed(amount, end_epoch, memo, lo, hi);
            &&& forall|k: EpochId| #[trigger]
                memo.contains_key(k) ==> after.contains_key(k) && after[k] == memo[k]
            &&& forall|k: EpochId| #[trigger]
                after.contains_key(k) <==> memo.contains_key(k) || lo <= k < hi
        }),
    decreases hi - lo,
{
    if hi > lo {
        let visited = (hi - 1) as u64;
        let before = replayed(amount, end_epoch, memo, lo, visited);
        let after = replayed(amount, end_epoch, memo, lo, hi);
        lemma_replay_extends_memo(amount, end_epoch, memo, lo, visited);
        assert(after == recorded(amount, end_epoch, before, visited));
        assert forall|k: EpochId| #[trigger] memo.contains_key(k) implies after.contains_key(k)
            && after[k] == memo[k] by {
            assert(before.contains_key(k));
        }
        assert forall|k: EpochId| #[trigger]
            after.contains_key(k) <==> memo.contains_key(k) || lo <= k < hi by {
            assert(before.contains_key(k) <==> memo.contains_key(k) || lo <= k < visited);
        }
    }
}

/// Visiting an epoch again changes nothing: the emission derived is the same, and so
/// is the memo.
pub proof fn lemma_visiting_again_changes_nothing(
    amount: u128,
    end_epoch: EpochId,
    memo: Map<EpochId, u128>,
    epoch: EpochId,
)
    ensures
        ({
            let visited = recorded(amount, end_epoch, memo, epoch);
            &&& emission_at(amount, end_epoch, visited, epoch) == emission_at(
                amount,
                end_epoch,
                memo,
                epoch,
            )
            &&& recorded(amount, end_epoch, visited, epoch) == visited
        }),
{
}

/// The cumulative emission that stands before `epoch` once walks that begin at or
/// before `from` have passed: what the memo `base` holds for the epoch before, and
/// where it holds nothing from `from` on, what the rule derives.
spec fn settled_before(
    amount: u128,
    end_epoch: EpochId,
    base: Map<EpochId, u128>,
    from: EpochId,
    epoch: EpochId,
) -> u128
    decreases epoch - from,
{
    if epoch <= from {
        emitted_before(base, epoch)
    } else if base.contains_key((epoch - 1) as u64) {
        base[(epoch - 1) as u64]
    } else {
        let before = settled_before(amount, end_epoch, base, from, (epoch - 1) as u64);
        (before + emission_of(amount, end_epoch, before, (epoch - 1) as u64)) as u128
    }
}

/// A memo that walks over `base` may have left behind: it holds what `base` held,
/// its entry before `from` is the one of `base`, and from `from` on its entries are
/// the settled ones.
spec fn grown_from(
    amount: u128,
    end_epoch: EpochId,
    base: Map<EpochId, u128>,
    from: EpochId,
    memo: Map<EpochId, u128>,
) -> bool {
    &&& forall|k: EpochId| #[trigger]
        base.contains_key(k) ==> memo.contains_key(k) && memo[k] == base[k]
    &&& forall|k: EpochId|
        from <= k < end_epoch && #[trigger] memo.contains_key(k) ==> memo[k] == settled_before(
            amount,
            end_epoch,
            base,
            from,
            (k + 1) as u64,
        )
    &&& from > 0 && memo.contains_key((from - 1) as u64) ==> base.contains_key((from - 1) as u64)
}

proof fn lemma_base_is_grown(
    amount: u128,
    end_epoch: EpochId,
    base: Map<EpochId, u128>,
    from: EpochId,
)
    ensures
        grown_from(amount, end_epoch, base, from, base),
{
}

proof fn lemma_walk_keeps_grown(
    amount: u128,
    end_epoch: EpochId,
    base: Map<EpochId, u128>,
    from: EpochId,
    memo: Map<EpochId, u128>,
    lo: EpochId,
    hi: EpochId,
)
    requires
        grown_from(amount, end_epoch, base, from, memo),
        lo <= from,
        lo <= hi <= end_epoch,
        lo == from || (from > 0 && base.contains_key((from - 1) as u64)),
    ensures
        grown_from(amount, end_epoch, base, from, replayed(amount, end_epoch, memo, lo, hi)),
        hi >= from ==> emitted_before(replayed(amount, end_epoch, memo, lo, hi), hi)
            == settled_before(amount, end_epoch, base, from, hi),
    decreases hi - lo,
{
    if hi > lo {
        let visited = (hi - 1) as u64;
        let before = replayed(amount, end_epoch, memo, lo, visited);
        let after = replayed(amount, end_epoch, memo, lo, hi);
        lemma_walk_keeps_grown(amount, end_epoch, base, from, memo, lo, visited);
        assert(after == recorded(amount, end_epoch, before, visited));
        if visited >= from {
            let emitted = settled_before(amount, end_epoch, base, from, visited);
            lemma_emission_within_remaining(amount, end_epoch, emitted, visited);
            assert(emitted_before(before, visited) == emitted);
            assert(after.contains_key(visited));
            assert(after[visited] == settled_before(amount, end_epoch, base, from, hi));
        }
        assert(grown_from(amount, end_epoch, base, from, after));
    }
}

/// Memoization keeps the schedule the same for everyone: where two walks over the
/// same flow both visit an epoch, they derive the same emission for it, whichever
/// of the two comes first and whichever walk is asked.
///
/// The walks are `[first_lo, first_hi)` and `[second_lo, second_hi)`. They must
/// begin at the same epoch, or the memo must already hold the entry before the
/// later of the two beginnings: a walk that begins in the middle of a flow on a memo
/// without that entry counts from zero, and a walk that began earlier does not.
pub proof fn lemma_emission_independent_of_call_order(
    amount: u128,
    end_epoch: EpochId,
    memo: Map<EpochId, u128>,
    first_lo: EpochId,
    first_hi: EpochId,
    second_lo: EpochId,
    second_hi: EpochId,
    epoch: EpochId,
)
    requires
        first_lo <= epoch < first_hi <= end_epoch,
        second_lo <= epoch < second_hi <= end_epoch,
        first_lo == second_lo || (first_lo < second_lo && memo.contains_key(
            (second_lo - 1) as u64,
        )) || (second_lo < first_lo && memo.contains_key((first_lo - 1) as u64)),
    ensures
        ({
            let after_first = replayed(amount, end_epoch, memo, first_lo, first_hi);
            let after_second = replayed(amount, end_epoch, memo, second_lo, second_hi);
            let first_alone = emission_in_replay(amount, end_epoch, memo, first_lo, epoch);
            let second_alone = emission_in_replay(amount, end_epoch, memo, second_lo, epoch);
            &&& first_alone == second_alone
            &&& emission_in_replay(amount, end_epoch, after_first, second_lo, epoch)
                == first_alone
            &&& emission_in_replay(amount, end_epoch, after_second, first_lo, epoch)
                == second_alone
        }),
{
    let from = if first_lo <= second_lo {
        second_lo
    } else {
        first_lo
    };
    let after_first = replayed(amount, end_epoch, memo, first_lo, first_hi);
    let after_second = replayed(amount, end_epoch, memo, second_lo, second_hi);
    lemma_base_is_grown(amount, end_epoch, memo, from);
    lemma_walk_keeps_grown(amount, end_epoch, memo, from, memo, first_lo, epoch);
    lemma_walk_keeps_grown(amount, end_epoch, memo, from, memo, second_lo, epoch);
    lemma_walk_keeps_grown(amount, end_epoch, memo, from, memo, first_lo, first_hi);
    lemma_walk_keeps_grown(amount, end_epoch, memo, from, memo, second_lo, second_hi);
    lemma_walk_keeps_grown(amount, end_epoch, memo, from, after_first, second_lo, epoch);
    lemma_walk_keeps_grown(amount, end_epoch, memo, from, after_second, first_lo, epoch);
}

/// The memo's entry for `epoch`, where it holds one, is the cumulative emission that
/// the rule derives for that epoch from the entry before it.
pub open spec fn coherent_at(
    amount: u128,
    end_epoch: EpochId,
    memo: Map<EpochId, u128>,
    epoch: EpochId,
) -> bool {
    memo.contains_key(epoch) ==> memo[epoch] == emitted_before(memo, epoch) + emission_at(
        amount,
        end_epoch,
        memo,
        epoch,
    )
}

/// Every entry that a walk from `lo` to `hi` finds in the memo is the one the walk
/// would have written itself.
pub open spec fn coherent_walk(
    amount: u128,
    end_epoch: EpochId,
    memo: Map<EpochId, u128>,
    lo: EpochId,
    hi: EpochId,
) -> bool {
    forall|epoch: EpochId|
        lo <= epoch < hi ==> coherent_at(
            amount,
            end_epoch,
            #[trigger] replayed(amount, end_epoch, memo, lo, epoch),
            epoch,
        )
}

/// A walk over epochs for which the memo holds nothing is coherent.
pub proof fn lemma_fresh_walk_is_coherent(
    amount: u128,
    end_epoch: EpochId,
    memo: Map<EpochId, u128>,
    lo: EpochId,
    hi: EpochId,
)
    requires
        forall|epoch: EpochId| lo <= epoch < hi ==> !memo.contains_key(epoch),
    ensures
        coherent_walk(amount, end_epoch, memo, lo, hi),
{
    assert forall|epoch: EpochId| lo <= epoch < hi implies coherent_at(
        amount,
        end_epoch,
        #[trigger] replayed(amount, end_epoch, memo, lo, epoch),
        epoch,
    ) by {
        lemma_replay_extends_memo(amount, end_epoch, memo, lo, epoch);
    }
}

/// How the emission moves from one epoch to the next, where the cumulative emission
/// grows by exactly what the first epoch emitted: the next epoch emits the same and,
/// on top, its part of the remainder that the division left. It therefore emits as
/// much as the epoch before or one token more.
pub proof fn lemma_next_emission(amount: u128, end_epoch: EpochId, emitted: u128, epoch: EpochId)
    requires
        epoch + 1 < end_epoch,
    ensures
        ({
            let left = remaining(amount, emitted) as int;
            let epochs = end_epoch - epoch;
            let this = emission_of(amount, end_epoch, emitted, epoch);
            let next = emission_of(
                amount,
                end_epoch,
                (emitted + this) as u128,
                (epoch + 1) as u64,
            );
            &&& next == this + (left % epochs) / (epochs - 1)
            &&& this <= next <= this + 1
        }),
{
    let left = remaining(amount, emitted) as int;
    let epochs = end_epoch - epoch;
    let fewer = epochs - 1;
    let this = emission_of(amount, end_epoch, emitted, epoch) as int;
    let rest = left % epochs;
    lemma_emission_within_remaining(amount, end_epoch, emitted, epoch);
    lemma_fundamental_div_mod(left, epochs);
    lemma_mod_pos_bound(left, epochs);
    assert(this == left / epochs);
    let left_after = remaining(amount, (emitted + this) as u128) as int;
    assert(left_after == left - this);
    assert(left_after == this * fewer + rest) by (nonlinear_arith)
        requires
            left_after == left - this,
            left == epochs * this + rest,
            fewer == epochs - 1,
    ;
    if rest < fewer {
        lemma_fundamental_div_mod_converse(left_after, fewer, this, rest);
        lemma_basic_div(rest, fewer);
    } else {
        assert(left_after == (this + 1) * fewer + 0) by (nonlinear_arith)
            requires
                left_after == this * fewer + rest,
                rest == fewer,
        ;
        lemma_fundamental_div_mod_converse(left_after, fewer, this + 1, 0);
        lemma_div_by_self(fewer);
    }
}

/// In a coherent walk the emission never shrinks from one epoch to the next, and
/// grows by at most one token.
pub proof fn lemma_emission_steps_by_at_most_one(
    amount: u128,
    end_epoch: EpochId,
    memo: Map<EpochId, u128>,
    lo: EpochId,
    epoch: EpochId,
)
    requires
        lo <= epoch,
        epoch + 1 < end_epoch,
        coherent_at(amount, end_epoch, replayed(amount, end_epoch, memo, lo, epoch), epoch),
    ensures
        ({
            let before = replayed(amount, end_epoch, memo, lo, epoch);
            let left = remaining(amount, emitted_before(before, epoch)) as int;
            let epochs = end_epoch - epoch;
            let this = emission_in_replay(amount, end_epoch, memo, lo, epoch);
            let next = emission_in_replay(amount, end_epoch, memo, lo, (epoch + 1) as u64);
            &&& next == this + (left % epochs) / (epochs - 1)
            &&& this <= next <= this + 1
        }),
{
    let before = replayed(amount, end_epoch, memo, lo, epoch);
    let emitted = emitted_before(before, epoch);
    let after = replayed(amount, end_epoch, memo, lo, (epoch + 1) as u64);
    assert(after == recorded(amount, end_epoch, before, epoch));
    lemma_emission_within_remaining(amount, end_epoch, emitted, epoch);
    lemma_next_emission(amount, end_epoch, emitted, epoch);
}

/// The decaying remainder: in a walk over a well-formed memo an epoch emits no more
/// than the epoch before it.
///
/// This holds unless the division of what was left by the epochs that remained left
/// the largest remainder there is, one less than the number of epochs: the next
/// epoch then emits one token more.
pub proof fn lemma_emission_non_increasing(
    amount: u128,
    start_epoch: EpochId,
    end_epoch: EpochId,
    memo: Map<EpochId, u128>,
    lo: EpochId,
    epoch: EpochId,
)
    requires
        well_formed_memo(amount, start_epoch, end_epoch, memo),
        start_epoch <= lo <= epoch,
        epoch + 1 < end_epoch,
        remaining(
            amount,
            emitted_before(replayed(amount, end_epoch, memo, lo, epoch), epoch),
        ) as int % (end_epoch - epoch) != end_epoch - epoch - 1,
    ensures
        emission_in_replay(amount, end_epoch, memo, lo, (epoch + 1) as u64) <= emission_in_replay(
            amount,
            end_epoch,
            memo,
            lo,
            epoch,
        ),
{
    let before = replayed(amount, end_epoch, memo, lo, epoch);
    let left = remaining(amount, emitted_before(before, epoch)) as int;
    let epochs = end_epoch - epoch;
    lemma_well_formed_walk_is_coherent(
        amount,
        start_epoch,
        end_epoch,
        memo,
        lo,
        (epoch + 1) as u64,
    );
    lemma_emission_steps_by_at_most_one(amount, end_epoch, memo, lo, epoch);
    lemma_mod_pos_bound(left, epochs);
    lemma_basic_div(left % epochs, epochs - 1);
}

/// The tokens that a walk from `lo` to `hi` emits in all.
pub open spec fn emitted_over(
    amount: u128,
    end_epoch: EpochId,
    memo: Map<EpochId, u128>,
    lo: EpochId,
    hi: EpochId,
) -> nat
    decreases hi - lo,
{
    if hi <= lo {
        0
    } else {
        emitted_over(amount, end_epoch, memo, lo, (hi - 1) as u64) + emission_in_replay(
            amount,
            end_epoch,
            memo,
            lo,
            (hi - 1) as u64,
        ) as nat
    }
}

/// A coherent walk emits no more than was left of the flow when it began, and what
/// stands in the memo before each epoch is what stood there at the beginning plus
/// what the walk has emitted since.
pub proof fn lemma_emitted_within_remaining(
    amount: u128,
    end_epoch: EpochId,
    memo: Map<EpochId, u128>,
    lo: EpochId,
    hi: EpochId,
)
    requires
        lo <= hi <= end_epoch,
        coherent_walk(amount, end_epoch, memo, lo, hi),
    ensures
        emitted_before(replayed(amount, end_epoch, memo, lo, hi), hi) == emitted_before(memo, lo)
            + emitted_over(amount, end_epoch, memo, lo, hi),
        emitted_over(amount, end_epoch, memo, lo, hi) <= remaining(
            amount,
            emitted_before(memo, lo),
        ),
        emitted_over(amount, end_epoch, memo, lo, hi) <= amount,
    decreases hi - lo,
{
    if hi > lo {
        let visited = (hi - 1) as u64;
        let before = replayed(amount, end_epoch, memo, lo, visited);
        let after = replayed(amount, end_epoch, memo, lo, hi);
        assert forall|epoch: EpochId| lo <= epoch < visited implies coherent_at(
            amount,
            end_epoch,
            #[trigger] replayed(amount, end_epoch, memo, lo, epoch),
            epoch,
        ) by {}
        lemma_emitted_within_remaining(amount, end_epoch, memo, lo, visited);
        assert(coherent_at(amount, end_epoch, before, visited));
        assert(after == recorded(amount, end_epoch, before, visited));
        lemma_emission_within_remaining(
            amount,
            end_epoch,
            emitted_before(before, visited),
            visited,
        );
    }
}

/// A walk keeps a memo well formed, provided that it leaves no gap: it begins at the
/// start of the flow, or the memo holds the entry before its first epoch.
pub proof fn lemma_walk_keeps_well_formed(
    amount: u128,
    start_epoch: EpochId,
    end_epoch: EpochId,
    memo: Map<EpochId, u128>,
    lo: EpochId,
    hi: EpochId,
)
    requires
        well_formed_memo(amount, start_epoch, end_epoch, memo),
        start_epoch <= lo <= hi <= end_epoch,
        lo == start_epoch || memo.contains_key((lo - 1) as u64),
    ensures
        well_formed_memo(amount, start_epoch, end_epoch, replayed(amount, end_epoch, memo, lo, hi)),
    decreases hi - lo,
{
    if hi > lo {
        let visited = (hi - 1) as u64;
        let before = replayed(amount, end_epoch, memo, lo, visited);
        let after = replayed(amount, end_epoch, memo, lo, hi);
        lemma_walk_keeps_well_formed(amount, start_epoch, end_epoch, memo, lo, visited);
        lemma_replay_extends_memo(amount, end_epoch, memo, lo, visited);
        assert(after == recorded(amount, end_epoch, before, visited));
        lemma_emission_within_remaining(
            amount,
            end_epoch,
            emitted_before(before, visited),
            visited,
        );
        assert forall|epoch: EpochId| #[trigger] after.contains_key(epoch) implies {
            &&& start_epoch <= epoch < end_epoch
            &&& epoch > start_epoch ==> after.contains_key((epoch - 1) as u64)
            &&& after[epoch] == emitted_before(after, epoch) + emission_at(
                amount,
                end_epoch,
                after,
                epoch,
            )
        } by {
            if epoch != visited {
                assert(before.contains_key(epoch));
                if epoch > start_epoch {
                    assert(before.contains_key((epoch - 1) as u64));
                }
            } else if epoch > start_epoch {
                if visited > lo {
                    assert(before.contains_key((visited - 1) as u64));
                } else {
                    assert(memo.contains_key((lo - 1) as u64));
                    assert(before.contains_key((lo - 1) as u64));
                }
            }
        }
    }
}

/// Every walk over a well-formed memo that begins within the flow is coherent.
pub proof fn lemma_well_formed_walk_is_coherent(
    amount: u128,
    start_epoch: EpochId,
    end_epoch: EpochId,
    memo: Map<EpochId, u128>,
    lo: EpochId,
    hi: EpochId,
)
    requires
        well_formed_memo(amount, start_epoch, end_epoch, memo),
        start_epoch <= lo,
    ensures
        coherent_walk(amount, end_epoch, memo, lo, hi),
{
    assert forall|epoch: EpochId| lo <= epoch < hi implies coherent_at(
        amount,
        end_epoch,
        #[trigger] replayed(amount, end_epoch, memo, lo, epoch),
        epoch,
    ) by {
        let before = replayed(amount, end_epoch, memo, lo, epoch);
        lemma_replay_extends_memo(amount, end_epoch, memo, lo, epoch);
        if before.contains_key(epoch) {
            assert(memo.contains_key(epoch));
            if epoch > start_epoch {
                assert(memo.contains_key((epoch - 1) as u64));
                assert(before.contains_key((epoch - 1) as u64));
            } else if epoch > 0 {
                assert(!memo.contains_key((epoch - 1) as u64));
                assert(!before.contains_key((epoch - 1) as u64));
            }
        }
    }
}

/// In a well-formed memo no entry exceeds the amount the flow was funded with, and
/// the entries never decrease from one epoch to a later one.
pub proof fn lemma_well_formed_memo_is_monotone(
    amount: u128,
    start_epoch: EpochId,
    end_epoch: EpochId,
    memo: Map<EpochId, u128>,
    earlier: EpochId,
    later: EpochId,
)
    requires
        well_formed_memo(amount, start_epoch, end_epoch, memo),
        earlier <= later,
        memo.contains_key(earlier),
        memo.contains_key(later),
    ensures
        memo[earlier] <= memo[later] <= amount,
    decreases later - start_epoch,
{
    lemma_emission_within_remaining(amount, end_epoch, emitted_before(memo, later), later);
    if later > start_epoch {
        let previous = (later - 1) as u64;
        assert(memo.contains_key(previous));
        if earlier < later {
            lemma_well_formed_memo_is_monotone(
                amount,
                start_epoch,
                end_epoch,
                memo,
                earlier,
                previous,
            );
        } else {
            lemma_well_formed_memo_is_monotone(
                amount,
                start_epoch,
                end_epoch,
                memo,
                previous,
                previous,
            );
        }
    } else if later > 0 {
        assert(!memo.contains_key((later - 1) as u64));
    }
}

} // verus!
