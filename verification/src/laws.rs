//! What holds of the engine whatever happens: the laws of the game, each proved from the
//! definitions of the actions.

use vstd::prelude::*;
use crate::contract::instantiated;
use crate::error::ContractError;
use crate::execute::{
    accepted_deposit, accepted_reallocation, allocated, game_ended, next_game_updated, reallocated,
};
use crate::helpers::game_end::{
    is_raffle_winner, lemma_raffle_winner_unique, next_game, raffle_winner, stake_at, time_at,
};
use crate::helpers::pot::{
    count_equal, count_greater, count_less, median_test, pot_wins, pots_updated,
};
use crate::helpers::validate::{
    denom_total, first_counter, game_time, lemma_denom_total_prefix, lemma_first_counter,
    reallocations_increased, reallocations_of,
};
use crate::state::{
    custody, lemma_pots_total_five, pots_total, valid_pot, CoinView, FirstBidderView,
    GameConfigView, GameView, PlayerAllocationsView, PlayerReallocationsView,
};

verus! {

/// Adding to one pot adds as much to the sum of the pots, and taking from it takes as much.
pub proof fn lemma_pots_updated_total(pots: Seq<u128>, pot_id: u8, amount: u128, increase: bool)
    requires
        pots.len() == 5,
        pots_updated(pots, pot_id, amount, increase) is Ok,
    ensures
        pots_updated(pots, pot_id, amount, increase)->Ok_0.len() == 5,
        pots_total(pots_updated(pots, pot_id, amount, increase)->Ok_0) == pots_total(pots) + if increase {
            amount as int
        } else {
            -(amount as int)
        },
{
    lemma_pots_total_five(pots);
    lemma_pots_total_five(pots_updated(pots, pot_id, amount, increase)->Ok_0);
}

/// Conservation, for a deposit: the accounted total grows by exactly what was deposited.
pub proof fn law_deposit_conserves(
    game: GameView,
    now: u64,
    sender: Seq<char>,
    funds: Seq<CoinView>,
    holdings: Seq<u64>,
    pot_id: u8,
)
    requires
        game.pots.len() == 5,
        allocated(game, now, sender, funds, holdings, pot_id) is Ok,
    ensures
        custody(allocated(game, now, sender, funds, holdings, pot_id)->Ok_0) == custody(game)
            + accepted_deposit(game, now, sender, funds, holdings, pot_id)->Ok_0,
        accepted_deposit(game, now, sender, funds, holdings, pot_id)->Ok_0 == denom_total(
            funds,
            game.config.game_denom,
        ),
{
    let amount = accepted_deposit(game, now, sender, funds, holdings, pot_id)->Ok_0;
    lemma_denom_total_prefix(funds, game.config.game_denom, 0);
    lemma_pots_updated_total(game.pots, pot_id, amount, true);
}

/// Conservation, for a reallocation: the accounted total does not change. What leaves the
/// source pot enters the destination pot and the fee pool.
pub proof fn law_reallocation_conserves(
    game: GameView,
    now: u64,
    sender: Seq<char>,
    from_pot_id: u8,
    to_pot_id: u8,
)
    requires
        game.pots.len() == 5,
        reallocated(game, now, sender, from_pot_id, to_pot_id) is Ok,
    ensures
        custody(reallocated(game, now, sender, from_pot_id, to_pot_id)->Ok_0) == custody(game),
{
    let (amount, fee) = accepted_reallocation(game, now, sender, from_pot_id, to_pot_id)->Ok_0;
    let net = (amount - fee) as u128;
    lemma_pots_updated_total(game.pots, from_pot_id, amount, false);
    let taken = pots_updated(game.pots, from_pot_id, amount, false)->Ok_0;
    assert(pots_updated(taken, to_pot_id, net, true) is Ok);
    lemma_pots_updated_total(taken, to_pot_id, net, true);
}

/// Conservation, for a change of the next round: the accounted total grows by exactly what
/// the administrator sent of the wager denomination.
pub proof fn law_update_next_game_conserves(
    game: GameView,
    now: u64,
    caller: Seq<char>,
    contract_admin: Option<Seq<char>>,
    contract_address: Seq<char>,
    funds: Seq<CoinView>,
    new_raffle_cw721_id: Option<Seq<char>>,
    new_raffle_cw721_addr: Option<Seq<char>>,
    next_game_start: Option<u64>,
)
    requires
        next_game_updated(
            game,
            now,
            caller,
            contract_admin,
            contract_address,
            funds,
            new_raffle_cw721_id,
            new_raffle_cw721_addr,
            next_game_start,
        ) is Ok,
    ensures
        custody(
            next_game_updated(
                game,
                now,
                caller,
                contract_admin,
                contract_address,
                funds,
                new_raffle_cw721_id,
                new_raffle_cw721_addr,
                next_game_start,
            )->Ok_0.0,
        ) == custody(game) + denom_total(funds, game.config.game_denom),
{
    lemma_denom_total_prefix(funds, game.config.game_denom, 0);
}

/// Conservation, for a settlement: what goes out and what the ledger accounts for afterwards
/// is what the engine held, up to the four units at most that cannot be split over five
/// pots. Where the rest divides by five the two are equal.
pub proof fn law_settlement_conserves(
    game: GameView,
    now: u64,
    caller: Seq<char>,
    contract_admin: Option<Seq<char>>,
    contract_address: Seq<char>,
    contract_balance: u128,
    funds: Seq<CoinView>,
    new_raffle_cw721_id: Option<Seq<char>>,
    new_raffle_cw721_addr: Option<Seq<char>>,
    next_game_start: Option<u64>,
)
    requires
        game_ended(
            game,
            now,
            caller,
            contract_admin,
            contract_address,
            contract_balance,
            funds,
            new_raffle_cw721_id,
            new_raffle_cw721_addr,
            next_game_start,
        ) is Ok,
    ensures
        ({
            let (next, response) = game_ended(
                game,
                now,
                caller,
                contract_admin,
                contract_address,
                contract_balance,
                funds,
                new_raffle_cw721_id,
                new_raffle_cw721_addr,
                next_game_start,
            )->Ok_0;
            let rest = contract_balance - response.total_outgoing_tokens
                - next.raffle.denom_amount;
            &&& rest >= 0
            &&& custody(next) + response.total_outgoing_tokens == contract_balance - rest % 5
            &&& next.reallocation_fee_pool == 0
            &&& forall|i: int| 0 <= i < 5 ==> next.pots[i] == rest / 5
            &&& rest / 5 >= game.config.min_pot_initial_allocation
        }),
{
    let (next, response) = game_ended(
        game,
        now,
        caller,
        contract_admin,
        contract_address,
        contract_balance,
        funds,
        new_raffle_cw721_id,
        new_raffle_cw721_addr,
        next_game_start,
    )->Ok_0;
    assert(next.pots.len() == 5);
    lemma_pots_total_five(next.pots);
}

/// The uniqueness rule: a pot whose rule asks for the single lowest, the single median or
/// the single highest amount does not win while another pot holds the same amount.
pub proof fn law_shared_value_wins_nothing(pots: Seq<u128>, pot_id: u8, other: u8)
    requires
        pots.len() == 5,
        pot_id == 1 || pot_id == 3 || pot_id == 5,
        valid_pot(other),
        other != pot_id,
        pots[other - 1] == pots[pot_id - 1],
    ensures
        !pot_wins(pots, pot_id),
{
    if pot_id == 3 {
        lemma_count_equal_two(pots, 2, other - 1);
    }
}

/// Two entries with the value `pots[i]` make at least two equal entries.
pub proof fn lemma_count_equal_two(pots: Seq<u128>, i: int, j: int)
    requires
        0 <= i < pots.len(),
        0 <= j < pots.len(),
        i != j,
        pots[i] == pots[j],
    ensures
        count_equal(pots, pots[i]) >= 2,
    decreases pots.len(),
{
    let v = pots[i];
    let last = pots.len() - 1;
    if i == last {
        lemma_count_equal_one(pots.drop_last(), j, v);
    } else if j == last {
        lemma_count_equal_one(pots.drop_last(), i, v);
    } else {
        lemma_count_equal_two(pots.drop_last(), i, j);
    }
}

/// An entry with the value `v` makes at least one equal entry.
pub proof fn lemma_count_equal_one(pots: Seq<u128>, i: int, v: u128)
    requires
        0 <= i < pots.len(),
        pots[i] == v,
    ensures
        count_equal(pots, v) >= 1,
    decreases pots.len(),
{
    lemma_count_equal_nonnegative(pots.drop_last(), v);
    if i < pots.len() - 1 {
        lemma_count_equal_one(pots.drop_last(), i, v);
    }
}

/// A count is not negative.
pub proof fn lemma_count_equal_nonnegative(pots: Seq<u128>, v: u128)
    ensures
        count_equal(pots, v) >= 0,
    decreases pots.len(),
{
    if pots.len() > 0 {
        lemma_count_equal_nonnegative(pots.drop_last(), v);
    }
}

/// The raffle tie-break, first half: among the players with the greatest stake in the
/// winning pots, one whose first bid is strictly earlier than that of every other of them
/// wins.
pub proof fn law_earlier_bid_wins(
    players: Seq<PlayerAllocationsView>,
    first_bidders: Seq<Option<FirstBidderView>>,
    winning_pots: Seq<u8>,
    i: int,
)
    requires
        0 <= i < players.len(),
        stake_at(players, winning_pots, i) > 0,
        forall|j: int|
            0 <= j < players.len() ==> #[trigger] stake_at(players, winning_pots, j) <= stake_at(
                players,
                winning_pots,
                i,
            ),
        forall|j: int|
            0 <= j < players.len() && j != i && #[trigger] stake_at(players, winning_pots, j)
                == stake_at(players, winning_pots, i) ==> time_at(
                players,
                first_bidders,
                winning_pots,
                i,
            ) < time_at(players, first_bidders, winning_pots, j),
    ensures
        raffle_winner(players, first_bidders, winning_pots) == Some(players[i].player),
{
    assert(is_raffle_winner(players, first_bidders, winning_pots, i));
    let chosen = choose|k: int| is_raffle_winner(players, first_bidders, winning_pots, k);
    lemma_raffle_winner_unique(players, first_bidders, winning_pots, chosen, i);
}

/// The raffle tie-break, second half: where two players with the greatest stake in the
/// winning pots share the earliest first bid among the players with that stake, nobody
/// wins.
pub proof fn law_shared_earliest_bid_wins_nothing(
    players: Seq<PlayerAllocationsView>,
    first_bidders: Seq<Option<FirstBidderView>>,
    winning_pots: Seq<u8>,
    i: int,
    j: int,
)
    requires
        0 <= i < players.len(),
        0 <= j < players.len(),
        i != j,
        stake_at(players, winning_pots, i) == stake_at(players, winning_pots, j),
        forall|k: int|
            0 <= k < players.len() ==> #[trigger] stake_at(players, winning_pots, k) <= stake_at(
                players,
                winning_pots,
                i,
            ),
        time_at(players, first_bidders, winning_pots, i) == time_at(
            players,
            first_bidders,
            winning_pots,
            j,
        ),
        forall|k: int|
            0 <= k < players.len() && #[trigger] stake_at(players, winning_pots, k) == stake_at(
                players,
                winning_pots,
                i,
            ) ==> time_at(players, first_bidders, winning_pots, i) <= time_at(
                players,
                first_bidders,
                winning_pots,
                k,
            ),
    ensures
        raffle_winner(players, first_bidders, winning_pots) is None,
{
    assert forall|k: int| !is_raffle_winner(players, first_bidders, winning_pots, k) by {
        if is_raffle_winner(players, first_bidders, winning_pots, k) {
            assert(stake_at(players, winning_pots, i) <= stake_at(players, winning_pots, k));
            assert(stake_at(players, winning_pots, k) <= stake_at(players, winning_pots, i));
            if k == i {
                assert(stake_at(players, winning_pots, j) == stake_at(players, winning_pots, k));
            } else {
                assert(stake_at(players, winning_pots, i) == stake_at(players, winning_pots, k));
            }
        }
    }
}

/// Counting a reallocation raises the player's count by one and leaves the other players'
/// counts alone.
pub proof fn lemma_reallocations_increased(
    reallocations: Seq<PlayerReallocationsView>,
    limit: u64,
    name: Seq<char>,
    other: Seq<char>,
)
    requires
        reallocations_increased(reallocations, limit, name) is Ok,
    ensures
        reallocations_of(reallocations_increased(reallocations, limit, name)->Ok_0, name)
            == reallocations_of(reallocations, name) + 1,
        reallocations_of(reallocations_increased(reallocations, limit, name)->Ok_0, name) <= limit,
        other != name ==> reallocations_of(
            reallocations_increased(reallocations, limit, name)->Ok_0,
            other,
        ) == reallocations_of(reallocations, other),
{
    let after = reallocations_increased(reallocations, limit, name)->Ok_0;
    let i = first_counter(reallocations, name);
    lemma_first_counter(reallocations, name);
    lemma_first_counter(reallocations, other);
    if i < reallocations.len() {
        lemma_first_counter_same_names(after, reallocations, name);
        lemma_first_counter_same_names(after, reallocations, other);
    } else {
        assert(after.drop_last() =~= reallocations);
    }
}

/// Where a counter first stands depends on the names of the counters only.
pub proof fn lemma_first_counter_same_names(
    a: Seq<PlayerReallocationsView>,
    b: Seq<PlayerReallocationsView>,
    name: Seq<char>,
)
    requires
        a.len() == b.len(),
        forall|k: int| 0 <= k < a.len() ==> (#[trigger] a[k]).player == b[k].player,
    ensures
        first_counter(a, name) == first_counter(b, name),
    decreases a.len(),
{
    if a.len() > 0 {
        assert forall|k: int| 0 <= k < a.drop_last().len() implies (#[trigger] a.drop_last()[k]).player
            == b.drop_last()[k].player by {
            assert(a.drop_last()[k] == a[k]);
            assert(b.drop_last()[k] == b[k]);
        }
        lemma_first_counter_same_names(a.drop_last(), b.drop_last(), name);
        assert(a.last() == a[a.len() - 1]);
        assert(b.last() == b[b.len() - 1]);
    }
}

/// The reallocation limit, while it is not reached: every reallocation is counted, for the player who
/// made it and for nobody else, and the count never passes the limit.
pub proof fn law_reallocation_is_counted(
    game: GameView,
    now: u64,
    sender: Seq<char>,
    from_pot_id: u8,
    to_pot_id: u8,
    other: Seq<char>,
)
    requires
        reallocated(game, now, sender, from_pot_id, to_pot_id) is Ok,
    ensures
        reallocations_of(
            reallocated(game, now, sender, from_pot_id, to_pot_id)->Ok_0.reallocations,
            sender,
        ) == reallocations_of(game.reallocations, sender) + 1,
        reallocations_of(
            reallocated(game, now, sender, from_pot_id, to_pot_id)->Ok_0.reallocations,
            sender,
        ) <= game.config.reallocations_limit,
        other != sender ==> reallocations_of(
            reallocated(game, now, sender, from_pot_id, to_pot_id)->Ok_0.reallocations,
            other,
        ) == reallocations_of(game.reallocations, other),
{
    lemma_reallocations_increased(
        game.reallocations,
        game.config.reallocations_limit,
        sender,
        other,
    );
}

/// The reallocation limit, once it is reached: a player who has reallocated as often as the
/// limit allows cannot reallocate again. While the round is running, an attempt between two
/// different pots fails with the limit-reached error, whatever else holds of it.
pub proof fn law_reallocation_limit(
    game: GameView,
    now: u64,
    sender: Seq<char>,
    from_pot_id: u8,
    to_pot_id: u8,
)
    requires
        reallocations_of(game.reallocations, sender) >= game.config.reallocations_limit,
    ensures
        reallocated(game, now, sender, from_pot_id, to_pot_id) is Err,
        from_pot_id != to_pot_id && game_time(game.state, now) is Ok ==> reallocated(
            game,
            now,
            sender,
            from_pot_id,
            to_pot_id,
        ) == Err::<GameView, ContractError>(ContractError::ReallocationsLimitReached),
{
}

/// The reallocation limit, after a reset: every player's count is zero again, all stakes and
/// first depositors are forgotten, and the next round is counted.
pub proof fn law_reset_clears_the_round(
    game: GameView,
    now: u64,
    contract_balance: u128,
    total_outgoing_tokens: u128,
    raffle_cw721_token_id: Option<Seq<char>>,
    raffle_cw721_addr: Option<Seq<char>>,
    raffle_denom_amount: Option<u128>,
    next_game_start: Option<u64>,
    player: Seq<char>,
)
    requires
        next_game(
            game,
            now,
            contract_balance,
            total_outgoing_tokens,
            raffle_cw721_token_id,
            raffle_cw721_addr,
            raffle_denom_amount,
            next_game_start,
        ) is Ok,
    ensures
        ({
            let next = next_game(
                game,
                now,
                contract_balance,
                total_outgoing_tokens,
                raffle_cw721_token_id,
                raffle_cw721_addr,
                raffle_denom_amount,
                next_game_start,
            )->Ok_0;
            &&& reallocations_of(next.reallocations, player) == 0
            &&& next.players.len() == 0
            &&& forall|i: int| 0 <= i < 5 ==> next.first_bidders[i] is None
            &&& next.state.round_count == game.state.round_count + 1
            &&& next.state.extend_count == 0
        }),
{
}

/// Round-reset seeding: every pot is seeded with a fifth, rounded down, of what the balance
/// holds beyond the payouts and the raffle reserve, and the reset fails exactly for want of
/// funds when that fifth is below the configured minimum while times and balance are in
/// order.
pub proof fn law_reset_seeds_evenly(
    game: GameView,
    now: u64,
    contract_balance: u128,
    total_outgoing_tokens: u128,
    raffle_cw721_token_id: Option<Seq<char>>,
    raffle_cw721_addr: Option<Seq<char>>,
    raffle_denom_amount: Option<u128>,
    next_game_start: Option<u64>,
)
    requires
        match next_game_start {
            Some(t) => t as int,
            None => now + 1,
        } + game.config.game_duration <= u64::MAX,
        game.config.game_duration > 0,
        game.state.round_count < u64::MAX,
        total_outgoing_tokens + match raffle_denom_amount {
            Some(a) => a as int,
            None => 0,
        } <= contract_balance,
    ensures
        ({
            let rest = contract_balance - total_outgoing_tokens - match raffle_denom_amount {
                Some(a) => a as int,
                None => 0,
            };
            let next = next_game(
                game,
                now,
                contract_balance,
                total_outgoing_tokens,
                raffle_cw721_token_id,
                raffle_cw721_addr,
                raffle_denom_amount,
                next_game_start,
            );
            if rest / 5 < game.config.min_pot_initial_allocation {
                next == Err::<GameView, ContractError>(ContractError::NotEnoughFundsForNextRound)
            } else {
                &&& next is Ok
                &&& next->Ok_0.pots.len() == 5
                &&& forall|i: int| 0 <= i < 5 ==> next->Ok_0.pots[i] == rest / 5
            }
        }),
{
}

/// How many entries of `s` satisfy `pred`.
pub open spec fn count_where(s: Seq<u128>, pred: spec_fn(u128) -> bool) -> int
    decreases s.len(),
{
    if s.len() == 0 {
        0
    } else {
        count_where(s.drop_last(), pred) + if pred(s.last()) {
            1int
        } else {
            0
        }
    }
}

/// The property of being below `v`.
pub open spec fn below(v: u128) -> spec_fn(u128) -> bool {
    |x: u128| x < v
}

/// The property of being above `v`.
pub open spec fn above(v: u128) -> spec_fn(u128) -> bool {
    |x: u128| x > v
}

/// The counts of the entries below and above a value, as counts of a property.
pub proof fn lemma_counts_are_count_where(s: Seq<u128>, v: u128)
    ensures
        count_less(s, v) == count_where(s, below(v)),
        count_greater(s, v) == count_where(s, above(v)),
    decreases s.len(),
{
    if s.len() > 0 {
        lemma_counts_are_count_where(s.drop_last(), v);
    }
}

/// Taking an entry out lowers the count by one if the entry satisfies the property.
pub proof fn lemma_count_where_remove(s: Seq<u128>, pred: spec_fn(u128) -> bool, j: int)
    requires
        0 <= j < s.len(),
    ensures
        count_where(s, pred) == count_where(s.remove(j), pred) + if pred(s[j]) {
            1int
        } else {
            0
        },
    decreases s.len(),
{
    if j == s.len() - 1 {
        assert(s.remove(j) =~= s.drop_last());
    } else {
        assert(s.remove(j).drop_last() =~= s.drop_last().remove(j));
        assert(s.remove(j).last() == s.last());
        assert(s.drop_last()[j] == s[j]);
        lemma_count_where_remove(s.drop_last(), pred, j);
    }
}

/// A count does not depend on the order of the entries.
pub proof fn lemma_count_where_permutation(a: Seq<u128>, b: Seq<u128>, pred: spec_fn(u128) -> bool)
    requires
        a.to_multiset() == b.to_multiset(),
    ensures
        count_where(a, pred) == count_where(b, pred),
        a.len() == b.len(),
    decreases a.len(),
{
    vstd::seq_lib::to_multiset_len(a);
    vstd::seq_lib::to_multiset_len(b);
    if a.len() > 0 {
        let x = a.last();
        assert(a[a.len() - 1] == x);
        assert(a.contains(x));
        vstd::seq_lib::to_multiset_contains(a, x);
        vstd::seq_lib::to_multiset_contains(b, x);
        let j = choose|j: int| 0 <= j < b.len() && b[j] == x;
        vstd::seq_lib::to_multiset_remove(a, a.len() - 1);
        vstd::seq_lib::to_multiset_remove(b, j);
        assert(a.remove(a.len() - 1) =~= a.drop_last());
        lemma_count_where_permutation(a.drop_last(), b.remove(j), pred);
        lemma_count_where_remove(b, pred, j);
    }
}

/// Whether the entries of `s` stand in ascending order.
pub open spec fn ascending(s: Seq<u128>) -> bool {
    forall|i: int, j: int| 0 <= i <= j < s.len() ==> s[i] <= s[j]
}

/// In an ascending list the entries below a value stand first and those above it last.
pub proof fn lemma_ascending_counts(s: Seq<u128>, v: u128)
    requires
        ascending(s),
    ensures
        0 <= count_less(s, v) <= s.len(),
        0 <= count_greater(s, v) <= s.len(),
        forall|i: int| 0 <= i < s.len() ==> (#[trigger] s[i] < v <==> i < count_less(s, v)),
        forall|i: int|
            0 <= i < s.len() ==> (#[trigger] s[i] > v <==> i >= s.len() - count_greater(s, v)),
    decreases s.len(),
{
    if s.len() > 0 {
        let before = s.drop_last();
        let n = s.len() as int;
        assert forall|i: int, j: int| 0 <= i <= j < before.len() implies before[i] <= before[j] by {
            assert(before[i] == s[i] && before[j] == s[j]);
        }
        lemma_ascending_counts(before, v);
        assert forall|i: int| 0 <= i < n - 1 implies before[i] == #[trigger] s[i] by {}
        if n >= 2 {
            assert(before[n - 2] == s[n - 2]);
            assert(s[n - 2] <= s[n - 1]);
        }
        assert forall|i: int| 0 <= i < n implies (#[trigger] s[i] < v <==> i < count_less(s, v)) by {
            if i < n - 1 {
                assert(before[i] == s[i]);
                assert(s[i] <= s[n - 1]);
            }
        }
        assert forall|i: int| 0 <= i < n implies (#[trigger] s[i] > v <==> i >= n - count_greater(
            s,
            v,
        )) by {
            if i < n - 1 {
                assert(before[i] == s[i]);
                assert(s[i] <= s[n - 1]);
            }
        }
    }
}

/// The median rule, in sorted order: a value stands in the middle of the amounts exactly
/// when it is the middle entry of the amounts in ascending order, for an odd number of
/// amounts, and when it lies between the two central entries, ends included, for an even
/// number.
pub proof fn law_median_is_the_sorted_middle(pots: Seq<u128>, sorted: Seq<u128>, v: u128)
    requires
        ascending(sorted),
        sorted.to_multiset() == pots.to_multiset(),
    ensures
        median_test(pots, v) == if pots.len() % 2 == 1 {
            v == sorted[pots.len() as int / 2]
        } else {
            pots.len() > 0 && sorted[pots.len() as int / 2 - 1] <= v <= sorted[pots.len() as int
                / 2]
        },
{
    lemma_counts_are_count_where(pots, v);
    lemma_counts_are_count_where(sorted, v);
    lemma_count_where_permutation(sorted, pots, below(v));
    lemma_count_where_permutation(sorted, pots, above(v));
    lemma_ascending_counts(sorted, v);
    let n = pots.len() as int;
    if n > 0 {
        let m = n / 2;
        assert(sorted[m] < v <==> m < count_less(sorted, v));
        assert(sorted[m] > v <==> m >= n - count_greater(sorted, v));
        if n % 2 == 0 {
            assert(sorted[m - 1] < v <==> m - 1 < count_less(sorted, v));
            assert(sorted[m - 1] > v <==> m - 1 >= n - count_greater(sorted, v));
        }
    }
}

/// An action of a player or of the administrator, with everything the engine is told.
pub enum Action {
    /// A deposit of `funds` into pot `pot_id`.
    Deposit { now: u64, sender: Seq<char>, funds: Seq<CoinView>, holdings: Seq<u64>, pot_id: u8 },
    /// A reallocation from one pot to another.
    Reallocate { now: u64, sender: Seq<char>, from_pot_id: u8, to_pot_id: u8 },
    /// A settlement, with `funds` for the next raffle.
    Settle {
        now: u64,
        caller: Seq<char>,
        contract_admin: Option<Seq<char>>,
        contract_address: Seq<char>,
        funds: Seq<CoinView>,
        new_raffle_cw721_id: Option<Seq<char>>,
        new_raffle_cw721_addr: Option<Seq<char>>,
        next_game_start: Option<u64>,
    },
    /// A change of the next round, with `funds` for the raffle.
    UpdateNextGame {
        now: u64,
        caller: Seq<char>,
        contract_admin: Option<Seq<char>>,
        contract_address: Seq<char>,
        funds: Seq<CoinView>,
        new_raffle_cw721_id: Option<Seq<char>>,
        new_raffle_cw721_addr: Option<Seq<char>>,
        next_game_start: Option<u64>,
    },
}

/// The game together with what the engine holds of the wager denomination.
pub struct Custody {
    pub game: GameView,
    pub balance: int,
}

impl Custody {
    /// Whether the ledger accounts for the balance: for all of it but the four units at
    /// most that a reset could not split over the five pots.
    pub open spec fn covered(self) -> bool {
        &&& self.game.pots.len() == 5
        &&& custody(self.game) <= self.balance < custody(self.game) + 5
    }

    /// The game and the balance after `action`.
    ///
    /// The funds of an action arrive with it and the payments of a settlement leave with
    /// it; an action that fails changes nothing and its funds go back.
    pub open spec fn step(self, action: Action) -> Custody {
        match action {
            Action::Deposit { now, sender, funds, holdings, pot_id } => {
                match allocated(self.game, now, sender, funds, holdings, pot_id) {
                    Ok(next) => Custody {
                        game: next,
                        balance: self.balance + denom_total(funds, self.game.config.game_denom),
                    },
                    Err(_) => self,
                }
            },
            Action::Reallocate { now, sender, from_pot_id, to_pot_id } => {
                match reallocated(self.game, now, sender, from_pot_id, to_pot_id) {
                    Ok(next) => Custody { game: next, balance: self.balance },
                    Err(_) => self,
                }
            },
            Action::Settle {
                now,
                caller,
                contract_admin,
                contract_address,
                funds,
                new_raffle_cw721_id,
                new_raffle_cw721_addr,
                next_game_start,
            } => {
                let held = self.balance + denom_total(funds, self.game.config.game_denom);
                if 0 <= held <= u128::MAX {
                    match game_ended(
                        self.game,
                        now,
                        caller,
                        contract_admin,
                        contract_address,
                        held as u128,
                        funds,
                        new_raffle_cw721_id,
                        new_raffle_cw721_addr,
                        next_game_start,
                    ) {
                        Ok((next, response)) => Custody {
                            game: next,
                            balance: held - response.total_outgoing_tokens,
                        },
                        Err(_) => self,
                    }
                } else {
                    self
                }
            },
            Action::UpdateNextGame {
                now,
                caller,
                contract_admin,
                contract_address,
                funds,
                new_raffle_cw721_id,
                new_raffle_cw721_addr,
                next_game_start,
            } => {
                match next_game_updated(
                    self.game,
                    now,
                    caller,
                    contract_admin,
                    contract_address,
                    funds,
                    new_raffle_cw721_id,
                    new_raffle_cw721_addr,
                    next_game_start,
                ) {
                    Ok((next, _)) => Custody {
                        game: next,
                        balance: self.balance + denom_total(funds, self.game.config.game_denom),
                    },
                    Err(_) => self,
                }
            },
        }
    }

    /// The game and the balance after `actions`, one after the other.
    pub open spec fn run(self, actions: Seq<Action>) -> Custody
        decreases actions.len(),
    {
        if actions.len() == 0 {
            self
        } else {
            self.run(actions.drop_last()).step(actions.last())
        }
    }
}

/// Conservation, for one action: an action on a covered ledger leaves a covered ledger.
pub proof fn law_step_conserves(c: Custody, action: Action)
    requires
        c.covered(),
    ensures
        c.step(action).covered(),
{
    match action {
        Action::Deposit { now, sender, funds, holdings, pot_id } => {
            if allocated(c.game, now, sender, funds, holdings, pot_id) is Ok {
                law_deposit_conserves(c.game, now, sender, funds, holdings, pot_id);
            }
        },
        Action::Reallocate { now, sender, from_pot_id, to_pot_id } => {
            if reallocated(c.game, now, sender, from_pot_id, to_pot_id) is Ok {
                law_reallocation_conserves(c.game, now, sender, from_pot_id, to_pot_id);
            }
        },
        Action::Settle {
            now,
            caller,
            contract_admin,
            contract_address,
            funds,
            new_raffle_cw721_id,
            new_raffle_cw721_addr,
            next_game_start,
        } => {
            let held = c.balance + denom_total(funds, c.game.config.game_denom);
            if 0 <= held <= u128::MAX && game_ended(
                c.game,
                now,
                caller,
                contract_admin,
                contract_address,
                held as u128,
                funds,
                new_raffle_cw721_id,
                new_raffle_cw721_addr,
                next_game_start,
            ) is Ok {
                law_settlement_conserves(
                    c.game,
                    now,
                    caller,
                    contract_admin,
                    contract_address,
                    held as u128,
                    funds,
                    new_raffle_cw721_id,
                    new_raffle_cw721_addr,
                    next_game_start,
                );
            }
        },
        Action::UpdateNextGame {
            now,
            caller,
            contract_admin,
            contract_address,
            funds,
            new_raffle_cw721_id,
            new_raffle_cw721_addr,
            next_game_start,
        } => {
            if next_game_updated(
                c.game,
                now,
                caller,
                contract_admin,
                contract_address,
                funds,
                new_raffle_cw721_id,
                new_raffle_cw721_addr,
                next_game_start,
            ) is Ok {
                law_update_next_game_conserves(
                    c.game,
                    now,
                    caller,
                    contract_admin,
                    contract_address,
                    funds,
                    new_raffle_cw721_id,
                    new_raffle_cw721_addr,
                    next_game_start,
                );
            }
        },
    }
}

/// Conservation: after any sequence of deposits, reallocations, settlements and changes of
/// the next round, the pots, the fee pool and the raffle reserve together account for the
/// balance that the engine holds, but for the four units at most that a reset could not
/// split over the five pots.
pub proof fn law_conservation(c: Custody, actions: Seq<Action>)
    requires
        c.covered(),
    ensures
        c.run(actions).covered(),
    decreases actions.len(),
{
    if actions.len() > 0 {
        law_conservation(c, actions.drop_last());
        law_step_conserves(c.run(actions.drop_last()), actions.last());
    }
}

/// Conservation, from the start: the ledger of a new game accounts for the balance it was
/// created with, but for the four units at most that could not be split over the five
/// pots.
pub proof fn law_new_game_is_covered(
    config: GameConfigView,
    next_game_start: Option<u64>,
    now: u64,
    funds: Seq<CoinView>,
    contract_balance: u128,
)
    requires
        instantiated(config, next_game_start, now, funds, contract_balance) is Ok,
    ensures
        (Custody {
            game: instantiated(config, next_game_start, now, funds, contract_balance)->Ok_0,
            balance: contract_balance as int,
        }).covered(),
{
    let game = instantiated(config, next_game_start, now, funds, contract_balance)->Ok_0;
    assert(game.pots.len() == 5);
    lemma_pots_total_five(game.pots);
}

/// Who may settle: before the grace period after the end of the round is over, a caller who
/// is not the administrator cannot settle, and neither can anybody where there is no
/// administrator. Once the round is over the attempt fails as unauthorized.
pub proof fn law_only_the_administrator_settles_early(
    game: GameView,
    now: u64,
    caller: Seq<char>,
    contract_admin: Option<Seq<char>>,
    contract_address: Seq<char>,
    contract_balance: u128,
    funds: Seq<CoinView>,
    new_raffle_cw721_id: Option<Seq<char>>,
    new_raffle_cw721_addr: Option<Seq<char>>,
    next_game_start: Option<u64>,
)
    requires
        now < game.state.end_time + game.config.game_end_threshold,
        contract_admin != Some(caller),
    ensures
        game_ended(
            game,
            now,
            caller,
            contract_admin,
            contract_address,
            contract_balance,
            funds,
            new_raffle_cw721_id,
            new_raffle_cw721_addr,
            next_game_start,
        ) is Err,
        now >= game.state.end_time ==> game_ended(
            game,
            now,
            caller,
            contract_admin,
            contract_address,
            contract_balance,
            funds,
            new_raffle_cw721_id,
            new_raffle_cw721_addr,
            next_game_start,
        )->Err_0 == ContractError::Unauthorized,
{
}

} // verus!
