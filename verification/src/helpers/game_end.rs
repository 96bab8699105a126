//! Settlement: losing total, payouts, the raffle and the reset for the next round.

use vstd::prelude::*;
use crate::error::ContractError;
use crate::helpers::validate::{
    denom_total, has_stake, pot_initial_amount, validate_funds, validate_pot_initial_amount,
};
use crate::math::{
    checked_multiply_ratio, decimal_checked_mul, decimal_product, lemma_mul_div_le, mul_div,
    multiply_ratio, Decimal, DECIMAL_FRACTIONAL,
};
use crate::msg::{
    attr, clone_text, lemma_sent_total_add, sent_total, Attribute, AttributeView, BankSend,
    BankSendView, ProcessRaffleWinnerResponse, ProcessRaffleWinnerResponseView, TransferNft,
    TransferNftView,
};
use crate::state::{
    lemma_player_in_pot_stake, lemma_pot_stake_prefix, lemma_record_in_stake,
    lemma_stake_in_prefix, pot_stake, stake_in, valid_pot, Coin, CoinView, FirstBidder,
    FirstBidderView, Game, GameConfig, GameConfigView, GameState, GameView, PlayerAllocations,
    PlayerAllocationsView, Raffle, RaffleView, TokenAllocation,
};

verus! {

/// Whether any player holds a stake in pot `pot_id`.
pub fn has_player_allocations(players: &Vec<PlayerAllocations>, pot_id: u8) -> (r: bool)
    ensures
        r == (pot_stake(players.deep_view(), pot_id) > 0),
{
    let n: usize = players.len();
    let mut i: usize = 0;
    while i < n
        invariant
            i <= n,
            n == players@.len(),
            pot_stake(players.deep_view().take(i as int), pot_id) == 0,
        decreases n - i,
    {
        proof {
            assert(players.deep_view().take(i + 1).drop_last() =~= players.deep_view().take(
                i as int,
            ));
            assert(players.deep_view().take(i + 1).last().allocations == players@[i as int].allocations@);
            lemma_stake_in_prefix(players@[i as int].allocations@, pot_id, 0);
        }
        if has_stake(&players[i].allocations, pot_id) {
            proof {
                lemma_pot_stake_prefix(players.deep_view(), pot_id, i + 1);
            }
            return true;
        }
        i = i + 1;
    }
    assert(players.deep_view().take(n as int) =~= players.deep_view());
    false
}

/// Whether `pot_id` occurs in `winning_pots`.
pub fn contains_pot(winning_pots: &Vec<u8>, pot_id: u8) -> (r: bool)
    ensures
        r == winning_pots@.contains(pot_id),
{
    let n: usize = winning_pots.len();
    let mut i: usize = 0;
    while i < n
        invariant
            i <= n,
            n == winning_pots@.len(),
            forall|k: int| 0 <= k < i ==> winning_pots@[k] != pot_id,
        decreases n - i,
    {
        if winning_pots[i] == pot_id {
            return true;
        }
        i = i + 1;
    }
    false
}

/// Whether pot `pot_id` counts as losing: it did not win, or it won without any player's
/// stake in it.
pub open spec fn pot_loses(
    players: Seq<PlayerAllocationsView>,
    winning_pots: Seq<u8>,
    pot_id: u8,
) -> bool {
    !winning_pots.contains(pot_id) || !(pot_stake(players, pot_id) > 0)
}

/// The sum of the losing pots among the first `n`.
pub open spec fn losing_upto(
    pots: Seq<u128>,
    players: Seq<PlayerAllocationsView>,
    winning_pots: Seq<u8>,
    n: u8,
) -> int
    decreases n,
{
    if n == 0 {
        0
    } else {
        losing_upto(pots, players, winning_pots, (n - 1) as u8) + if pot_loses(
            players,
            winning_pots,
            n,
        ) {
            pots[n - 1] as int
        } else {
            0
        }
    }
}

/// The sum of the five pots that count as losing.
pub open spec fn losing_total(
    pots: Seq<u128>,
    players: Seq<PlayerAllocationsView>,
    winning_pots: Seq<u8>,
) -> int {
    losing_upto(pots, players, winning_pots, 5)
}

/// The losing sum grows with the number of pots counted.
pub proof fn lemma_losing_upto_monotonic(
    pots: Seq<u128>,
    players: Seq<PlayerAllocationsView>,
    winning_pots: Seq<u8>,
    m: u8,
    n: u8,
)
    requires
        m <= n,
    ensures
        0 <= losing_upto(pots, players, winning_pots, m) <= losing_upto(
            pots,
            players,
            winning_pots,
            n,
        ),
    decreases n,
{
    if m < n {
        lemma_losing_upto_monotonic(pots, players, winning_pots, m, (n - 1) as u8);
    } else if n > 0 {
        lemma_losing_upto_monotonic(pots, players, winning_pots, (m - 1) as u8, (n - 1) as u8);
    }
}

/// The sum of the pots that lost, or won without any player's stake.
///
/// Fails with `OverflowError` exactly when that sum is no 128-bit amount.
pub fn calculate_total_losing_tokens(
    pots: &[u128; 5],
    players: &Vec<PlayerAllocations>,
    winning_pots: &Vec<u8>,
) -> (r: Result<u128, ContractError>)
    ensures
        r == if losing_total(pots@, players.deep_view(), winning_pots@) > u128::MAX {
            Err::<u128, ContractError>(ContractError::OverflowError)
        } else {
            Ok::<u128, ContractError>(
                losing_total(pots@, players.deep_view(), winning_pots@) as u128,
            )
        },
{
    let mut total_losing_tokens: u128 = 0;
    let mut pot_id: u8 = 1;
    while pot_id <= 5
        invariant
            1 <= pot_id <= 6,
            total_losing_tokens == losing_upto(
                pots@,
                players.deep_view(),
                winning_pots@,
                (pot_id - 1) as u8,
            ),
        decreases 6 - pot_id,
    {
        proof {
            lemma_losing_upto_monotonic(pots@, players.deep_view(), winning_pots@, pot_id, 5);
        }
        if !contains_pot(winning_pots, pot_id) || !has_player_allocations(players, pot_id) {
            total_losing_tokens = match total_losing_tokens.checked_add(pots[(pot_id - 1) as usize]) {
                Some(t) => t,
                None => {
                    return Err(ContractError::OverflowError);
                },
            };
        }
        pot_id = pot_id + 1;
    }
    Ok(total_losing_tokens)
}

/// The share of the raffle amount that is paid after `extensions` extensions of the round,
/// in atomic units of a decimal: one, multiplied once by the decay factor for each
/// extension and rounded down each time. `None` when a product leaves the 128-bit range.
pub open spec fn prize_fraction(decay_factor: Decimal, extensions: nat) -> Option<u128>
    decreases extensions,
{
    if extensions == 0 {
        Some(DECIMAL_FRACTIONAL)
    } else {
        match prize_fraction(decay_factor, (extensions - 1) as nat) {
            Some(f) => decimal_product(f, decay_factor.atomics),
            None => None,
        }
    }
}

/// How the raffle amount is split between the winner (first) and the treasury (second).
///
/// The winner gets the raffle amount scaled by the prize fraction and rounded down, the
/// treasury the rest.
pub open spec fn raffle_prize_amounts(
    decay_factor: Decimal,
    extend_count: u32,
    denom_amount: u128,
) -> Result<
    (u128, u128),
    ContractError,
> {
    match prize_fraction(decay_factor, extend_count as nat) {
        None => Err(ContractError::OverflowError),
        Some(f) => match decimal_product(denom_amount, f) {
            None => Err(ContractError::OverflowError),
            Some(distributed) => if distributed > denom_amount {
                Err(ContractError::OverflowError)
            } else {
                Ok((distributed, (denom_amount - distributed) as u128))
            },
        },
    }
}

/// Splits the raffle amount between the winner and the treasury.
///
/// Fails with `OverflowError` exactly when the prize fraction or the winner's part leaves
/// the 128-bit range, or the winner's part exceeds the raffle amount; none of these happens
/// with a decay factor of at most one.
pub fn get_raffle_denom_prize_amounts(
    config: &GameConfig,
    state: &GameState,
    raffle: &Raffle,
) -> (r:
    Result<(u128, u128), ContractError>)
    ensures
        r == raffle_prize_amounts(config@.decay_factor, state.extend_count, raffle@.denom_amount),
{
    let mut fraction: Decimal = Decimal::one();
    let mut done: u32 = 0;
    while done < state.extend_count
        invariant
            done <= state.extend_count,
            prize_fraction(config@.decay_factor, done as nat) == Some(fraction.atomics),
        decreases state.extend_count - done,
    {
        fraction = match decimal_checked_mul(fraction, config.decay_factor) {
            Some(f) => f,
            None => {
                proof {
                    lemma_prize_fraction_none(
                        config@.decay_factor,
                        (done + 1) as nat,
                        state.extend_count as nat,
                    );
                }
                return Err(ContractError::OverflowError);
            },
        };
        done = done + 1;
    }
    let distributed_prize: u128 = match fraction.mul_floor(raffle.denom_amount) {
        Some(d) => d,
        None => {
            return Err(ContractError::OverflowError);
        },
    };
    match raffle.denom_amount.checked_sub(distributed_prize) {
        Some(remaining_prize) => Ok((distributed_prize, remaining_prize)),
        None => Err(ContractError::OverflowError),
    }
}

/// A prize fraction that has left the range stays out of it.
pub proof fn lemma_prize_fraction_none(decay_factor: Decimal, m: nat, n: nat)
    requires
        m <= n,
        prize_fraction(decay_factor, m) is None,
    ensures
        prize_fraction(decay_factor, n) is None,
    decreases n,
{
    if m < n {
        lemma_prize_fraction_none(decay_factor, m, (n - 1) as nat);
    }
}

/// What the records hold in the winning pots.
pub open spec fn winning_stake(allocations: Seq<TokenAllocation>, winning_pots: Seq<u8>) -> int
    decreases allocations.len(),
{
    if allocations.len() == 0 {
        0
    } else {
        winning_stake(allocations.drop_last(), winning_pots) + if winning_pots.contains(
            allocations.last().pot_id,
        ) {
            allocations.last().amount as int
        } else {
            0
        }
    }
}

/// What a prefix of the records holds in the winning pots is at most what all of them hold.
pub proof fn lemma_winning_stake_prefix(
    allocations: Seq<TokenAllocation>,
    winning_pots: Seq<u8>,
    i: int,
)
    requires
        0 <= i <= allocations.len(),
    ensures
        0 <= winning_stake(allocations.take(i), winning_pots) <= winning_stake(
            allocations,
            winning_pots,
        ),
    decreases allocations.len(),
{
    if i == allocations.len() {
        assert(allocations.take(i) =~= allocations);
        if allocations.len() > 0 {
            lemma_winning_stake_prefix(allocations.drop_last(), winning_pots, i - 1);
        }
    } else {
        assert(allocations.drop_last().take(i) =~= allocations.take(i));
        lemma_winning_stake_prefix(allocations.drop_last(), winning_pots, i);
    }
}

/// The earliest time at which the player was the first depositor of one of the first `n`
/// pots that is a winning pot in which the player holds a stake, or the greatest time when
/// there is no such pot.
pub open spec fn bid_time_upto(
    first_bidders: Seq<Option<FirstBidderView>>,
    winning_pots: Seq<u8>,
    player: PlayerAllocationsView,
    n: u8,
) -> u64
    decreases n,
{
    if n == 0 {
        u64::MAX
    } else {
        let before = bid_time_upto(first_bidders, winning_pots, player, (n - 1) as u8);
        match first_bidders[n - 1] {
            Some(first) => if winning_pots.contains(n) && first.bidder == player.player
                && stake_in(player.allocations, n) > 0 && first.time < before {
                first.time
            } else {
                before
            },
            None => before,
        }
    }
}

/// The earliest time at which the player was the first depositor of a winning pot in which
/// the player holds a stake, or the greatest time when there is no such pot.
pub open spec fn earliest_bid(
    first_bidders: Seq<Option<FirstBidderView>>,
    winning_pots: Seq<u8>,
    player: PlayerAllocationsView,
) -> u64 {
    bid_time_upto(first_bidders, winning_pots, player, 5)
}

/// What player `j` holds in the winning pots.
pub open spec fn stake_at(
    players: Seq<PlayerAllocationsView>,
    winning_pots: Seq<u8>,
    j: int,
) -> int {
    winning_stake(players[j].allocations, winning_pots)
}

/// The time that breaks a tie for player `j`.
pub open spec fn time_at(
    players: Seq<PlayerAllocationsView>,
    first_bidders: Seq<Option<FirstBidderView>>,
    winning_pots: Seq<u8>,
    j: int,
) -> u64 {
    earliest_bid(first_bidders, winning_pots, players[j])
}

/// Whether player `i` wins the raffle: the player holds something in the winning pots,
/// nobody holds more, and whoever holds as much was first in a winning pot strictly later.
pub open spec fn is_raffle_winner(
    players: Seq<PlayerAllocationsView>,
    first_bidders: Seq<Option<FirstBidderView>>,
    winning_pots: Seq<u8>,
    i: int,
) -> bool {
    &&& 0 <= i < players.len()
    &&& stake_at(players, winning_pots, i) > 0
    &&& forall|j: int|
        0 <= j < players.len() ==> #[trigger] stake_at(players, winning_pots, j) <= stake_at(
            players,
            winning_pots,
            i,
        )
    &&& forall|j: int|
        0 <= j < players.len() && j != i && #[trigger] stake_at(players, winning_pots, j)
            == stake_at(players, winning_pots, i) ==> time_at(
            players,
            first_bidders,
            winning_pots,
            i,
        ) < time_at(players, first_bidders, winning_pots, j)
}

/// The player who wins the raffle, if there is one.
pub open spec fn raffle_winner(
    players: Seq<PlayerAllocationsView>,
    first_bidders: Seq<Option<FirstBidderView>>,
    winning_pots: Seq<u8>,
) -> Option<Seq<char>> {
    if exists|i: int| is_raffle_winner(players, first_bidders, winning_pots, i) {
        Some(
            players[choose|i: int| is_raffle_winner(players, first_bidders, winning_pots, i)].player,
        )
    } else {
        None
    }
}

/// Whether some player's stake in the winning pots is no 128-bit amount.
pub open spec fn stake_overflows(
    players: Seq<PlayerAllocationsView>,
    winning_pots: Seq<u8>,
) -> bool {
    exists|j: int| 0 <= j < players.len() && #[trigger] stake_at(players, winning_pots, j) > u128::MAX
}

/// At most one player wins the raffle.
pub proof fn lemma_raffle_winner_unique(
    players: Seq<PlayerAllocationsView>,
    first_bidders: Seq<Option<FirstBidderView>>,
    winning_pots: Seq<u8>,
    i: int,
    j: int,
)
    requires
        is_raffle_winner(players, first_bidders, winning_pots, i),
        is_raffle_winner(players, first_bidders, winning_pots, j),
    ensures
        i == j,
{
    if i != j {
        assert(stake_at(players, winning_pots, j) <= stake_at(players, winning_pots, i));
        assert(stake_at(players, winning_pots, i) <= stake_at(players, winning_pots, j));
        assert(time_at(players, first_bidders, winning_pots, i) < time_at(
            players,
            first_bidders,
            winning_pots,
            j,
        ));
        assert(time_at(players, first_bidders, winning_pots, j) < time_at(
            players,
            first_bidders,
            winning_pots,
            i,
        ));
    }
}

/// What the records hold in the winning pots, when it is a 128-bit amount.
fn winning_stake_of(allocations: &Vec<TokenAllocation>, winning_pots: &Vec<u8>) -> (r: Option<u128>)
    ensures
        r == if winning_stake(allocations@, winning_pots@) > u128::MAX {
            None
        } else {
            Some(winning_stake(allocations@, winning_pots@) as u128)
        },
{
    let n: usize = allocations.len();
    let mut total: u128 = 0;
    let mut i: usize = 0;
    while i < n
        invariant
            i <= n,
            n == allocations@.len(),
            total == winning_stake(allocations@.take(i as int), winning_pots@),
        decreases n - i,
    {
        proof {
            assert(allocations@.take(i + 1).drop_last() =~= allocations@.take(i as int));
            lemma_winning_stake_prefix(allocations@, winning_pots@, i + 1);
        }
        if contains_pot(winning_pots, allocations[i].pot_id) {
            total = match total.checked_add(allocations[i].amount) {
                Some(t) => t,
                None => {
                    return None;
                },
            };
        }
        i = i + 1;
    }
    assert(allocations@.take(n as int) =~= allocations@);
    Some(total)
}

/// The time that breaks a tie for `player`.
fn earliest_bid_time(
    first_bidders: &[Option<FirstBidder>; 5],
    winning_pots: &Vec<u8>,
    player: &PlayerAllocations,
) -> (r: u64)
    ensures
        r == earliest_bid(first_bidders.deep_view(), winning_pots@, player@),
{
    let mut earliest: u64 = u64::MAX;
    let mut pot_id: u8 = 1;
    while pot_id <= 5
        invariant
            1 <= pot_id <= 6,
            earliest == bid_time_upto(
                first_bidders.deep_view(),
                winning_pots@,
                player@,
                (pot_id - 1) as u8,
            ),
        decreases 6 - pot_id,
    {
        match &first_bidders[(pot_id - 1) as usize] {
            Some(first) => {
                if contains_pot(winning_pots, pot_id) && first.bidder == player.player && has_stake(
                    &player.allocations,
                    pot_id,
                ) && first.time < earliest {
                    earliest = first.time;
                }
            },
            None => {},
        }
        pot_id = pot_id + 1;
    }
    earliest
}

/// Selects the raffle winner among the players with a stake in the winning pots.
///
/// The winner holds the greatest stake over the winning pots. Among players with the same
/// greatest stake the one who was the first depositor of a winning pot, in which the player
/// holds a stake, at the earliest time wins; where that time is shared too, nobody wins.
/// Fails with `OverflowError` exactly when some player's stake over the winning pots is no
/// 128-bit amount.
pub fn get_raffle_winner(
    players: &Vec<PlayerAllocations>,
    first_bidders: &[Option<FirstBidder>; 5],
    winning_pots: &Vec<u8>,
) -> (r: Result<Option<String>, ContractError>)
    ensures
        stake_overflows(players.deep_view(), winning_pots@) ==> r == Err::<
            Option<String>,
            ContractError,
        >(ContractError::OverflowError),
        !stake_overflows(players.deep_view(), winning_pots@) ==> r is Ok && r->Ok_0.deep_view()
            == raffle_winner(players.deep_view(), first_bidders.deep_view(), winning_pots@),
{
    let ghost ps = players.deep_view();
    let ghost fbs = first_bidders.deep_view();
    let ghost wp = winning_pots@;
    let n: usize = players.len();
    let mut max_total: u128 = 0;
    let mut best: usize = 0;
    let mut best_time: u64 = 0;
    let mut contested: bool = false;
    let ghost mut rival: int = 0;
    let mut i: usize = 0;
    while i < n
        invariant
            i <= n,
            n == players@.len(),
            ps == players.deep_view(),
            fbs == first_bidders.deep_view(),
            wp == winning_pots@,
            forall|j: int| 0 <= j < i ==> #[trigger] stake_at(ps, wp, j) <= max_total,
            max_total > 0 ==> best < i && stake_at(ps, wp, best as int) == max_total && best_time
                == time_at(ps, fbs, wp, best as int),
            max_total > 0 ==> forall|j: int|
                0 <= j < i && #[trigger] stake_at(ps, wp, j) == max_total ==> time_at(
                    ps,
                    fbs,
                    wp,
                    j,
                ) >= best_time,
            max_total > 0 && contested ==> 0 <= rival < i && rival != best && stake_at(
                ps,
                wp,
                rival,
            ) == max_total && time_at(ps, fbs, wp, rival) == best_time,
            max_total > 0 && !contested ==> forall|j: int|
                0 <= j < i && j != best && #[trigger] stake_at(ps, wp, j) == max_total ==> time_at(
                    ps,
                    fbs,
                    wp,
                    j,
                ) != best_time,
        decreases n - i,
    {
        proof {
            assert(ps[i as int].allocations == players@[i as int].allocations@);
            assert(ps[i as int].player == players@[i as int].player@);
            lemma_winning_stake_prefix(ps[i as int].allocations, wp, 0);
        }
        let total: u128 = match winning_stake_of(&players[i].allocations, winning_pots) {
            Some(t) => t,
            None => {
                assert(stake_at(ps, wp, i as int) > u128::MAX);
                return Err(ContractError::OverflowError);
            },
        };
        assert(stake_at(ps, wp, i as int) == total);
        if total > max_total {
            max_total = total;
            best = i;
            best_time = earliest_bid_time(first_bidders, winning_pots, &players[i]);
            contested = false;
        } else if total == max_total && total > 0 {
            let time: u64 = earliest_bid_time(first_bidders, winning_pots, &players[i]);
            if time < best_time {
                best = i;
                best_time = time;
                contested = false;
            } else if time == best_time {
                contested = true;
                proof {
                    rival = i as int;
                }
            }
        }
        i = i + 1;
    }
    if max_total == 0 || contested {
        proof {
            assert forall|k: int| !is_raffle_winner(ps, fbs, wp, k) by {
                if is_raffle_winner(ps, fbs, wp, k) {
                    assert(stake_at(ps, wp, k) <= max_total);
                    if max_total > 0 {
                        assert(stake_at(ps, wp, best as int) <= stake_at(ps, wp, k));
                        if k == best {
                            assert(stake_at(ps, wp, rival) == stake_at(ps, wp, k));
                        } else {
                            assert(time_at(ps, fbs, wp, k) >= best_time);
                        }
                    }
                }
            }
        }
        Ok(None)
    } else {
        proof {
            assert(is_raffle_winner(ps, fbs, wp, best as int));
            let chosen = choose|k: int| is_raffle_winner(ps, fbs, wp, k);
            lemma_raffle_winner_unique(ps, fbs, wp, chosen, best as int);
        }
        Ok(Some(players[best].player.clone()))
    }
}

/// Whether pot `pot_id` takes part in the payout: some player has a stake in it.
pub open spec fn pot_qualifies(players: Seq<PlayerAllocationsView>, pot_id: u8) -> bool {
    valid_pot(pot_id) && pot_stake(players, pot_id) > 0
}

/// What the players hold in the first `k` winning pots.
pub open spec fn staked_total(players: Seq<PlayerAllocationsView>, winning_pots: Seq<u8>, k: int) -> int
    decreases k,
{
    if k <= 0 {
        0
    } else {
        staked_total(players, winning_pots, k - 1) + if pot_qualifies(players, winning_pots[k - 1]) {
            pot_stake(players, winning_pots[k - 1])
        } else {
            0
        }
    }
}

/// Everything that decides what one winning pot pays: the pots, the stakes, the winning
/// pots, the fee percentage and the losing total.
pub struct Settlement {
    pub pots: Seq<u128>,
    pub players: Seq<PlayerAllocationsView>,
    pub winning_pots: Seq<u8>,
    pub fee: u64,
    pub total_losing_tokens: u128,
}

impl Settlement {
    /// What the players hold in the winning pots.
    pub open spec fn total_winning_stake(self) -> int {
        staked_total(self.players, self.winning_pots, self.winning_pots.len() as int)
    }

    /// Half of the losing total, rounded down: what the winning pots share.
    pub open spec fn distribution_amount(self) -> int {
        (self.total_losing_tokens / 2) as int
    }

    /// The part of the distribution amount that falls to pot `pot_id`: in proportion to what
    /// the players hold in it, among what they hold in all winning pots, rounded down.
    pub open spec fn pot_share(self, pot_id: u8) -> int {
        mul_div(
            self.distribution_amount(),
            pot_stake(self.players, pot_id),
            self.total_winning_stake(),
        )
    }

    /// What pot `pot_id` pays out before the fee: its share and its own amount.
    pub open spec fn pot_payout_total(self, pot_id: u8) -> int {
        self.pot_share(pot_id) + self.pots[pot_id - 1]
    }

    /// The fee on the payout of pot `pot_id`, rounded down.
    pub open spec fn pot_fee(self, pot_id: u8) -> int {
        mul_div(self.pot_payout_total(pot_id), self.fee as int, 100)
    }

    /// What the players of pot `pot_id` share.
    pub open spec fn pot_net(self, pot_id: u8) -> int {
        self.pot_payout_total(pot_id) - self.pot_fee(pot_id)
    }

    /// Whether the amounts of pot `pot_id` stay in range: its payout is a 128-bit amount and
    /// the fee does not exceed the payout.
    pub open spec fn pot_fits(self, pot_id: u8) -> bool {
        &&& self.pot_payout_total(pot_id) <= u128::MAX
        &&& self.pot_fee(pot_id) <= self.pot_payout_total(pot_id)
    }

    /// The sum of the fees of the first `k` winning pots.
    pub open spec fn fee_total(self, k: int) -> int
        decreases k,
    {
        if k <= 0 {
            0
        } else {
            self.fee_total(k - 1) + if pot_qualifies(self.players, self.winning_pots[k - 1]) {
                self.pot_fee(self.winning_pots[k - 1])
            } else {
                0
            }
        }
    }

    /// The payouts to the players of the first `k` winning pots.
    pub open spec fn payouts(self, denom: Seq<char>, k: int) -> Seq<BankSendView>
        decreases k,
    {
        if k <= 0 {
            Seq::empty()
        } else {
            self.payouts(denom, k - 1) + if pot_qualifies(self.players, self.winning_pots[k - 1]) {
                pot_payouts(
                    self.players,
                    denom,
                    self.winning_pots[k - 1],
                    self.pot_net(self.winning_pots[k - 1]) as u128,
                )
            } else {
                Seq::empty()
            }
        }
    }

    /// Whether every winning pot is one of the five pots.
    pub open spec fn pots_valid(self) -> bool {
        forall|k: int| 0 <= k < self.winning_pots.len() ==> valid_pot(#[trigger] self.winning_pots[k])
    }

    /// Whether every amount of the settlement stays in range.
    pub open spec fn fits(self, reallocation_fee_pool: u128) -> bool {
        &&& self.total_winning_stake() <= u128::MAX
        &&& forall|k: int|
            0 <= k < self.winning_pots.len() && pot_qualifies(
                self.players,
                #[trigger] self.winning_pots[k],
            ) ==> self.pot_fits(self.winning_pots[k])
        &&& self.fee_total(self.winning_pots.len() as int) + reallocation_fee_pool <= u128::MAX
    }
}

/// The payouts for one player's records in pot `pot_id`: each record with a stake gets the
/// part of `net` that its stake is of `total_stake`, rounded down.
pub open spec fn record_payouts(
    name: Seq<char>,
    denom: Seq<char>,
    allocations: Seq<TokenAllocation>,
    pot_id: u8,
    net: u128,
    total_stake: u128,
) -> Seq<BankSendView>
    decreases allocations.len(),
{
    if allocations.len() == 0 {
        Seq::empty()
    } else {
        let before = record_payouts(name, denom, allocations.drop_last(), pot_id, net, total_stake);
        if allocations.last().pot_id == pot_id && allocations.last().amount != 0 {
            before.push(
                BankSendView {
                    to_address: name,
                    denom,
                    amount: mul_div(
                        net as int,
                        allocations.last().amount as int,
                        total_stake as int,
                    ) as u128,
                },
            )
        } else {
            before
        }
    }
}

/// The payouts for the stakes in pot `pot_id`, player by player.
pub open spec fn player_payouts(
    players: Seq<PlayerAllocationsView>,
    denom: Seq<char>,
    pot_id: u8,
    net: u128,
    total_stake: u128,
) -> Seq<BankSendView>
    decreases players.len(),
{
    if players.len() == 0 {
        Seq::empty()
    } else {
        player_payouts(players.drop_last(), denom, pot_id, net, total_stake) + record_payouts(
            players.last().player,
            denom,
            players.last().allocations,
            pot_id,
            net,
            total_stake,
        )
    }
}

/// The payouts of `net` to the players with a stake in pot `pot_id`; none where nobody has
/// one.
pub open spec fn pot_payouts(
    players: Seq<PlayerAllocationsView>,
    denom: Seq<char>,
    pot_id: u8,
    net: u128,
) -> Seq<BankSendView> {
    if pot_stake(players, pot_id) <= 0 {
        Seq::empty()
    } else {
        player_payouts(players, denom, pot_id, net, pot_stake(players, pot_id) as u128)
    }
}

/// The payment of `amount` to `to_address`; none for an amount of zero.
pub open spec fn payment(to_address: Seq<char>, denom: Seq<char>, amount: u128) -> Seq<
    BankSendView,
> {
    if amount != 0 {
        seq![BankSendView { to_address, denom, amount }]
    } else {
        Seq::empty()
    }
}

/// The payments to the treasury: the reallocation fees and the payout fees, each only when
/// it is not zero.
pub open spec fn treasury_messages(
    fee_address: Seq<char>,
    denom: Seq<char>,
    reallocation_fee_pool: u128,
    total_fee: u128,
) -> Seq<BankSendView> {
    payment(fee_address, denom, reallocation_fee_pool) + payment(
        fee_address,
        denom,
        total_fee,
    )
}

/// A payment pays its amount.
pub proof fn lemma_payment_total(to_address: Seq<char>, denom: Seq<char>, amount: u128)
    ensures
        sent_total(payment(to_address, denom, amount)) == amount,
{
    let m = payment(to_address, denom, amount);
    if m.len() > 0 {
        assert(m.drop_last().len() == 0);
        assert(sent_total(m.drop_last()) == 0);
    }
}

/// What the treasury gets is part of what the settlement pays.
pub proof fn lemma_treasury_in_payments(
    payouts: Seq<BankSendView>,
    fee_address: Seq<char>,
    denom: Seq<char>,
    reallocation_fee_pool: u128,
    total_fee: u128,
)
    ensures
        sent_total(
            payouts + treasury_messages(fee_address, denom, reallocation_fee_pool, total_fee),
        ) == sent_total(payouts) + reallocation_fee_pool + total_fee,
        0 <= sent_total(payouts),
{
    let pool = payment(fee_address, denom, reallocation_fee_pool);
    let fee = payment(fee_address, denom, total_fee);
    lemma_sent_total_add(payouts, pool + fee);
    lemma_sent_total_add(pool, fee);
    lemma_payment_total(fee_address, denom, reallocation_fee_pool);
    lemma_payment_total(fee_address, denom, total_fee);
}

/// The payment of `fee` to the treasury; none for a fee of zero.
pub fn create_fee_message(config: &GameConfig, fee: u128) -> (r: Vec<BankSend>)
    ensures
        r.deep_view() == payment(config@.fee_address, config@.game_denom, fee),
{
    let mut messages: Vec<BankSend> = Vec::new();
    if fee != 0 {
        messages.push(
            BankSend {
                to_address: config.fee_address.clone(),
                denom: config.game_denom.clone(),
                amount: fee,
            },
        );
    }
    assert(messages.deep_view() =~= payment(config@.fee_address, config@.game_denom, fee));
    messages
}

/// What the records hold in pot `pot_id`, when it is a 128-bit amount.
fn stake_in_pot(allocations: &Vec<TokenAllocation>, pot_id: u8) -> (r: Option<u128>)
    ensures
        r == if stake_in(allocations@, pot_id) > u128::MAX {
            None
        } else {
            Some(stake_in(allocations@, pot_id) as u128)
        },
{
    let n: usize = allocations.len();
    let mut total: u128 = 0;
    let mut i: usize = 0;
    while i < n
        invariant
            i <= n,
            n == allocations@.len(),
            total == stake_in(allocations@.take(i as int), pot_id),
        decreases n - i,
    {
        proof {
            assert(allocations@.take(i + 1).drop_last() =~= allocations@.take(i as int));
            lemma_stake_in_prefix(allocations@, pot_id, i + 1);
        }
        if allocations[i].pot_id == pot_id {
            total = match total.checked_add(allocations[i].amount) {
                Some(t) => t,
                None => {
                    return None;
                },
            };
        }
        i = i + 1;
    }
    assert(allocations@.take(n as int) =~= allocations@);
    Some(total)
}

/// What all players hold in pot `pot_id`, when it is a 128-bit amount.
pub fn total_pot_stake(players: &Vec<PlayerAllocations>, pot_id: u8) -> (r: Option<u128>)
    ensures
        r == if pot_stake(players.deep_view(), pot_id) > u128::MAX {
            None
        } else {
            Some(pot_stake(players.deep_view(), pot_id) as u128)
        },
{
    let n: usize = players.len();
    let mut total: u128 = 0;
    let mut i: usize = 0;
    while i < n
        invariant
            i <= n,
            n == players@.len(),
            total == pot_stake(players.deep_view().take(i as int), pot_id),
        decreases n - i,
    {
        proof {
            assert(players.deep_view().take(i + 1).drop_last() =~= players.deep_view().take(
                i as int,
            ));
            assert(players.deep_view().take(i + 1).last().allocations == players@[i as int].allocations@);
            lemma_pot_stake_prefix(players.deep_view(), pot_id, i + 1);
            lemma_stake_in_prefix(players@[i as int].allocations@, pot_id, 0);
        }
        let held: u128 = match stake_in_pot(&players[i].allocations, pot_id) {
            Some(h) => h,
            None => {
                return None;
            },
        };
        total = match total.checked_add(held) {
            Some(t) => t,
            None => {
                return None;
            },
        };
        i = i + 1;
    }
    assert(players.deep_view().take(n as int) =~= players.deep_view());
    Some(total)
}

/// Appends to `messages` the payouts of `net_distribution_amount` to the players of pot
/// `pot_id`, each in proportion to the stake.
///
/// Fails with `OverflowError` exactly when the stakes in the pot do not sum to a 128-bit
/// amount; then nothing changes. Where nobody has a stake in the pot nothing is appended.
pub fn distribute_tokens_to_players(
    players: &Vec<PlayerAllocations>,
    game_denom: &String,
    pot_id: u8,
    net_distribution_amount: u128,
    messages: &mut Vec<BankSend>,
) -> (r: Result<(), ContractError>)
    ensures
        pot_stake(players.deep_view(), pot_id) > u128::MAX ==> r == Err::<(), ContractError>(
            ContractError::OverflowError,
        ) && *final(messages) == *old(messages),
        pot_stake(players.deep_view(), pot_id) <= u128::MAX ==> r == Ok::<(), ContractError>(())
            && final(messages).deep_view() == old(messages).deep_view() + pot_payouts(
            players.deep_view(),
            game_denom@,
            pot_id,
            net_distribution_amount,
        ),
{
    let ghost ps = players.deep_view();
    let ghost base = messages.deep_view();
    proof {
        lemma_pot_stake_prefix(ps, pot_id, 0);
    }
    let total_player_contributions: u128 = match total_pot_stake(players, pot_id) {
        Some(t) => t,
        None => {
            return Err(ContractError::OverflowError);
        },
    };
    if total_player_contributions == 0 {
        assert(base + Seq::<BankSendView>::empty() =~= base);
        return Ok(());
    }
    let n: usize = players.len();
    let mut i: usize = 0;
    assert(base + Seq::<BankSendView>::empty() =~= base);
    while i < n
        invariant
            i <= n,
            n == players@.len(),
            ps == players.deep_view(),
            total_player_contributions == pot_stake(ps, pot_id),
            total_player_contributions > 0,
            messages.deep_view() == base + player_payouts(
                ps.take(i as int),
                game_denom@,
                pot_id,
                net_distribution_amount,
                total_player_contributions,
            ),
        decreases n - i,
    {
        let ghost name = ps[i as int].player;
        let ghost records = ps[i as int].allocations;
        let ghost before = messages.deep_view();
        let m: usize = players[i].allocations.len();
        let mut k: usize = 0;
        proof {
            assert(records == players@[i as int].allocations@);
            assert(name == players@[i as int].player@);
            assert(before + Seq::<BankSendView>::empty() =~= before);
            assert(records.take(0).len() == 0);
        }
        while k < m
            invariant
                k <= m,
                i < n,
                n == players@.len(),
                ps == players.deep_view(),
                m == players@[i as int].allocations@.len(),
                records == players@[i as int].allocations@,
                records == ps[i as int].allocations,
                name == players@[i as int].player@,
                total_player_contributions == pot_stake(ps, pot_id),
                total_player_contributions > 0,
                messages.deep_view() == before + record_payouts(
                    name,
                    game_denom@,
                    records.take(k as int),
                    pot_id,
                    net_distribution_amount,
                    total_player_contributions,
                ),
            decreases m - k,
        {
            let allocation: TokenAllocation = players[i].allocations[k];
            proof {
                assert(records.take(k + 1).drop_last() =~= records.take(k as int));
                assert(records.take(k + 1).last() == allocation);
            }
            if allocation.pot_id == pot_id && allocation.amount != 0 {
                proof {
                    lemma_record_in_stake(records, pot_id, k as int);
                    lemma_player_in_pot_stake(ps, pot_id, i as int);
                    lemma_mul_div_le(
                        net_distribution_amount as int,
                        allocation.amount as int,
                        total_player_contributions as int,
                    );
                }
                let player_share: u128 = multiply_ratio(
                    net_distribution_amount,
                    allocation.amount,
                    total_player_contributions,
                );
                let ghost sent = messages.deep_view();
                messages.push(
                    BankSend {
                        to_address: players[i].player.clone(),
                        denom: game_denom.clone(),
                        amount: player_share,
                    },
                );
                proof {
                    let msg = BankSendView {
                        to_address: name,
                        denom: game_denom@,
                        amount: player_share,
                    };
                    assert(messages.deep_view() =~= sent.push(msg));
                    assert(sent.push(msg) =~= before + record_payouts(
                        name,
                        game_denom@,
                        records.take(k as int),
                        pot_id,
                        net_distribution_amount,
                        total_player_contributions,
                    ).push(msg));
                }
            }
            k = k + 1;
        }
        proof {
            assert(records.take(m as int) =~= records);
            assert(ps.take(i + 1).drop_last() =~= ps.take(i as int));
            assert(ps.take(i + 1).last() == ps[i as int]);
            let earlier = player_payouts(
                ps.take(i as int),
                game_denom@,
                pot_id,
                net_distribution_amount,
                total_player_contributions,
            );
            let own = record_payouts(
                name,
                game_denom@,
                records,
                pot_id,
                net_distribution_amount,
                total_player_contributions,
            );
            assert((base + earlier) + own =~= base + (earlier + own));
        }
        i = i + 1;
    }
    assert(ps.take(n as int) =~= ps);
    Ok(())
}

/// The settlement that the given state and winning pots make.
pub open spec fn settlement(
    config: GameConfigView,
    pots: Seq<u128>,
    players: Seq<PlayerAllocationsView>,
    winning_pots: Seq<u8>,
    total_losing_tokens: u128,
) -> Settlement {
    Settlement { pots, players, winning_pots, fee: config.fee, total_losing_tokens }
}

/// What the players hold in the winning pots grows with the number of pots counted.
pub proof fn lemma_staked_total_monotonic(
    players: Seq<PlayerAllocationsView>,
    winning_pots: Seq<u8>,
    k: int,
    n: int,
)
    requires
        k <= n,
    ensures
        0 <= staked_total(players, winning_pots, k) <= staked_total(players, winning_pots, n),
    decreases n,
{
    if n > 0 {
        if k < n {
            lemma_staked_total_monotonic(players, winning_pots, k, n - 1);
        } else {
            lemma_staked_total_monotonic(players, winning_pots, k - 1, n - 1);
        }
    }
}

impl Settlement {
    /// The stakes in a winning pot that takes part in the payout are part of the stakes in
    /// all winning pots, so that its share, payout and fee are not negative.
    pub proof fn lemma_qualifying_pot(self, k: int)
        requires
            0 <= k < self.winning_pots.len(),
            pot_qualifies(self.players, self.winning_pots[k]),
        ensures
            0 < pot_stake(self.players, self.winning_pots[k]) <= self.total_winning_stake(),
            0 <= self.pot_share(self.winning_pots[k]) <= self.distribution_amount(),
            0 <= self.pot_fee(self.winning_pots[k]),
    {
        let pot_id = self.winning_pots[k];
        lemma_staked_total_monotonic(self.players, self.winning_pots, k, k + 1);
        lemma_staked_total_monotonic(
            self.players,
            self.winning_pots,
            k + 1,
            self.winning_pots.len() as int,
        );
        lemma_staked_total_monotonic(self.players, self.winning_pots, 0, k);
        lemma_mul_div_le(
            self.distribution_amount(),
            pot_stake(self.players, pot_id),
            self.total_winning_stake(),
        );
        let total = self.pot_payout_total(pot_id);
        let fee = self.fee as int;
        assert(0 <= (total * fee) / 100) by (nonlinear_arith)
            requires
                0 <= total,
                0 <= fee,
        ;
    }

    /// The fee total grows with the number of winning pots counted.
    pub proof fn lemma_fee_total_monotonic(self, k: int, n: int)
        requires
            0 <= k <= n <= self.winning_pots.len(),
        ensures
            0 <= self.fee_total(k) <= self.fee_total(n),
        decreases n,
    {
        if n > 0 {
            if pot_qualifies(self.players, self.winning_pots[n - 1]) {
                self.lemma_qualifying_pot(n - 1);
            }
            if k < n {
                self.lemma_fee_total_monotonic(k, n - 1);
            } else {
                self.lemma_fee_total_monotonic(k - 1, n - 1);
            }
        }
    }
}

/// The payments of a settlement and what the treasury gets in all.
///
/// The payments go to the players of every winning pot that takes part, pot by pot in the
/// order of `winning_pots`, and then to the treasury. There are none for winning pots that
/// name an unknown pot (`InvalidPot`), and none when an amount leaves its range
/// (`OverflowError`).
pub open spec fn distribution(
    config: GameConfigView,
    pots: Seq<u128>,
    players: Seq<PlayerAllocationsView>,
    reallocation_fee_pool: u128,
    winning_pots: Seq<u8>,
    total_losing_tokens: u128,
) -> Result<(Seq<BankSendView>, u128), ContractError> {
    let s = settlement(config, pots, players, winning_pots, total_losing_tokens);
    if !s.pots_valid() {
        Err(ContractError::InvalidPot)
    } else if !s.fits(reallocation_fee_pool) {
        Err(ContractError::OverflowError)
    } else {
        Ok(
            (
                s.payouts(config.game_denom, winning_pots.len() as int) + treasury_messages(
                    config.fee_address,
                    config.game_denom,
                    reallocation_fee_pool,
                    s.fee_total(winning_pots.len() as int) as u128,
                ),
                (s.fee_total(winning_pots.len() as int) + reallocation_fee_pool) as u128,
            ),
        )
    }
}

/// The payments of a settlement: to the players of every winning pot with a stake, then to
/// the treasury.
///
/// Half of `total_losing_tokens`, rounded down, is shared among the winning pots in
/// proportion to what the players hold in them. Each pot pays its share and its own amount, less the fee,
/// to its players in proportion to their stakes. The treasury gets the reallocation fees
/// and the payout fees. The second result is what the treasury gets in all.
///
/// Fails with `InvalidPot` exactly when `winning_pots` names an unknown pot, and otherwise
/// with `OverflowError` exactly when an amount of the settlement leaves its range.
pub fn get_distribution_send_msgs(
    config: &GameConfig,
    pots: &[u128; 5],
    players: &Vec<PlayerAllocations>,
    reallocation_fee_pool: u128,
    winning_pots: &Vec<u8>,
    total_losing_tokens: u128,
) -> (r: Result<(Vec<BankSend>, u128), ContractError>)
    ensures
        match distribution(
            config@,
            pots@,
            players.deep_view(),
            reallocation_fee_pool,
            winning_pots@,
            total_losing_tokens,
        ) {
            Ok((messages, treasury)) => r is Ok && r->Ok_0.0.deep_view() == messages && r->Ok_0.1
                == treasury,
            Err(e) => r is Err && r->Err_0 == e,
        },
{
    let ghost s = settlement(config@, pots@, players.deep_view(), winning_pots@, total_losing_tokens);
    let n: usize = winning_pots.len();
    let mut k: usize = 0;
    while k < n
        invariant
            k <= n,
            n == winning_pots@.len(),
            s == settlement(config@, pots@, players.deep_view(), winning_pots@, total_losing_tokens),
            forall|j: int| 0 <= j < k ==> valid_pot(#[trigger] s.winning_pots[j]),
        decreases n - k,
    {
        if winning_pots[k] < 1 || winning_pots[k] > 5 {
            assert(!valid_pot(s.winning_pots[k as int]));
            return Err(ContractError::InvalidPot);
        }
        k = k + 1;
    }
    let total_distribution_amount: u128 = total_losing_tokens / 2;

    let mut pot_contributions: [u128; 5] = [0, 0, 0, 0, 0];
    let mut total_winning_stake: u128 = 0;
    k = 0;
    while k < n
        invariant
            k <= n,
            n == winning_pots@.len(),
            s == settlement(config@, pots@, players.deep_view(), winning_pots@, total_losing_tokens),
            s.pots_valid(),
            total_winning_stake == staked_total(s.players, s.winning_pots, k as int),
            forall|j: int|
                0 <= j < k ==> pot_contributions@[#[trigger] s.winning_pots[j] - 1] == pot_stake(
                    s.players,
                    s.winning_pots[j],
                ),
        decreases n - k,
    {
        let pot_id: u8 = winning_pots[k];
        assert(valid_pot(s.winning_pots[k as int]));
        proof {
            lemma_staked_total_monotonic(s.players, s.winning_pots, k + 1, n as int);
            lemma_staked_total_monotonic(s.players, s.winning_pots, 0, k as int);
            lemma_pot_stake_prefix(s.players, pot_id, 0);
        }
        let stake: u128 = match total_pot_stake(players, pot_id) {
            Some(held) => held,
            None => {
                return Err(ContractError::OverflowError);
            },
        };
        if stake != 0 {
            total_winning_stake = match total_winning_stake.checked_add(stake) {
                Some(t) => t,
                None => {
                    return Err(ContractError::OverflowError);
                },
            };
        }
        pot_contributions[(pot_id - 1) as usize] = stake;
        k = k + 1;
    }

    let mut messages: Vec<BankSend> = Vec::new();
    let mut total_fee: u128 = 0;
    k = 0;
    assert(messages.deep_view() =~= s.payouts(config@.game_denom, 0));
    while k < n
        invariant
            k <= n,
            n == winning_pots@.len(),
            s == settlement(config@, pots@, players.deep_view(), winning_pots@, total_losing_tokens),
            s.pots_valid(),
            total_distribution_amount == s.distribution_amount(),
            total_winning_stake == s.total_winning_stake(),
            forall|j: int|
                0 <= j < n ==> pot_contributions@[#[trigger] s.winning_pots[j] - 1] == pot_stake(
                    s.players,
                    s.winning_pots[j],
                ),
            total_fee == s.fee_total(k as int),
            messages.deep_view() == s.payouts(config@.game_denom, k as int),
            forall|j: int|
                0 <= j < k && pot_qualifies(s.players, #[trigger] s.winning_pots[j])
                    ==> s.pot_fits(s.winning_pots[j]),
        decreases n - k,
    {
        let pot_id: u8 = winning_pots[k];
        assert(valid_pot(s.winning_pots[k as int]));
        let stake: u128 = pot_contributions[(pot_id - 1) as usize];
        let ghost sent = messages.deep_view();
        if stake != 0 {
            proof {
                s.lemma_qualifying_pot(k as int);
                s.lemma_fee_total_monotonic(k + 1, n as int);
            }
            let pot_share: u128 = multiply_ratio(
                total_distribution_amount,
                stake,
                total_winning_stake,
            );
            let pot_total_distribution_amount: u128 = match pot_share.checked_add(
                pots[(pot_id - 1) as usize],
            ) {
                Some(t) => t,
                None => {
                    assert(!s.pot_fits(s.winning_pots[k as int]));
                    return Err(ContractError::OverflowError);
                },
            };
            let fee: u128 = match checked_multiply_ratio(
                pot_total_distribution_amount,
                config.fee as u128,
                100,
            ) {
                Ok(f) => f,
                Err(_) => {
                    assert(!s.pot_fits(s.winning_pots[k as int]));
                    return Err(ContractError::OverflowError);
                },
            };
            let net_distribution_amount: u128 = match pot_total_distribution_amount.checked_sub(
                fee,
            ) {
                Some(a) => a,
                None => {
                    assert(!s.pot_fits(s.winning_pots[k as int]));
                    return Err(ContractError::OverflowError);
                },
            };
            total_fee = match total_fee.checked_add(fee) {
                Some(t) => t,
                None => {
                    return Err(ContractError::OverflowError);
                },
            };
            match distribute_tokens_to_players(
                players,
                &config.game_denom,
                pot_id,
                net_distribution_amount,
                &mut messages,
            ) {
                Ok(()) => {},
                Err(e) => {
                    return Err(e);
                },
            }
        } else {
            assert(sent + Seq::<BankSendView>::empty() =~= sent);
        }
        k = k + 1;
    }

    let treasury: u128 = match total_fee.checked_add(reallocation_fee_pool) {
        Some(t) => t,
        None => {
            return Err(ContractError::OverflowError);
        },
    };
    let ghost paid = messages.deep_view();
    let mut pool_message: Vec<BankSend> = create_fee_message(config, reallocation_fee_pool);
    let mut fee_message: Vec<BankSend> = create_fee_message(config, total_fee);
    let ghost to_treasury = pool_message.deep_view() + fee_message.deep_view();
    messages.append(&mut pool_message);
    messages.append(&mut fee_message);
    assert(messages.deep_view() =~= paid + to_treasury);
    Ok((messages, treasury))
}

/// The payments of the raffle amount: the winner's part and the treasury's part, each only
/// when it is not zero.
pub open spec fn prize_messages(
    recipient: Seq<char>,
    fee_address: Seq<char>,
    denom: Seq<char>,
    prize_to_distribute: u128,
    prize_to_treasury: u128,
) -> Seq<BankSendView> {
    payment(recipient, denom, prize_to_distribute) + payment(
        fee_address,
        denom,
        prize_to_treasury,
    )
}

/// The hand-over of a prize token to `recipient`, where there is a token.
pub open spec fn token_transfer(
    token_id: Option<Seq<char>>,
    collection: Option<Seq<char>>,
    recipient: Seq<char>,
) -> Seq<TransferNftView> {
    match (token_id, collection) {
        (Some(id), Some(addr)) => seq![
            TransferNftView { contract_addr: addr, recipient, token_id: id },
        ],
        _ => Seq::empty(),
    }
}

/// The notes on a raffle that was won: who won the token, from which collection and which
/// one, where a token was pending; who got the winner's part of the amount, and where the
/// treasury's part went, each only for a part that is not zero.
pub open spec fn raffle_attributes(
    raffle: RaffleView,
    recipient: Seq<char>,
    fee_address: Seq<char>,
    prize_to_distribute: u128,
    prize_to_treasury: u128,
) -> Seq<AttributeView> {
    let token = match (raffle.cw721_token_id, raffle.cw721_addr) {
        (Some(id), Some(addr)) => seq![
            AttributeView { key: "raffle_winner"@, value: recipient },
            AttributeView { key: "raffle_outgoing_nft_addr"@, value: addr },
            AttributeView { key: "raffle_outgoing_nft_id"@, value: id },
        ],
        _ => Seq::empty(),
    };
    let to_winner = if prize_to_distribute != 0 {
        seq![AttributeView { key: "raffle_outgoing_tokens_winner"@, value: recipient }]
    } else {
        Seq::empty()
    };
    let to_treasury = if prize_to_treasury != 0 {
        seq![AttributeView { key: "raffle_outgoing_tokens_treasury"@, value: fee_address }]
    } else {
        Seq::empty()
    };
    token + to_winner + to_treasury
}

/// What settling the raffle yields.
///
/// `sent` is what the caller sent of the wager denomination, `winner` the raffle winner.
///
/// With a winner the pending token goes to the winner and the pending amount is split
/// between winner and treasury; the prize for the next round is what the caller supplies.
/// Without a winner the pending token and amount are carried over, a token supplied on top
/// of a pending one is refused with `InvalidRaffleNft`, and an amount supplied is added to
/// the pending one. Either way the token that stands for the next round is handed to the
/// engine's own address. A pending token without a collection is refused with
/// `InvalidRaffleNft`; amounts that leave the 128-bit range with `OverflowError`.
pub open spec fn raffle_settlement(
    config: GameConfigView,
    state: GameState,
    raffle: RaffleView,
    contract_address: Seq<char>,
    funds: Seq<CoinView>,
    winner: Option<Seq<char>>,
    new_raffle_cw721_id: Option<Seq<char>>,
    new_raffle_cw721_addr: Option<Seq<char>>,
) -> Result<ProcessRaffleWinnerResponseView, ContractError> {
    if denom_total(funds, config.game_denom) > u128::MAX {
        Err(ContractError::OverflowError)
    } else {
        let sent = denom_total(funds, config.game_denom) as u128;
        match winner {
            Some(recipient) => {
                if raffle.cw721_token_id is Some && raffle.cw721_addr is None {
                    Err(ContractError::InvalidRaffleNft)
                } else {
                    match raffle_prize_amounts(
                        config.decay_factor,
                        state.extend_count,
                        raffle.denom_amount,
                    ) {
                        Err(e) => Err(e),
                        Ok((prize_to_distribute, prize_to_treasury)) => Ok(
                            ProcessRaffleWinnerResponseView {
                                msgs: prize_messages(
                                    recipient,
                                    config.fee_address,
                                    config.game_denom,
                                    prize_to_distribute,
                                    prize_to_treasury,
                                ),
                                submsgs: token_transfer(
                                    raffle.cw721_token_id,
                                    raffle.cw721_addr,
                                    recipient,
                                ) + token_transfer(
                                    new_raffle_cw721_id,
                                    new_raffle_cw721_addr,
                                    contract_address,
                                ),
                                attributes: raffle_attributes(
                                    raffle,
                                    recipient,
                                    config.fee_address,
                                    prize_to_distribute,
                                    prize_to_treasury,
                                ),
                                raffle_winner: Some(recipient),
                                new_raffle_denom_amount: sent,
                                new_raffle_cw721_id,
                                new_raffle_cw721_addr,
                            },
                        ),
                    }
                }
            },
            None => {
                if raffle.cw721_token_id is Some && new_raffle_cw721_id is Some {
                    Err(ContractError::InvalidRaffleNft)
                } else if sent + raffle.denom_amount > u128::MAX {
                    Err(ContractError::OverflowError)
                } else {
                    let id = if raffle.cw721_token_id is Some {
                        raffle.cw721_token_id
                    } else {
                        new_raffle_cw721_id
                    };
                    let addr = if raffle.cw721_token_id is Some {
                        raffle.cw721_addr
                    } else {
                        new_raffle_cw721_addr
                    };
                    Ok(
                        ProcessRaffleWinnerResponseView {
                            msgs: Seq::empty(),
                            submsgs: token_transfer(id, addr, contract_address),
                            attributes: Seq::empty(),
                            raffle_winner: None,
                            new_raffle_denom_amount: (sent + raffle.denom_amount) as u128,
                            new_raffle_cw721_id: id,
                            new_raffle_cw721_addr: addr,
                        },
                    )
                }
            },
        }
    }
}

/// Appends the hand-over of a token to `recipient`, where token and collection are given.
fn push_token_transfer(
    submsgs: &mut Vec<TransferNft>,
    token_id: &Option<String>,
    collection: &Option<String>,
    recipient: &String,
)
    ensures
        final(submsgs).deep_view() == old(submsgs).deep_view() + token_transfer(
            token_id.deep_view(),
            collection.deep_view(),
            recipient@,
        ),
{
    let ghost before = submsgs.deep_view();
    match (token_id, collection) {
        (Some(id), Some(addr)) => {
            submsgs.push(
                TransferNft {
                    contract_addr: addr.clone(),
                    recipient: recipient.clone(),
                    token_id: id.clone(),
                },
            );
            assert(submsgs.deep_view() =~= before + token_transfer(
                token_id.deep_view(),
                collection.deep_view(),
                recipient@,
            ));
        },
        _ => {
            assert(submsgs.deep_view() =~= before + token_transfer(
                token_id.deep_view(),
                collection.deep_view(),
                recipient@,
            ));
        },
    }
}

/// Settles the raffle for the given winner.
///
/// The result is what [`raffle_settlement`] describes, on the views of the arguments.
pub fn settle_raffle(
    config: &GameConfig,
    state: &GameState,
    raffle: &Raffle,
    contract_address: &String,
    funds: &Vec<Coin>,
    raffle_winner: Option<String>,
    new_raffle_cw721_id: Option<String>,
    new_raffle_cw721_addr: Option<String>,
) -> (r: Result<ProcessRaffleWinnerResponse, ContractError>)
    ensures
        match raffle_settlement(
            config@,
            *state,
            raffle@,
            contract_address@,
            funds.deep_view(),
            raffle_winner.deep_view(),
            new_raffle_cw721_id.deep_view(),
            new_raffle_cw721_addr.deep_view(),
        ) {
            Ok(outcome) => r is Ok && r->Ok_0@ == outcome,
            Err(e) => r == Err::<ProcessRaffleWinnerResponse, ContractError>(e),
        },
{
    let sent: u128 = match validate_funds(funds, &config.game_denom) {
        Ok(amount) => amount,
        Err(ContractError::OverflowError) => {
            return Err(ContractError::OverflowError);
        },
        Err(_) => 0,
    };
    let mut msgs: Vec<BankSend> = Vec::new();
    let mut submsgs: Vec<TransferNft> = Vec::new();
    let mut attributes: Vec<Attribute> = Vec::new();
    match raffle_winner {
        Some(recipient) => {
            if raffle.cw721_token_id.is_some() && raffle.cw721_addr.is_none() {
                return Err(ContractError::InvalidRaffleNft);
            }
            let (prize_to_distribute, prize_to_treasury) = match get_raffle_denom_prize_amounts(
                config,
                state,
                raffle,
            ) {
                Ok(amounts) => amounts,
                Err(e) => {
                    return Err(e);
                },
            };
            push_token_transfer(&mut submsgs, &raffle.cw721_token_id, &raffle.cw721_addr, &recipient);
            match (&raffle.cw721_token_id, &raffle.cw721_addr) {
                (Some(token_id), Some(cw721_addr)) => {
                    attributes.push(attr("raffle_winner", &recipient));
                    attributes.push(attr("raffle_outgoing_nft_addr", cw721_addr));
                    attributes.push(attr("raffle_outgoing_nft_id", token_id));
                },
                _ => {},
            }
            if prize_to_distribute != 0 {
                msgs.push(
                    BankSend {
                        to_address: recipient.clone(),
                        denom: config.game_denom.clone(),
                        amount: prize_to_distribute,
                    },
                );
                attributes.push(attr("raffle_outgoing_tokens_winner", &recipient));
            }
            let ghost to_winner = msgs.deep_view();
            let mut to_treasury: Vec<BankSend> = create_fee_message(config, prize_to_treasury);
            let ghost treasury_part = to_treasury.deep_view();
            msgs.append(&mut to_treasury);
            assert(msgs.deep_view() =~= to_winner + treasury_part);
            if prize_to_treasury != 0 {
                attributes.push(attr("raffle_outgoing_tokens_treasury", &config.fee_address));
            }
            assert(attributes.deep_view() =~= raffle_attributes(
                raffle@,
                recipient@,
                config@.fee_address,
                prize_to_distribute,
                prize_to_treasury,
            ));
            push_token_transfer(
                &mut submsgs,
                &new_raffle_cw721_id,
                &new_raffle_cw721_addr,
                contract_address,
            );
            proof {
                assert(msgs.deep_view() =~= prize_messages(
                    recipient@,
                    config@.fee_address,
                    config@.game_denom,
                    prize_to_distribute,
                    prize_to_treasury,
                ));
                assert(submsgs.deep_view() =~= token_transfer(
                    raffle@.cw721_token_id,
                    raffle@.cw721_addr,
                    recipient@,
                ) + token_transfer(
                    new_raffle_cw721_id.deep_view(),
                    new_raffle_cw721_addr.deep_view(),
                    contract_address@,
                ));
            }
            Ok(
                ProcessRaffleWinnerResponse {
                    msgs,
                    submsgs,
                    attributes,
                    raffle_winner: Some(recipient),
                    new_raffle_denom_amount: sent,
                    new_raffle_cw721_id,
                    new_raffle_cw721_addr,
                },
            )
        },
        None => {
            if raffle.cw721_token_id.is_some() && new_raffle_cw721_id.is_some() {
                return Err(ContractError::InvalidRaffleNft);
            }
            let new_raffle_denom_amount: u128 = match sent.checked_add(raffle.denom_amount) {
                Some(a) => a,
                None => {
                    return Err(ContractError::OverflowError);
                },
            };
            let (id, addr) = if raffle.cw721_token_id.is_some() {
                (clone_text(&raffle.cw721_token_id), clone_text(&raffle.cw721_addr))
            } else {
                (new_raffle_cw721_id, new_raffle_cw721_addr)
            };
            push_token_transfer(&mut submsgs, &id, &addr, contract_address);
            proof {
                assert(attributes.deep_view() =~= Seq::<AttributeView>::empty());
                assert(msgs.deep_view() =~= Seq::<BankSendView>::empty());
                assert(submsgs.deep_view() =~= token_transfer(
                    id.deep_view(),
                    addr.deep_view(),
                    contract_address@,
                ));
            }
            Ok(
                ProcessRaffleWinnerResponse {
                    msgs,
                    submsgs,
                    attributes,
                    raffle_winner: None,
                    new_raffle_denom_amount,
                    new_raffle_cw721_id: id,
                    new_raffle_cw721_addr: addr,
                },
            )
        },
    }
}

/// Selects the raffle winner and settles the raffle.
///
/// Fails with `OverflowError` when some player's stake over the winning pots is no 128-bit
/// amount; otherwise the result is what [`raffle_settlement`] describes for the winner
/// that [`raffle_winner`] names.
pub fn process_raffle_winner(
    config: &GameConfig,
    state: &GameState,
    raffle: &Raffle,
    players: &Vec<PlayerAllocations>,
    first_bidders: &[Option<FirstBidder>; 5],
    contract_address: &String,
    funds: &Vec<Coin>,
    winning_pots: &Vec<u8>,
    new_raffle_cw721_id: Option<String>,
    new_raffle_cw721_addr: Option<String>,
) -> (r: Result<ProcessRaffleWinnerResponse, ContractError>)
    ensures
        match raffle_outcome(
            config@,
            *state,
            raffle@,
            players.deep_view(),
            first_bidders.deep_view(),
            contract_address@,
            funds.deep_view(),
            winning_pots@,
            new_raffle_cw721_id.deep_view(),
            new_raffle_cw721_addr.deep_view(),
        ) {
            Ok(outcome) => r is Ok && r->Ok_0@ == outcome,
            Err(e) => r == Err::<ProcessRaffleWinnerResponse, ContractError>(e),
        },
{
    let winner: Option<String> = match get_raffle_winner(players, first_bidders, winning_pots) {
        Ok(w) => w,
        Err(e) => {
            return Err(e);
        },
    };
    settle_raffle(
        config,
        state,
        raffle,
        contract_address,
        funds,
        winner,
        new_raffle_cw721_id,
        new_raffle_cw721_addr,
    )
}

/// What selecting the winner and settling the raffle yields.
pub open spec fn raffle_outcome(
    config: GameConfigView,
    state: GameState,
    raffle: RaffleView,
    players: Seq<PlayerAllocationsView>,
    first_bidders: Seq<Option<FirstBidderView>>,
    contract_address: Seq<char>,
    funds: Seq<CoinView>,
    winning_pots: Seq<u8>,
    new_raffle_cw721_id: Option<Seq<char>>,
    new_raffle_cw721_addr: Option<Seq<char>>,
) -> Result<ProcessRaffleWinnerResponseView, ContractError> {
    if stake_overflows(players, winning_pots) {
        Err(ContractError::OverflowError)
    } else {
        raffle_settlement(
            config,
            state,
            raffle,
            contract_address,
            funds,
            raffle_winner(players, first_bidders, winning_pots),
            new_raffle_cw721_id,
            new_raffle_cw721_addr,
        )
    }
}

/// The state in which the next round starts.
///
/// The round starts at `next_game_start`, or one second after `now`, and lasts the
/// configured duration. All stakes, reallocation counters and first depositors are
/// forgotten. What is left of `contract_balance` after `total_outgoing_tokens` and the
/// amount reserved for the raffle is split evenly over the five pots, rounding down.
///
/// There is no next round when a time leaves the 64-bit range (`OverflowError`), when the
/// round would end no later than it starts or the round counter is exhausted
/// (`InvalidInput`), when the balance does not cover what goes out and what is reserved
/// (`OverflowError`), or when the seed of a pot is below the configured minimum
/// (`NotEnoughFundsForNextRound`).
pub open spec fn next_game(
    game: GameView,
    now: u64,
    contract_balance: u128,
    total_outgoing_tokens: u128,
    raffle_cw721_token_id: Option<Seq<char>>,
    raffle_cw721_addr: Option<Seq<char>>,
    raffle_denom_amount: Option<u128>,
    next_game_start: Option<u64>,
) -> Result<GameView, ContractError> {
    let start = match next_game_start {
        Some(t) => t as int,
        None => now + 1,
    };
    let end = start + game.config.game_duration;
    let reserved = match raffle_denom_amount {
        Some(a) => a,
        None => 0,
    };
    if end > u64::MAX {
        Err(ContractError::OverflowError)
    } else if start >= end {
        Err(ContractError::InvalidInput)
    } else if game.state.round_count + 1 > u64::MAX {
        Err(ContractError::InvalidInput)
    } else if contract_balance < total_outgoing_tokens + reserved {
        Err(ContractError::OverflowError)
    } else {
        match pot_initial_amount(
            game.config.min_pot_initial_allocation,
            (contract_balance - total_outgoing_tokens - reserved) as u128,
        ) {
            Err(e) => Err(e),
            Ok(seed) => Ok(
                GameView {
                    config: game.config,
                    state: GameState {
                        round_count: (game.state.round_count + 1) as u64,
                        extend_count: 0,
                        start_time: start as u64,
                        end_time: end as u64,
                    },
                    pots: Seq::new(5, |i: int| seed),
                    players: Seq::empty(),
                    reallocations: Seq::empty(),
                    first_bidders: Seq::new(5, |i: int| None),
                    reallocation_fee_pool: game.reallocation_fee_pool,
                    raffle: RaffleView {
                        cw721_token_id: raffle_cw721_token_id,
                        cw721_addr: raffle_cw721_addr,
                        denom_amount: reserved,
                    },
                },
            ),
        }
    }
}

/// Resets the game for the next round.
///
/// On success the game is what [`next_game`] describes, and the result holds the number of
/// the round that ended, the number of the round that starts, and the extensions of the
/// round that ended. On failure nothing changes.
pub fn prepare_next_game(
    game: &mut Game,
    now: u64,
    contract_balance: u128,
    total_outgoing_tokens: u128,
    raffle_cw721_token_id: Option<String>,
    raffle_cw721_addr: Option<String>,
    raffle_denom_amount: Option<u128>,
    next_game_start: Option<u64>,
) -> (r: Result<(u64, u64, u32), ContractError>)
    ensures
        match next_game(
            old(game)@,
            now,
            contract_balance,
            total_outgoing_tokens,
            raffle_cw721_token_id.deep_view(),
            raffle_cw721_addr.deep_view(),
            raffle_denom_amount,
            next_game_start,
        ) {
            Ok(next) => final(game)@ == next && r == Ok::<(u64, u64, u32), ContractError>(
                (old(game).state.round_count, next.state.round_count, old(game).state.extend_count),
            ),
            Err(e) => r == Err::<(u64, u64, u32), ContractError>(e) && *final(game) == *old(game),
        },
{
    let next_game_start: u64 = match next_game_start {
        Some(t) => t,
        None => match now.checked_add(1) {
            Some(t) => t,
            None => {
                return Err(ContractError::OverflowError);
            },
        },
    };
    let next_game_end: u64 = match next_game_start.checked_add(game.config.game_duration) {
        Some(t) => t,
        None => {
            return Err(ContractError::OverflowError);
        },
    };
    if next_game_start >= next_game_end {
        return Err(ContractError::InvalidInput);
    }
    let new_round_count: u64 = match game.state.round_count.checked_add(1) {
        Some(c) => c,
        None => {
            return Err(ContractError::InvalidInput);
        },
    };
    let reserved: u128 = match raffle_denom_amount {
        Some(a) => a,
        None => 0,
    };
    let after_payouts: u128 = match contract_balance.checked_sub(total_outgoing_tokens) {
        Some(b) => b,
        None => {
            return Err(ContractError::OverflowError);
        },
    };
    let net_contract_balance: u128 = match after_payouts.checked_sub(reserved) {
        Some(b) => b,
        None => {
            return Err(ContractError::OverflowError);
        },
    };
    let initial_tokens_per_pot: u128 = match validate_pot_initial_amount(
        game.config.min_pot_initial_allocation,
        net_contract_balance,
    ) {
        Ok(seed) => seed,
        Err(e) => {
            return Err(e);
        },
    };
    let old_round_count: u64 = game.state.round_count;
    let old_extend_count: u32 = game.state.extend_count;
    game.state = GameState {
        round_count: new_round_count,
        extend_count: 0,
        start_time: next_game_start,
        end_time: next_game_end,
    };
    game.players = Vec::new();
    game.reallocations = Vec::new();
    game.first_bidders = [None, None, None, None, None];
    game.pots = [
        initial_tokens_per_pot,
        initial_tokens_per_pot,
        initial_tokens_per_pot,
        initial_tokens_per_pot,
        initial_tokens_per_pot,
    ];
    game.raffle = Raffle {
        cw721_token_id: raffle_cw721_token_id,
        cw721_addr: raffle_cw721_addr,
        denom_amount: reserved,
    };
    proof {
        let next = next_game(
            old(game)@,
            now,
            contract_balance,
            total_outgoing_tokens,
            raffle_cw721_token_id.deep_view(),
            raffle_cw721_addr.deep_view(),
            raffle_denom_amount,
            Some(next_game_start),
        )->Ok_0;
        assert(game@.pots =~= next.pots);
        assert(game@.players =~= next.players);
        assert(game@.reallocations =~= next.reallocations);
        assert(game@.first_bidders =~= next.first_bidders);
    }
    Ok((old_round_count, new_round_count, old_extend_count))
}

} // verus!
