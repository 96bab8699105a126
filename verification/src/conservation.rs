//! Conservation at settlement: nothing is paid out that the ledger did not account for.

use vstd::prelude::*;
use crate::execute::game_ended;
use crate::helpers::game_end::{
    distribution, lemma_losing_upto_monotonic, lemma_payment_total, lemma_staked_total_monotonic,
    lemma_treasury_in_payments, losing_total, losing_upto, payment, player_payouts, pot_payouts,
    pot_qualifies, prize_messages, raffle_outcome, raffle_prize_amounts, raffle_settlement,
    record_payouts, settlement, staked_total, Settlement,
};
use crate::helpers::pot::{pot_wins, winners_upto, winning_pots};
use crate::helpers::validate::{denom_total, lemma_denom_total_prefix};
use crate::math::mul_div;
use crate::msg::{lemma_sent_total_add, lemma_sent_total_nonnegative, sent_total, BankSendView};
use crate::state::{
    custody, lemma_pot_stake_prefix, lemma_stake_in_prefix, pot_stake, pots_total, stake_in,
    CoinView, GameConfigView, GameState, GameView, PlayerAllocationsView, RaffleView,
    TokenAllocation,
};

verus! {

/// A quotient rounded down, multiplied back, does not exceed the dividend.
pub proof fn lemma_mul_div_floor(value: int, part: int, whole: int)
    requires
        0 <= value,
        0 <= part,
        0 < whole,
    ensures
        0 <= mul_div(value, part, whole),
        mul_div(value, part, whole) * whole <= value * part,
{
    assert(0 <= value * part) by (nonlinear_arith)
        requires
            0 <= value,
            0 <= part,
    ;
    let x = value * part;
    assert(0 <= x / whole && (x / whole) * whole <= x) by (nonlinear_arith)
        requires
            0 <= x,
            0 < whole,
    ;
}

/// The payouts for one player's records, multiplied by the stakes of the pot, do not exceed
/// the net amount multiplied by what the records hold in the pot.
pub proof fn lemma_record_payouts_bound(
    name: Seq<char>,
    denom: Seq<char>,
    allocations: Seq<TokenAllocation>,
    pot_id: u8,
    net: u128,
    total_stake: u128,
)
    requires
        0 < total_stake,
        stake_in(allocations, pot_id) <= total_stake,
    ensures
        sent_total(record_payouts(name, denom, allocations, pot_id, net, total_stake))
            * total_stake <= net * stake_in(allocations, pot_id),
    decreases allocations.len(),
{
    if allocations.len() == 0 {
        assert(net * 0 == 0) by (nonlinear_arith);
    } else {
        let before = allocations.drop_last();
        let last = allocations.last();
        lemma_stake_in_prefix(before, pot_id, 0);
        lemma_record_payouts_bound(name, denom, before, pot_id, net, total_stake);
        let sb = sent_total(record_payouts(name, denom, before, pot_id, net, total_stake));
        let hb = stake_in(before, pot_id);
        if last.pot_id == pot_id && last.amount != 0 {
            let share = mul_div(net as int, last.amount as int, total_stake as int);
            lemma_mul_div_floor(net as int, last.amount as int, total_stake as int);
            crate::math::lemma_mul_div_le(net as int, last.amount as int, total_stake as int);
            let all = record_payouts(name, denom, allocations, pot_id, net, total_stake);
            assert(all.drop_last() =~= record_payouts(
                name,
                denom,
                before,
                pot_id,
                net,
                total_stake,
            ));
            assert(all.last().amount == share);
            assert((sb + share) * total_stake <= net * (hb + last.amount)) by (nonlinear_arith)
                requires
                    sb * total_stake <= net * hb,
                    share * total_stake <= net * last.amount,
            ;
        } else if last.pot_id == pot_id {
            assert(last.amount == 0);
        }
    }
}

/// The payouts for a pot, multiplied by the stakes of the pot, do not exceed the net amount
/// multiplied by what the players hold in the pot.
pub proof fn lemma_player_payouts_bound(
    players: Seq<PlayerAllocationsView>,
    denom: Seq<char>,
    pot_id: u8,
    net: u128,
    total_stake: u128,
)
    requires
        0 < total_stake,
        pot_stake(players, pot_id) <= total_stake,
    ensures
        sent_total(player_payouts(players, denom, pot_id, net, total_stake)) * total_stake <= net
            * pot_stake(players, pot_id),
    decreases players.len(),
{
    if players.len() == 0 {
        assert(net * 0 == 0) by (nonlinear_arith);
    } else {
        let before = players.drop_last();
        let last = players.last();
        lemma_pot_stake_prefix(before, pot_id, 0);
        lemma_stake_in_prefix(last.allocations, pot_id, 0);
        lemma_player_payouts_bound(before, denom, pot_id, net, total_stake);
        lemma_record_payouts_bound(last.player, denom, last.allocations, pot_id, net, total_stake);
        let a = player_payouts(before, denom, pot_id, net, total_stake);
        let b = record_payouts(last.player, denom, last.allocations, pot_id, net, total_stake);
        lemma_sent_total_add(a, b);
        let sa = sent_total(a);
        let sb = sent_total(b);
        let ha = pot_stake(before, pot_id);
        let hb = stake_in(last.allocations, pot_id);
        assert((sa + sb) * total_stake <= net * (ha + hb)) by (nonlinear_arith)
            requires
                sa * total_stake <= net * ha,
                sb * total_stake <= net * hb,
        ;
    }
}

/// The players of a pot are paid no more than the net amount of the pot.
pub proof fn lemma_pot_payouts_bound(
    players: Seq<PlayerAllocationsView>,
    denom: Seq<char>,
    pot_id: u8,
    net: u128,
)
    requires
        pot_stake(players, pot_id) <= u128::MAX,
    ensures
        0 <= sent_total(pot_payouts(players, denom, pot_id, net)) <= net,
{
    let paid = pot_payouts(players, denom, pot_id, net);
    lemma_sent_total_nonnegative(paid);
    if pot_stake(players, pot_id) > 0 {
        let total_stake = pot_stake(players, pot_id) as u128;
        lemma_player_payouts_bound(players, denom, pot_id, net, total_stake);
        let s = sent_total(paid);
        assert(s <= net) by (nonlinear_arith)
            requires
                s * total_stake <= net * total_stake,
                0 < total_stake,
        ;
    }
}

/// The sum of the amounts of the first `k` winning pots that take part in the payout.
pub open spec fn winning_amounts(
    pots: Seq<u128>,
    players: Seq<PlayerAllocationsView>,
    winning_pots: Seq<u8>,
    k: int,
) -> int
    decreases k,
{
    if k <= 0 {
        0
    } else {
        winning_amounts(pots, players, winning_pots, k - 1) + if pot_qualifies(
            players,
            winning_pots[k - 1],
        ) {
            pots[winning_pots[k - 1] - 1] as int
        } else {
            0
        }
    }
}

impl Settlement {
    /// The sum of the shares of the first `k` winning pots.
    pub open spec fn shares_total(self, k: int) -> int
        decreases k,
    {
        if k <= 0 {
            0
        } else {
            self.shares_total(k - 1) + if pot_qualifies(self.players, self.winning_pots[k - 1]) {
                self.pot_share(self.winning_pots[k - 1])
            } else {
                0
            }
        }
    }

    /// The sum of what the first `k` winning pots pay out before the fee.
    pub open spec fn gross_total(self, k: int) -> int
        decreases k,
    {
        if k <= 0 {
            0
        } else {
            self.gross_total(k - 1) + if pot_qualifies(self.players, self.winning_pots[k - 1]) {
                self.pot_payout_total(self.winning_pots[k - 1])
            } else {
                0
            }
        }
    }

    /// The shares of the winning pots do not exceed the distribution amount.
    pub proof fn lemma_shares_total_bound(self, k: int)
        requires
            0 <= k <= self.winning_pots.len(),
        ensures
            0 <= self.shares_total(k),
            self.shares_total(k) * self.total_winning_stake() <= self.distribution_amount()
                * staked_total(self.players, self.winning_pots, k),
            self.shares_total(k) <= self.distribution_amount(),
        decreases k,
    {
        let w = self.total_winning_stake();
        let d = self.distribution_amount();
        lemma_staked_total_monotonic(self.players, self.winning_pots, 0, k);
        lemma_staked_total_monotonic(
            self.players,
            self.winning_pots,
            k,
            self.winning_pots.len() as int,
        );
        if k <= 0 {
            assert(d * 0 == 0) by (nonlinear_arith);
            assert(0 * w == 0) by (nonlinear_arith);
        } else {
            self.lemma_shares_total_bound(k - 1);
            let before = self.shares_total(k - 1);
            let wb = staked_total(self.players, self.winning_pots, k - 1);
            if pot_qualifies(self.players, self.winning_pots[k - 1]) {
                self.lemma_qualifying_pot(k - 1);
                let a = pot_stake(self.players, self.winning_pots[k - 1]);
                let share = self.pot_share(self.winning_pots[k - 1]);
                lemma_mul_div_floor(d, a, w);
                assert((before + share) * w <= d * (wb + a)) by (nonlinear_arith)
                    requires
                        before * w <= d * wb,
                        share * w <= d * a,
                ;
            }
            let wk = staked_total(self.players, self.winning_pots, k);
            let s = self.shares_total(k);
            if w > 0 {
                assert(s <= d) by (nonlinear_arith)
                    requires
                        s * w <= d * wk,
                        0 <= wk <= w,
                        0 < w,
                        0 <= d,
                ;
            }
        }
    }

    /// What the winning pots pay out before the fee is their shares and their own amounts.
    pub proof fn lemma_gross_total(self, k: int)
        requires
            0 <= k <= self.winning_pots.len(),
        ensures
            self.gross_total(k) == self.shares_total(k) + winning_amounts(
                self.pots,
                self.players,
                self.winning_pots,
                k,
            ),
        decreases k,
    {
        if k > 0 {
            self.lemma_gross_total(k - 1);
        }
    }

    /// The players and the fees of the winning pots get no more than the pots pay out.
    pub proof fn lemma_payouts_bound(self, denom: Seq<char>, k: int)
        requires
            0 <= k <= self.winning_pots.len(),
            self.total_winning_stake() <= u128::MAX,
            forall|j: int|
                0 <= j < k && pot_qualifies(self.players, #[trigger] self.winning_pots[j])
                    ==> self.pot_fits(self.winning_pots[j]),
        ensures
            0 <= sent_total(self.payouts(denom, k)),
            sent_total(self.payouts(denom, k)) + self.fee_total(k) <= self.gross_total(k),
        decreases k,
    {
        lemma_sent_total_nonnegative(self.payouts(denom, k));
        if k > 0 {
            self.lemma_payouts_bound(denom, k - 1);
            let pot_id = self.winning_pots[k - 1];
            if pot_qualifies(self.players, pot_id) {
                self.lemma_qualifying_pot(k - 1);
                assert(self.pot_fits(self.winning_pots[k - 1]));
                let net = self.pot_net(pot_id) as u128;
                lemma_pot_payouts_bound(self.players, denom, pot_id, net);
                lemma_sent_total_add(
                    self.payouts(denom, k - 1),
                    pot_payouts(self.players, denom, pot_id, net),
                );
            } else {
                assert(self.payouts(denom, k - 1) + Seq::<BankSendView>::empty()
                    =~= self.payouts(denom, k - 1));
            }
        }
    }
}

/// The sum of the first `n` pots that win with a stake.
pub open spec fn qualifying_upto(pots: Seq<u128>, players: Seq<PlayerAllocationsView>, n: u8) -> int
    decreases n,
{
    if n == 0 {
        0
    } else {
        qualifying_upto(pots, players, (n - 1) as u8) + if pot_wins(pots, n) && pot_qualifies(players, n) {
            pots[n - 1] as int
        } else {
            0
        }
    }
}

/// The sum of the winning amounts counts the first `k` winning pots only.
pub proof fn lemma_winning_amounts_prefix(
    pots: Seq<u128>,
    players: Seq<PlayerAllocationsView>,
    a: Seq<u8>,
    b: Seq<u8>,
    k: int,
)
    requires
        0 <= k <= a.len(),
        k <= b.len(),
        forall|j: int| 0 <= j < k ==> a[j] == b[j],
    ensures
        winning_amounts(pots, players, a, k) == winning_amounts(pots, players, b, k),
    decreases k,
{
    if k > 0 {
        lemma_winning_amounts_prefix(pots, players, a, b, k - 1);
    }
}

/// The winning pots among the first `n` are the pots up to `n` that satisfy their rule.
pub proof fn lemma_winners_upto(pots: Seq<u128>, n: u8, p: u8)
    requires
        n <= 5,
    ensures
        winners_upto(pots, n).contains(p) <==> 1 <= p <= n && pot_wins(pots, p),
        winners_upto(pots, n).len() <= n,
    decreases n,
{
    if n > 0 {
        lemma_winners_upto(pots, (n - 1) as u8, p);
        let before = winners_upto(pots, (n - 1) as u8);
        if pot_wins(pots, n) {
            let all = before.push(n);
            assert(all.last() == n);
            if before.contains(p) {
                let i = choose|i: int| 0 <= i < before.len() && before[i] == p;
                assert(all[i] == p);
            }
            if all.contains(p) {
                let i = choose|i: int| 0 <= i < all.len() && all[i] == p;
                if i < before.len() {
                    assert(before[i] == p);
                }
            }
        }
    }
}

/// The winning amounts of the winning pots sum to the pots that win with a stake.
pub proof fn lemma_winning_amounts_of_winners(
    pots: Seq<u128>,
    players: Seq<PlayerAllocationsView>,
    n: u8,
)
    requires
        n <= 5,
    ensures
        winning_amounts(pots, players, winners_upto(pots, n), winners_upto(pots, n).len() as int)
            == qualifying_upto(pots, players, n),
    decreases n,
{
    if n > 0 {
        lemma_winning_amounts_of_winners(pots, players, (n - 1) as u8);
        let before = winners_upto(pots, (n - 1) as u8);
        if pot_wins(pots, n) {
            let all = before.push(n);
            lemma_winning_amounts_prefix(pots, players, all, before, before.len() as int);
            assert(all[all.len() - 1] == n);
        }
    }
}

/// A pot either counts as losing or wins with a stake, never both: the losing total and the
/// winning amounts together do not exceed the sum of the pots.
pub proof fn lemma_losing_and_winning(pots: Seq<u128>, players: Seq<PlayerAllocationsView>, n: u8)
    requires
        pots.len() == 5,
        n <= 5,
    ensures
        0 <= losing_upto(pots, players, winning_pots(pots), n),
        0 <= qualifying_upto(pots, players, n),
        losing_upto(pots, players, winning_pots(pots), n) + qualifying_upto(pots, players, n)
            <= pots_total(pots.take(n as int)),
    decreases n,
{
    if n == 0 {
        assert(pots.take(0).len() == 0);
    } else {
        lemma_losing_and_winning(pots, players, (n - 1) as u8);
        lemma_winners_upto(pots, 5, n);
        assert(pots.take(n as int).drop_last() =~= pots.take(n - 1));
        assert(pots.take(n as int).last() == pots[n - 1]);
    }
}

/// The payments of the raffle amount sum to what is paid to winner and treasury.
pub proof fn lemma_prize_messages_total(
    recipient: Seq<char>,
    fee_address: Seq<char>,
    denom: Seq<char>,
    prize_to_distribute: u128,
    prize_to_treasury: u128,
)
    ensures
        sent_total(
            prize_messages(recipient, fee_address, denom, prize_to_distribute, prize_to_treasury),
        ) == prize_to_distribute + prize_to_treasury,
{
    lemma_sent_total_add(
        payment(recipient, denom, prize_to_distribute),
        payment(fee_address, denom, prize_to_treasury),
    );
    lemma_payment_total(recipient, denom, prize_to_distribute);
    lemma_payment_total(fee_address, denom, prize_to_treasury);
}

/// Conservation, for the raffle: what the raffle pays out and what it reserves for the next
/// round is exactly what it held and what the caller sent.
pub proof fn law_raffle_conserves(
    config: GameConfigView,
    state: GameState,
    raffle: RaffleView,
    contract_address: Seq<char>,
    funds: Seq<CoinView>,
    winner: Option<Seq<char>>,
    new_raffle_cw721_id: Option<Seq<char>>,
    new_raffle_cw721_addr: Option<Seq<char>>,
)
    requires
        raffle_settlement(
            config,
            state,
            raffle,
            contract_address,
            funds,
            winner,
            new_raffle_cw721_id,
            new_raffle_cw721_addr,
        ) is Ok,
    ensures
        ({
            let outcome = raffle_settlement(
                config,
                state,
                raffle,
                contract_address,
                funds,
                winner,
                new_raffle_cw721_id,
                new_raffle_cw721_addr,
            )->Ok_0;
            sent_total(outcome.msgs) + outcome.new_raffle_denom_amount == raffle.denom_amount
                + denom_total(funds, config.game_denom)
        }),
{
    lemma_denom_total_prefix(funds, config.game_denom, 0);
    match winner {
        Some(recipient) => {
            let (d, t) = raffle_prize_amounts(
                config.decay_factor,
                state.extend_count,
                raffle.denom_amount,
            )->Ok_0;
            lemma_prize_messages_total(recipient, config.fee_address, config.game_denom, d, t);
        },
        None => {},
    }
}

/// Conservation, for the payouts of a settlement: the players of the winning pots and the
/// treasury together get no more than the pots and the fee pool hold.
pub proof fn law_distribution_pays_from_the_pots(
    config: GameConfigView,
    pots: Seq<u128>,
    players: Seq<PlayerAllocationsView>,
    reallocation_fee_pool: u128,
)
    requires
        pots.len() == 5,
        losing_total(pots, players, winning_pots(pots)) <= u128::MAX,
        distribution(
            config,
            pots,
            players,
            reallocation_fee_pool,
            winning_pots(pots),
            losing_total(pots, players, winning_pots(pots)) as u128,
        ) is Ok,
    ensures
        ({
            let (payments, treasury) = distribution(
                config,
                pots,
                players,
                reallocation_fee_pool,
                winning_pots(pots),
                losing_total(pots, players, winning_pots(pots)) as u128,
            )->Ok_0;
            &&& 0 <= treasury <= sent_total(payments)
            &&& sent_total(payments) <= pots_total(pots) + reallocation_fee_pool
        }),
{
    let winners = winning_pots(pots);
    let losing = losing_total(pots, players, winners);
    lemma_losing_upto_monotonic(pots, players, winners, 0, 5);
    let s = settlement(config, pots, players, winners, losing as u128);
    let n = winners.len() as int;
    s.lemma_fee_total_monotonic(0, n);
    s.lemma_payouts_bound(config.game_denom, n);
    s.lemma_gross_total(n);
    s.lemma_shares_total_bound(n);
    lemma_winning_amounts_of_winners(pots, players, 5);
    lemma_losing_and_winning(pots, players, 5);
    assert(pots.take(5) =~= pots);
    lemma_treasury_in_payments(
        s.payouts(config.game_denom, n),
        config.fee_address,
        config.game_denom,
        reallocation_fee_pool,
        s.fee_total(n) as u128,
    );
}

/// Conservation, for a settlement: what goes out and what is reserved for the next raffle
/// does not exceed what the ledger accounted for and what the caller sent. So a balance
/// that covers the ledger and the funds of the call covers the settlement.
pub proof fn law_settlement_pays_from_custody(
    game: GameView,
    now: u64,
    caller: Seq<char>,
    contract_admin: Option<Seq<char>>,
    contract_address: Seq<char>,
    contract_balance: u128,
    funds: Seq<CoinView>,
    new_raffle_cw721_id: Option<Seq<char>>,
    new_raffle_cw721_addr: Option<Seq<char>>,
    next_game_start: Option<u64>,
)
    requires
        game.pots.len() == 5,
        game_ended(
            game,
            now,
            caller,
            contract_admin,
            contract_address,
            contract_balance,
            funds,
            new_raffle_cw721_id,
            new_raffle_cw721_addr,
            next_game_start,
        ) is Ok,
    ensures
        ({
            let (next, response) = game_ended(
                game,
                now,
                caller,
                contract_admin,
                contract_address,
                contract_balance,
                funds,
                new_raffle_cw721_id,
                new_raffle_cw721_addr,
                next_game_start,
            )->Ok_0;
            response.total_outgoing_tokens + next.raffle.denom_amount <= custody(game)
                + denom_total(funds, game.config.game_denom)
        }),
{
    let winners = winning_pots(game.pots);
    let raffle = raffle_outcome(
        game.config,
        game.state,
        game.raffle,
        game.players,
        game.first_bidders,
        contract_address,
        funds,
        winners,
        new_raffle_cw721_id,
        new_raffle_cw721_addr,
    )->Ok_0;
    law_raffle_conserves(
        game.config,
        game.state,
        game.raffle,
        contract_address,
        funds,
        crate::helpers::game_end::raffle_winner(game.players, game.first_bidders, winners),
        new_raffle_cw721_id,
        new_raffle_cw721_addr,
    );
    law_distribution_pays_from_the_pots(
        game.config,
        game.pots,
        game.players,
        game.reallocation_fee_pool,
    );
    let losing = losing_total(game.pots, game.players, winners);
    let (payments, treasury) = distribution(
        game.config,
        game.pots,
        game.players,
        game.reallocation_fee_pool,
        winners,
        losing as u128,
    )->Ok_0;
    let (next, response) = game_ended(
        game,
        now,
        caller,
        contract_admin,
        contract_address,
        contract_balance,
        funds,
        new_raffle_cw721_id,
        new_raffle_cw721_addr,
        next_game_start,
    )->Ok_0;
    lemma_sent_total_nonnegative(raffle.msgs);
    lemma_sent_total_nonnegative(payments);
    assert(response.total_outgoing_tokens == sent_total(raffle.msgs) + sent_total(payments));
    assert(next.raffle.denom_amount == raffle.new_raffle_denom_amount);
    assert(sent_total(raffle.msgs) + raffle.new_raffle_denom_amount == game.raffle.denom_amount
        + denom_total(funds, game.config.game_denom));
    assert(sent_total(payments) <= pots_total(game.pots) + game.reallocation_fee_pool);
}

} // verus!
