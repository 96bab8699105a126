//! The actions of the engine: deposit, reallocation, settlement and administration.
//!
//! Every action either succeeds and changes the game as its contract says, or fails and
//! changes nothing.

use vstd::prelude::*;
use crate::error::ContractError;
use crate::helpers::game_end::{
    calculate_total_losing_tokens, distribution, get_distribution_send_msgs,
    lemma_losing_upto_monotonic, lemma_treasury_in_payments, losing_total, next_game,
    prepare_next_game, process_raffle_winner, raffle_outcome, settlement, token_transfer,
};
use crate::helpers::pot::{
    calculate_max_bid, calculate_min_bid, find_player, find_record, first_record, get_winning_pots,
    lemma_first_record, lemma_players_updated_other_pot, max_bid, min_bid, players_updated,
    pots_updated, recorded_amount, records_of, set_first_bidder_if_not_set,
    update_player_allocation, update_pot_state, winning_pots,
};
use crate::helpers::validate::{
    denom_total, extended_state, find_counter, funds_amount, game_time, is_admin, may_end_game,
    pot_limit, reallocations_increased, reallocations_of, validate_and_extend_game_time,
    validate_existing_allocation, validate_funds, validate_game_end_time, validate_game_time,
    validate_increase_player_reallocations, validate_is_contract_admin,
    validate_is_contract_admin_game_end, validate_pot_limit_not_exceeded,
};
use crate::math::{checked_multiply_ratio, ratio};
use crate::msg::{
    lemma_sent_total_add, sent_total, total_sent, AddressValidation, AllocateTokensResponse,
    BankSend, GameEndResponse, GameEndResponseView, ProcessRaffleWinnerResponse,
    ReallocateTokensResponse, TransferNft, UpdateGameConfig, UpdateGameConfigView,
    UpdateNextGameResponse, UpdateNextGameResponseView,
};
use crate::state::{
    custody, lemma_record_in_stake, lemma_stake_in_prefix, stake_in, Coin, CoinView,
    FirstBidderView, Game, GameConfigView, GameState, GameView, RaffleView,
};

verus! {

/// The first depositors after a deposit of `sender` into pot `pot_id` at `now`: the pot
/// keeps the one it has, and gets `sender` where it had none.
pub open spec fn first_bidders_set(
    first_bidders: Seq<Option<FirstBidderView>>,
    pot_id: u8,
    sender: Seq<char>,
    now: u64,
) -> Seq<Option<FirstBidderView>> {
    match first_bidders[pot_id - 1] {
        Some(_) => first_bidders,
        None => first_bidders.update(
            pot_id - 1,
            Some(FirstBidderView { bidder: sender, time: now }),
        ),
    }
}

/// The deposit that `funds` make into pot `pot_id`, if it is accepted at `now`.
///
/// The round must be running. The funds must hold something of the wager denomination. The
/// pot must not outgrow the other four, and the depositor must not hold a stake in it. The
/// amount must lie within the bounds, of which the lower one is discounted for `holdings`.
pub open spec fn accepted_deposit(
    game: GameView,
    now: u64,
    sender: Seq<char>,
    funds: Seq<CoinView>,
    holdings: Seq<u64>,
    pot_id: u8,
) -> Result<u128, ContractError> {
    if game_time(game.state, now) is Err {
        Err(game_time(game.state, now)->Err_0)
    } else if funds_amount(funds, game.config.game_denom) is Err {
        Err(funds_amount(funds, game.config.game_denom)->Err_0)
    } else {
        let amount = funds_amount(funds, game.config.game_denom)->Ok_0;
        if pot_limit(game.pots, pot_id, amount) is Err {
            Err(pot_limit(game.pots, pot_id, amount)->Err_0)
        } else if stake_in(records_of(game.players, sender), pot_id) > 0 {
            Err(ContractError::AlreadyAllocated)
        } else if min_bid(game.config, game.state, now, holdings) is Err {
            Err(min_bid(game.config, game.state, now, holdings)->Err_0)
        } else {
            let lowest = min_bid(game.config, game.state, now, holdings)->Ok_0;
            let undiscounted = min_bid(game.config, game.state, now, Seq::empty())->Ok_0;
            match max_bid(game.pots, undiscounted) {
                Err(e) => Err(e),
                Ok(highest) => if amount < lowest || amount > highest {
                    Err(ContractError::BidOutOfRange { min: lowest, max: highest })
                } else {
                    Ok(amount)
                },
            }
        }
    }
}

/// The game after the deposit, if it is accepted.
///
/// The amount is added to the pot and to the depositor's record for the pot, the depositor
/// becomes the first depositor of the pot where it had none, and a late deposit prolongs
/// the round.
pub open spec fn allocated(
    game: GameView,
    now: u64,
    sender: Seq<char>,
    funds: Seq<CoinView>,
    holdings: Seq<u64>,
    pot_id: u8,
) -> Result<GameView, ContractError> {
    match accepted_deposit(game, now, sender, funds, holdings, pot_id) {
        Err(e) => Err(e),
        Ok(amount) => match extended_state(game.config, game.state, now) {
            Err(e) => Err(e),
            Ok(state) => Ok(
                GameView {
                    state,
                    players: players_updated(game.players, sender, pot_id, amount, true)->Ok_0,
                    pots: pots_updated(game.pots, pot_id, amount, true)->Ok_0,
                    first_bidders: first_bidders_set(game.first_bidders, pot_id, sender, now),
                    ..game
                },
            ),
        },
    }
}

/// Checks a deposit without making it.
fn check_deposit(
    game: &Game,
    now: u64,
    sender: &String,
    funds: &Vec<Coin>,
    holdings: &Vec<u64>,
    pot_id: u8,
) -> (r: Result<u128, ContractError>)
    ensures
        r == accepted_deposit(game@, now, sender@, funds.deep_view(), holdings@, pot_id),
{
    match validate_game_time(&game.state, now) {
        Ok(()) => {},
        Err(e) => {
            return Err(e);
        },
    }
    let amount: u128 = match validate_funds(funds, &game.config.game_denom) {
        Ok(a) => a,
        Err(e) => {
            return Err(e);
        },
    };
    match validate_pot_limit_not_exceeded(&game.pots, pot_id, amount) {
        Ok(()) => {},
        Err(e) => {
            return Err(e);
        },
    }
    match validate_existing_allocation(&game.players, sender, pot_id) {
        Ok(()) => {},
        Err(e) => {
            return Err(e);
        },
    }
    let lowest: u128 = match calculate_min_bid(&game.config, &game.state, now, holdings) {
        Ok(b) => b,
        Err(e) => {
            return Err(e);
        },
    };
    let no_holdings: Vec<u64> = Vec::new();
    let undiscounted_min_bid: u128 = match calculate_min_bid(
        &game.config,
        &game.state,
        now,
        &no_holdings,
    ) {
        Ok(b) => b,
        Err(e) => {
            return Err(e);
        },
    };
    assert(no_holdings@ =~= Seq::<u64>::empty());
    let highest: u128 = match calculate_max_bid(&game.pots, undiscounted_min_bid) {
        Ok(b) => b,
        Err(e) => {
            return Err(e);
        },
    };
    if amount < lowest || amount > highest {
        return Err(ContractError::BidOutOfRange { min: lowest, max: highest });
    }
    Ok(amount)
}

/// Deposits what `funds` hold of the wager denomination into pot `pot_id` for `sender`.
///
/// `holdings` gives, for each collection that grants the discount, how many of its tokens
/// the depositor holds. On success the game is what [`allocated`] describes and the result
/// names the round and the amount; the accounted total has grown by exactly the amount. On
/// failure nothing changes.
pub fn allocate_tokens(
    game: &mut Game,
    now: u64,
    sender: &String,
    funds: &Vec<Coin>,
    holdings: &Vec<u64>,
    pot_id: u8,
) -> (r: Result<AllocateTokensResponse, ContractError>)
    ensures
        match allocated(old(game)@, now, sender@, funds.deep_view(), holdings@, pot_id) {
            Ok(next) => final(game)@ == next && r == Ok::<AllocateTokensResponse, ContractError>(
                AllocateTokensResponse {
                    round_count: old(game).state.round_count,
                    amount: accepted_deposit(
                        old(game)@,
                        now,
                        sender@,
                        funds.deep_view(),
                        holdings@,
                        pot_id,
                    )->Ok_0,
                },
            ),
            Err(e) => r == Err::<AllocateTokensResponse, ContractError>(e) && *final(game) == *old(
                game,
            ),
        },
        r is Ok ==> custody(final(game)@) == custody(old(game)@) + r->Ok_0.amount,
        old(game).wf() ==> final(game).wf(),
{
    let amount: u128 = match check_deposit(game, now, sender, funds, holdings, pot_id) {
        Ok(a) => a,
        Err(e) => {
            return Err(e);
        },
    };
    let mut state: GameState = game.state;
    match validate_and_extend_game_time(&game.config, &mut state, now) {
        Ok(()) => {},
        Err(e) => {
            return Err(e);
        },
    }
    proof {
        let records = records_of(game@.players, sender@);
        lemma_first_record(records, pot_id);
        lemma_stake_in_prefix(records, pot_id, 0);
        if first_record(records, pot_id) < records.len() {
            lemma_record_in_stake(records, pot_id, first_record(records, pot_id));
        }
        assert(players_updated(game@.players, sender@, pot_id, amount, true) is Ok);
        assert(pots_updated(game@.pots, pot_id, amount, true) is Ok);
    }
    let round_count: u64 = game.state.round_count;
    match update_player_allocation(&mut game.players, sender, pot_id, amount, true) {
        Ok(()) => {},
        Err(e) => {
            return Err(e);
        },
    }
    match update_pot_state(&mut game.pots, pot_id, amount, true) {
        Ok(()) => {},
        Err(e) => {
            return Err(e);
        },
    }
    match set_first_bidder_if_not_set(&mut game.first_bidders, pot_id, sender, now) {
        Ok(_) => {},
        Err(e) => {
            return Err(e);
        },
    }
    game.state = state;
    proof {
        let next = allocated(old(game)@, now, sender@, funds.deep_view(), holdings@, pot_id)->Ok_0;
        assert(game@.first_bidders =~= next.first_bidders);
        crate::laws::law_deposit_conserves(
            old(game)@,
            now,
            sender@,
            funds.deep_view(),
            holdings@,
            pot_id,
        );
        if old(game).wf() {
            crate::well_formed::law_deposit_keeps_well_formed(
                old(game)@,
                now,
                sender@,
                funds.deep_view(),
                holdings@,
                pot_id,
            );
        }
    }
    Ok(AllocateTokensResponse { round_count, amount })
}

/// The stake that `sender` may move from pot `from_pot_id` to pot `to_pot_id` at `now`, and
/// the fee on it.
///
/// The two pots must differ, the round must be running, and the player must have
/// reallocations left, no stake in the destination and a stake in the source, in this
/// order. The destination must not outgrow the other four pots. The fee is the configured
/// percentage of the stake, rounded down.
pub open spec fn accepted_reallocation(
    game: GameView,
    now: u64,
    sender: Seq<char>,
    from_pot_id: u8,
    to_pot_id: u8,
) -> Result<(u128, u128), ContractError> {
    let amount = recorded_amount(records_of(game.players, sender), from_pot_id);
    if from_pot_id == to_pot_id {
        Err(ContractError::InvalidPot)
    } else if game_time(game.state, now) is Err {
        Err(game_time(game.state, now)->Err_0)
    } else if reallocations_increased(game.reallocations, game.config.reallocations_limit, sender)
        is Err {
        Err(ContractError::ReallocationsLimitReached)
    } else if stake_in(records_of(game.players, sender), to_pot_id) > 0 {
        Err(ContractError::AlreadyAllocated)
    } else if amount == 0 {
        Err(ContractError::InsufficientFunds)
    } else if pot_limit(game.pots, to_pot_id, amount) is Err {
        Err(pot_limit(game.pots, to_pot_id, amount)->Err_0)
    } else {
        match ratio(amount, game.config.fee_reallocation as u128, 100) {
            Err(_) => Err(ContractError::OverflowError),
            Ok(fee) => if fee > amount || game.reallocation_fee_pool + fee > u128::MAX {
                Err(ContractError::OverflowError)
            } else if pots_updated(game.pots, from_pot_id, amount, false) is Err {
                Err(pots_updated(game.pots, from_pot_id, amount, false)->Err_0)
            } else {
                Ok((amount, fee))
            },
        }
    }
}

/// The game after the reallocation, if it is accepted.
///
/// The whole stake leaves the source pot and the player's record for it, the stake less the
/// fee enters the destination pot and the player's record for it, the fee enters the fee
/// pool, the player's reallocations are counted, and a late action prolongs the round. The
/// clock is looked at last: an extension that leaves its range fails an action that is
/// otherwise accepted.
pub open spec fn reallocated(
    game: GameView,
    now: u64,
    sender: Seq<char>,
    from_pot_id: u8,
    to_pot_id: u8,
) -> Result<GameView, ContractError> {
    match accepted_reallocation(game, now, sender, from_pot_id, to_pot_id) {
        Err(e) => Err(e),
        Ok((amount, fee)) => if extended_state(game.config, game.state, now) is Err {
            Err(extended_state(game.config, game.state, now)->Err_0)
        } else {
            let net = (amount - fee) as u128;
            let without = players_updated(game.players, sender, from_pot_id, amount, false)->Ok_0;
            let taken = pots_updated(game.pots, from_pot_id, amount, false)->Ok_0;
            Ok(
                GameView {
                    state: extended_state(game.config, game.state, now)->Ok_0,
                    reallocations: reallocations_increased(
                        game.reallocations,
                        game.config.reallocations_limit,
                        sender,
                    )->Ok_0,
                    players: players_updated(without, sender, to_pot_id, net, true)->Ok_0,
                    pots: pots_updated(taken, to_pot_id, net, true)->Ok_0,
                    reallocation_fee_pool: (game.reallocation_fee_pool + fee) as u128,
                    ..game
                },
            )
        },
    }
}

/// Checks a reallocation without making it, and gives the stake and the fee.
fn check_reallocation(game: &Game, now: u64, sender: &String, from_pot_id: u8, to_pot_id: u8) -> (r:
    Result<(u128, u128), ContractError>)
    ensures
        r == accepted_reallocation(game@, now, sender@, from_pot_id, to_pot_id),
{
    if from_pot_id == to_pot_id {
        return Err(ContractError::InvalidPot);
    }
    match validate_game_time(&game.state, now) {
        Ok(()) => {},
        Err(e) => {
            return Err(e);
        },
    }
    let c: usize = find_counter(&game.reallocations, sender);
    let current_reallocations: u64 = if c < game.reallocations.len() {
        game.reallocations[c].count
    } else {
        0
    };
    if current_reallocations >= game.config.reallocations_limit {
        return Err(ContractError::ReallocationsLimitReached);
    }
    match validate_existing_allocation(&game.players, sender, to_pot_id) {
        Ok(()) => {},
        Err(e) => {
            return Err(e);
        },
    }
    let i: usize = find_player(&game.players, sender);
    let amount: u128 = if i < game.players.len() {
        let k: usize = find_record(&game.players[i].allocations, from_pot_id);
        if k < game.players[i].allocations.len() {
            game.players[i].allocations[k].amount
        } else {
            0
        }
    } else {
        0
    };
    if amount == 0 {
        return Err(ContractError::InsufficientFunds);
    }
    match validate_pot_limit_not_exceeded(&game.pots, to_pot_id, amount) {
        Ok(()) => {},
        Err(e) => {
            return Err(e);
        },
    }
    let fee: u128 = match checked_multiply_ratio(amount, game.config.fee_reallocation as u128, 100) {
        Ok(f) => f,
        Err(_) => {
            return Err(ContractError::OverflowError);
        },
    };
    if fee > amount {
        return Err(ContractError::OverflowError);
    }
    if game.reallocation_fee_pool.checked_add(fee).is_none() {
        return Err(ContractError::OverflowError);
    }
    if from_pot_id < 1 || from_pot_id > 5 {
        return Err(ContractError::InvalidPot);
    }
    if amount > game.pots[(from_pot_id - 1) as usize] {
        return Err(ContractError::InsufficientFunds);
    }
    Ok((amount, fee))
}

/// Moves the whole stake of `sender` from pot `from_pot_id` to pot `to_pot_id`, less the
/// reallocation fee.
///
/// On success the game is what [`reallocated`] describes and the result names the round,
/// the stake and the fee; the accounted total is unchanged. On failure nothing changes.
pub fn reallocate_tokens(
    game: &mut Game,
    now: u64,
    sender: &String,
    from_pot_id: u8,
    to_pot_id: u8,
) -> (r: Result<ReallocateTokensResponse, ContractError>)
    ensures
        match reallocated(old(game)@, now, sender@, from_pot_id, to_pot_id) {
            Ok(next) => final(game)@ == next && r == Ok::<ReallocateTokensResponse, ContractError>(
                ReallocateTokensResponse {
                    round_count: old(game).state.round_count,
                    amount: accepted_reallocation(
                        old(game)@,
                        now,
                        sender@,
                        from_pot_id,
                        to_pot_id,
                    )->Ok_0.0,
                    fee: accepted_reallocation(old(game)@, now, sender@, from_pot_id, to_pot_id)->Ok_0.1,
                },
            ),
            Err(e) => r == Err::<ReallocateTokensResponse, ContractError>(e) && *final(game)
                == *old(game),
        },
        r is Ok ==> custody(final(game)@) == custody(old(game)@),
        old(game).wf() ==> final(game).wf(),
        from_pot_id != to_pot_id && game_time(old(game)@.state, now) is Ok && reallocations_of(
            old(game)@.reallocations,
            sender@,
        ) >= old(game)@.config.reallocations_limit ==> r == Err::<
            ReallocateTokensResponse,
            ContractError,
        >(ContractError::ReallocationsLimitReached),
{
    let (amount, fee) = match check_reallocation(game, now, sender, from_pot_id, to_pot_id) {
        Ok(checked) => checked,
        Err(e) => {
            return Err(e);
        },
    };
    let mut state: GameState = game.state;
    match validate_and_extend_game_time(&game.config, &mut state, now) {
        Ok(()) => {},
        Err(e) => {
            return Err(e);
        },
    }
    let net_amount: u128 = amount - fee;
    let round_count: u64 = game.state.round_count;
    proof {
        let records = records_of(game@.players, sender@);
        lemma_first_record(records, from_pot_id);
        lemma_first_record(records, to_pot_id);
        lemma_stake_in_prefix(records, to_pot_id, 0);
        if first_record(records, to_pot_id) < records.len() {
            lemma_record_in_stake(records, to_pot_id, first_record(records, to_pot_id));
        }
        assert(players_updated(game@.players, sender@, from_pot_id, amount, false) is Ok);
        lemma_players_updated_other_pot(game@.players, sender@, from_pot_id, amount, to_pot_id);
        let without = players_updated(game@.players, sender@, from_pot_id, amount, false)->Ok_0;
        assert(players_updated(without, sender@, to_pot_id, net_amount, true) is Ok);
        let taken = pots_updated(game@.pots, from_pot_id, amount, false)->Ok_0;
        assert(pots_updated(taken, to_pot_id, net_amount, true) is Ok);
    }
    match validate_increase_player_reallocations(
        &mut game.reallocations,
        game.config.reallocations_limit,
        sender,
    ) {
        Ok(()) => {},
        Err(e) => {
            return Err(e);
        },
    }
    match update_player_allocation(&mut game.players, sender, from_pot_id, amount, false) {
        Ok(()) => {},
        Err(e) => {
            return Err(e);
        },
    }
    match update_player_allocation(&mut game.players, sender, to_pot_id, net_amount, true) {
        Ok(()) => {},
        Err(e) => {
            return Err(e);
        },
    }
    match update_pot_state(&mut game.pots, from_pot_id, amount, false) {
        Ok(()) => {},
        Err(e) => {
            return Err(e);
        },
    }
    match update_pot_state(&mut game.pots, to_pot_id, net_amount, true) {
        Ok(()) => {},
        Err(e) => {
            return Err(e);
        },
    }
    game.reallocation_fee_pool = game.reallocation_fee_pool + fee;
    game.state = state;
    proof {
        crate::laws::law_reallocation_conserves(old(game)@, now, sender@, from_pot_id, to_pot_id);
        if old(game).wf() {
            crate::well_formed::law_reallocation_keeps_well_formed(
                old(game)@,
                now,
                sender@,
                from_pot_id,
                to_pot_id,
            );
        }
    }
    Ok(ReallocateTokensResponse { round_count, amount, fee })
}

/// Whether `caller` may settle the round at `now` with the given prize and start of the
/// next round.
///
/// The round must be over (`GameStillActive`), the caller must be entitled
/// (`Unauthorized`), a start of the next round must lie in the future
/// (`InvalidNextGameStart`), and a prize token must come with its collection and the
/// reverse (`InvalidRaffleNft`).
pub open spec fn settlement_accepted(
    game: GameView,
    now: u64,
    caller: Seq<char>,
    contract_admin: Option<Seq<char>>,
    new_raffle_cw721_id: Option<Seq<char>>,
    new_raffle_cw721_addr: Option<Seq<char>>,
    next_game_start: Option<u64>,
) -> Result<(), ContractError> {
    if now < game.state.end_time {
        Err(ContractError::GameStillActive)
    } else if !may_end_game(game.config, game.state, contract_admin, now, caller) {
        Err(ContractError::Unauthorized)
    } else if next_game_start is Some && next_game_start->Some_0 <= now {
        Err(ContractError::InvalidNextGameStart)
    } else if (new_raffle_cw721_id is Some) != (new_raffle_cw721_addr is Some) {
        Err(ContractError::InvalidRaffleNft)
    } else {
        Ok(())
    }
}

/// The game after the settlement and what the settlement yields, if it is accepted.
///
/// The winning pots are evaluated, the raffle is settled, half of the losing total is
/// shared among the winning pots with a stake and paid to their players, the fees are paid
/// to the treasury, and the game is reset for the next round with what is left of
/// `contract_balance`. The fee pool is empty afterwards.
pub open spec fn game_ended(
    game: GameView,
    now: u64,
    caller: Seq<char>,
    contract_admin: Option<Seq<char>>,
    contract_address: Seq<char>,
    contract_balance: u128,
    funds: Seq<CoinView>,
    new_raffle_cw721_id: Option<Seq<char>>,
    new_raffle_cw721_addr: Option<Seq<char>>,
    next_game_start: Option<u64>,
) -> Result<(GameView, GameEndResponseView), ContractError> {
    let winners = winning_pots(game.pots);
    let losing = losing_total(game.pots, game.players, winners);
    if settlement_accepted(
        game,
        now,
        caller,
        contract_admin,
        new_raffle_cw721_id,
        new_raffle_cw721_addr,
        next_game_start,
    ) is Err {
        Err(
            settlement_accepted(
                game,
                now,
                caller,
                contract_admin,
                new_raffle_cw721_id,
                new_raffle_cw721_addr,
                next_game_start,
            )->Err_0,
        )
    } else if losing > u128::MAX {
        Err(ContractError::OverflowError)
    } else {
        match raffle_outcome(
            game.config,
            game.state,
            game.raffle,
            game.players,
            game.first_bidders,
            contract_address,
            funds,
            winners,
            new_raffle_cw721_id,
            new_raffle_cw721_addr,
        ) {
            Err(e) => Err(e),
            Ok(raffle) => match distribution(
                game.config,
                game.pots,
                game.players,
                game.reallocation_fee_pool,
                winners,
                losing as u128,
            ) {
                Err(e) => Err(e),
                Ok((payments, treasury)) => {
                    let outgoing = sent_total(raffle.msgs) + sent_total(payments);
                    if outgoing > u128::MAX {
                        Err(ContractError::OverflowError)
                    } else {
                        match next_game(
                            game,
                            now,
                            contract_balance,
                            outgoing as u128,
                            raffle.new_raffle_cw721_id,
                            raffle.new_raffle_cw721_addr,
                            Some(raffle.new_raffle_denom_amount),
                            next_game_start,
                        ) {
                            Err(e) => Err(e),
                            Ok(next) => Ok(
                                (
                                    GameView { reallocation_fee_pool: 0, ..next },
                                    GameEndResponseView {
                                        msgs: raffle.msgs + payments,
                                        submsgs: raffle.submsgs,
                                        raffle_attributes: raffle.attributes,
                                        round_count: game.state.round_count,
                                        extend_count: game.state.extend_count,
                                        winning_pots: winners,
                                        raffle_winner: raffle.raffle_winner,
                                        winning_outgoing_tokens: (sent_total(payments)
                                            - treasury) as u128,
                                        treasury_outgoing_tokens: treasury,
                                        total_outgoing_tokens: outgoing as u128,
                                    },
                                ),
                            ),
                        }
                    }
                },
            },
        }
    }
}

/// Settles the round and resets the game for the next one.
///
/// `contract_admin` is the administrator, if there is one; `contract_address` the engine's
/// own address, to which a new prize token is handed; `contract_balance` what the engine
/// holds of the wager denomination, the funds of this call included. On success the game
/// and the result are what [`game_ended`] describes. On failure nothing changes.
pub fn game_end(
    game: &mut Game,
    now: u64,
    sender: &String,
    contract_admin: &Option<String>,
    contract_address: &String,
    contract_balance: u128,
    funds: &Vec<Coin>,
    new_raffle_cw721_id: Option<String>,
    new_raffle_cw721_addr: Option<String>,
    next_game_start: Option<u64>,
) -> (r: Result<GameEndResponse, ContractError>)
    ensures
        match game_ended(
            old(game)@,
            now,
            sender@,
            contract_admin.deep_view(),
            contract_address@,
            contract_balance,
            funds.deep_view(),
            new_raffle_cw721_id.deep_view(),
            new_raffle_cw721_addr.deep_view(),
            next_game_start,
        ) {
            Ok((next, response)) => final(game)@ == next && r is Ok && r->Ok_0@ == response,
            Err(e) => r is Err && r->Err_0 == e && *final(game) == *old(game),
        },
        r is Ok ==> r->Ok_0.total_outgoing_tokens + final(game)@.raffle.denom_amount <= custody(
            old(game)@,
        ) + denom_total(funds.deep_view(), old(game)@.config.game_denom),
        r is Ok ==> custody(final(game)@) + r->Ok_0.total_outgoing_tokens <= contract_balance
            < custody(final(game)@) + r->Ok_0.total_outgoing_tokens + 5,
        old(game).wf() ==> final(game).wf(),
{
    proof {
        if game_ended(
            game@,
            now,
            sender@,
            contract_admin.deep_view(),
            contract_address@,
            contract_balance,
            funds.deep_view(),
            new_raffle_cw721_id.deep_view(),
            new_raffle_cw721_addr.deep_view(),
            next_game_start,
        ) is Ok {
            crate::conservation::law_settlement_pays_from_custody(
                game@,
                now,
                sender@,
                contract_admin.deep_view(),
                contract_address@,
                contract_balance,
                funds.deep_view(),
                new_raffle_cw721_id.deep_view(),
                new_raffle_cw721_addr.deep_view(),
                next_game_start,
            );
            crate::laws::law_settlement_conserves(
                game@,
                now,
                sender@,
                contract_admin.deep_view(),
                contract_address@,
                contract_balance,
                funds.deep_view(),
                new_raffle_cw721_id.deep_view(),
                new_raffle_cw721_addr.deep_view(),
                next_game_start,
            );
            if game.wf() {
                crate::well_formed::law_settlement_leaves_well_formed(
                    game@,
                    now,
                    sender@,
                    contract_admin.deep_view(),
                    contract_address@,
                    contract_balance,
                    funds.deep_view(),
                    new_raffle_cw721_id.deep_view(),
                    new_raffle_cw721_addr.deep_view(),
                    next_game_start,
                );
            }
        }
    }
    match validate_game_end_time(&game.state, now) {
        Ok(()) => {},
        Err(e) => {
            return Err(e);
        },
    }
    match validate_is_contract_admin_game_end(&game.config, &game.state, contract_admin, now, sender) {
        Ok(()) => {},
        Err(e) => {
            return Err(e);
        },
    }
    match next_game_start {
        Some(start) => {
            if start <= now {
                return Err(ContractError::InvalidNextGameStart);
            }
        },
        None => {},
    }
    if new_raffle_cw721_id.is_some() != new_raffle_cw721_addr.is_some() {
        return Err(ContractError::InvalidRaffleNft);
    }
    let winners: Vec<u8> = get_winning_pots(&game.pots);
    let total_losing_tokens: u128 = match calculate_total_losing_tokens(
        &game.pots,
        &game.players,
        &winners,
    ) {
        Ok(t) => t,
        Err(e) => {
            return Err(e);
        },
    };
    proof {
        lemma_losing_upto_monotonic(game@.pots, game@.players, winners@, 0, 5);
    }
    let raffle: ProcessRaffleWinnerResponse = match process_raffle_winner(
        &game.config,
        &game.state,
        &game.raffle,
        &game.players,
        &game.first_bidders,
        contract_address,
        funds,
        &winners,
        new_raffle_cw721_id,
        new_raffle_cw721_addr,
    ) {
        Ok(resp) => resp,
        Err(e) => {
            return Err(e);
        },
    };
    let (send_msgs, treasury_outgoing_tokens) = match get_distribution_send_msgs(
        &game.config,
        &game.pots,
        &game.players,
        game.reallocation_fee_pool,
        &winners,
        total_losing_tokens,
    ) {
        Ok(d) => d,
        Err(e) => {
            return Err(e);
        },
    };
    proof {
        let gv = game@;
        assert(settlement_accepted(
            gv,
            now,
            sender@,
            contract_admin.deep_view(),
            new_raffle_cw721_id.deep_view(),
            new_raffle_cw721_addr.deep_view(),
            next_game_start,
        ) is Ok);
        assert(winners@ == winning_pots(gv.pots));
        assert(total_losing_tokens == losing_total(gv.pots, gv.players, winners@));
        let ro = raffle_outcome(
            gv.config,
            gv.state,
            gv.raffle,
            gv.players,
            gv.first_bidders,
            contract_address@,
            funds.deep_view(),
            winners@,
            new_raffle_cw721_id.deep_view(),
            new_raffle_cw721_addr.deep_view(),
        );
        assert(ro is Ok && ro->Ok_0 == raffle@);
        let d = distribution(
            gv.config,
            gv.pots,
            gv.players,
            gv.reallocation_fee_pool,
            winners@,
            total_losing_tokens,
        );
        assert(d is Ok && d->Ok_0.0 == send_msgs.deep_view() && d->Ok_0.1
            == treasury_outgoing_tokens);
        assert(raffle@.msgs == raffle.msgs.deep_view());
        lemma_sent_total_add(raffle.msgs.deep_view(), send_msgs.deep_view());
    }
    let total_outgoing_raffle: u128 = match total_sent(&raffle.msgs) {
        Some(t) => t,
        None => {
            return Err(ContractError::OverflowError);
        },
    };
    let total_outgoing_distribution: u128 = match total_sent(&send_msgs) {
        Some(t) => t,
        None => {
            return Err(ContractError::OverflowError);
        },
    };
    let total_outgoing_tokens: u128 = match total_outgoing_raffle.checked_add(
        total_outgoing_distribution,
    ) {
        Some(t) => t,
        None => {
            return Err(ContractError::OverflowError);
        },
    };
    proof {
        let s = settlement(
            game@.config,
            game@.pots,
            game@.players,
            winners@,
            total_losing_tokens,
        );
        s.lemma_fee_total_monotonic(0, winners@.len() as int);
        lemma_treasury_in_payments(
            s.payouts(game@.config.game_denom, winners@.len() as int),
            game@.config.fee_address,
            game@.config.game_denom,
            game@.reallocation_fee_pool,
            s.fee_total(winners@.len() as int) as u128,
        );
    }
    let winning_outgoing_tokens: u128 = total_outgoing_distribution - treasury_outgoing_tokens;
    let ProcessRaffleWinnerResponse {
        msgs: raffle_msgs,
        submsgs,
        attributes: raffle_attributes,
        raffle_winner,
        new_raffle_denom_amount,
        new_raffle_cw721_id: next_cw721_id,
        new_raffle_cw721_addr: next_cw721_addr,
    } = raffle;
    let (old_round_count, _new_round_count, old_extend_count) = match prepare_next_game(
        game,
        now,
        contract_balance,
        total_outgoing_tokens,
        next_cw721_id,
        next_cw721_addr,
        Some(new_raffle_denom_amount),
        next_game_start,
    ) {
        Ok(counts) => counts,
        Err(e) => {
            return Err(e);
        },
    };
    game.reallocation_fee_pool = 0;
    let mut msgs: Vec<BankSend> = raffle_msgs;
    let mut send_msgs: Vec<BankSend> = send_msgs;
    let ghost first = msgs.deep_view();
    let ghost second = send_msgs.deep_view();
    msgs.append(&mut send_msgs);
    assert(msgs.deep_view() =~= first + second);
    Ok(
        GameEndResponse {
            msgs,
            submsgs,
            raffle_attributes,
            round_count: old_round_count,
            extend_count: old_extend_count,
            winning_pots: winners,
            raffle_winner,
            winning_outgoing_tokens,
            treasury_outgoing_tokens,
            total_outgoing_tokens,
        },
    )
}

/// The game after the administrator changed the next round, and what the change yields.
///
/// A start that is given must lie in the future; the round then starts there and lasts the
/// configured duration. A prize token that is given must come with its collection and is
/// set only where none is pending (`InvalidRaffleNft` otherwise); it is handed to the
/// engine's own address. What `funds` hold of the wager denomination is added to the raffle
/// amount. A call that changes nothing is refused with `InvalidInput`.
pub open spec fn next_game_updated(
    game: GameView,
    now: u64,
    caller: Seq<char>,
    contract_admin: Option<Seq<char>>,
    contract_address: Seq<char>,
    funds: Seq<CoinView>,
    new_raffle_cw721_id: Option<Seq<char>>,
    new_raffle_cw721_addr: Option<Seq<char>>,
    next_game_start: Option<u64>,
) -> Result<(GameView, UpdateNextGameResponseView), ContractError> {
    let sent = denom_total(funds, game.config.game_denom);
    if !is_admin(contract_admin, caller) {
        Err(ContractError::Unauthorized)
    } else if next_game_start is Some && next_game_start->Some_0 <= now {
        Err(ContractError::InvalidNextGameStart)
    } else if next_game_start is Some && next_game_start->Some_0 + game.config.game_duration
        > u64::MAX {
        Err(ContractError::OverflowError)
    } else if new_raffle_cw721_id is Some && (new_raffle_cw721_addr is None
        || game.raffle.cw721_token_id is Some) {
        Err(ContractError::InvalidRaffleNft)
    } else if game.raffle.denom_amount + sent > u128::MAX {
        Err(ContractError::OverflowError)
    } else if next_game_start is None && new_raffle_cw721_id is None && sent == 0 {
        Err(ContractError::InvalidInput)
    } else {
        Ok(
            (
                GameView {
                    state: match next_game_start {
                        Some(start) => GameState {
                            start_time: start,
                            end_time: (start + game.config.game_duration) as u64,
                            ..game.state
                        },
                        None => game.state,
                    },
                    raffle: RaffleView {
                        cw721_token_id: if new_raffle_cw721_id is Some {
                            new_raffle_cw721_id
                        } else {
                            game.raffle.cw721_token_id
                        },
                        cw721_addr: if new_raffle_cw721_id is Some {
                            new_raffle_cw721_addr
                        } else {
                            game.raffle.cw721_addr
                        },
                        denom_amount: (game.raffle.denom_amount + sent) as u128,
                    },
                    ..game
                },
                UpdateNextGameResponseView {
                    submsgs: if new_raffle_cw721_id is Some {
                        token_transfer(new_raffle_cw721_id, new_raffle_cw721_addr, contract_address)
                    } else {
                        Seq::empty()
                    },
                    next_game_start,
                    raffle_cw721_id: new_raffle_cw721_id,
                    raffle_cw721_addr: if new_raffle_cw721_id is Some {
                        new_raffle_cw721_addr
                    } else {
                        None
                    },
                    raffle_denom_amount: sent as u128,
                },
            ),
        )
    }
}

/// Changes the start of the next round, its prize token and its raffle amount.
///
/// Only the administrator may do so. On success the game and the result are what
/// [`next_game_updated`] describes; the accounted total has grown by what was added to the
/// raffle amount. On failure nothing changes.
pub fn update_next_game(
    game: &mut Game,
    now: u64,
    sender: &String,
    contract_admin: &Option<String>,
    contract_address: &String,
    funds: &Vec<Coin>,
    new_raffle_cw721_id: Option<String>,
    new_raffle_cw721_addr: Option<String>,
    next_game_start: Option<u64>,
) -> (r: Result<UpdateNextGameResponse, ContractError>)
    ensures
        match next_game_updated(
            old(game)@,
            now,
            sender@,
            contract_admin.deep_view(),
            contract_address@,
            funds.deep_view(),
            new_raffle_cw721_id.deep_view(),
            new_raffle_cw721_addr.deep_view(),
            next_game_start,
        ) {
            Ok((next, response)) => final(game)@ == next && r is Ok && r->Ok_0@ == response,
            Err(e) => r is Err && r->Err_0 == e && *final(game) == *old(game),
        },
        r is Ok ==> custody(final(game)@) == custody(old(game)@) + r->Ok_0.raffle_denom_amount,
        old(game).wf() ==> final(game).wf(),
{
    match validate_is_contract_admin(contract_admin, sender) {
        Ok(()) => {},
        Err(e) => {
            return Err(e);
        },
    }
    let mut state: GameState = game.state;
    match next_game_start {
        Some(start_time) => {
            if start_time <= now {
                return Err(ContractError::InvalidNextGameStart);
            }
            state.start_time = start_time;
            state.end_time = match start_time.checked_add(game.config.game_duration) {
                Some(t) => t,
                None => {
                    return Err(ContractError::OverflowError);
                },
            };
        },
        None => {},
    }
    if new_raffle_cw721_id.is_some() {
        if new_raffle_cw721_addr.is_none() || game.raffle.cw721_token_id.is_some() {
            return Err(ContractError::InvalidRaffleNft);
        }
    }
    proof {
        crate::helpers::validate::lemma_denom_total_prefix(
            funds.deep_view(),
            game@.config.game_denom,
            0,
        );
    }
    let total_amount: u128 = match validate_funds(funds, &game.config.game_denom) {
        Ok(amount) => amount,
        Err(ContractError::OverflowError) => {
            return Err(ContractError::OverflowError);
        },
        Err(_) => 0,
    };
    let denom_amount: u128 = match game.raffle.denom_amount.checked_add(total_amount) {
        Some(a) => a,
        None => {
            return Err(ContractError::OverflowError);
        },
    };
    if next_game_start.is_none() && new_raffle_cw721_id.is_none() && total_amount == 0 {
        return Err(ContractError::InvalidInput);
    }
    let mut submsgs: Vec<TransferNft> = Vec::new();
    let mut raffle_cw721_addr: Option<String> = None;
    match &new_raffle_cw721_id {
        Some(raffle_id) => {
            match &new_raffle_cw721_addr {
                Some(addr) => {
                    submsgs.push(
                        TransferNft {
                            contract_addr: addr.clone(),
                            recipient: contract_address.clone(),
                            token_id: raffle_id.clone(),
                        },
                    );
                    game.raffle.cw721_token_id = Some(raffle_id.clone());
                    game.raffle.cw721_addr = Some(addr.clone());
                    raffle_cw721_addr = Some(addr.clone());
                },
                None => {},
            }
        },
        None => {},
    }
    game.raffle.denom_amount = denom_amount;
    game.state = state;
    proof {
        let spec = next_game_updated(
            old(game)@,
            now,
            sender@,
            contract_admin.deep_view(),
            contract_address@,
            funds.deep_view(),
            new_raffle_cw721_id.deep_view(),
            new_raffle_cw721_addr.deep_view(),
            next_game_start,
        )->Ok_0;
        assert(submsgs.deep_view() =~= spec.1.submsgs);
    }
    Ok(
        UpdateNextGameResponse {
            submsgs,
            next_game_start,
            raffle_cw721_id: new_raffle_cw721_id,
            raffle_cw721_addr,
            raffle_denom_amount: total_amount,
        },
    )
}

/// The least decay factor that may be configured: 0.01.
pub const MIN_DECAY_FACTOR: u128 = 10_000_000_000_000_000u128;

/// The greatest decay factor that may be configured: 0.99.
pub const MAX_DECAY_FACTOR: u128 = 990_000_000_000_000_000u128;

/// The greatest payout fee that may be configured, in percent.
pub const MAX_FEE: u64 = 10;

/// The greatest reallocation fee that may be configured, in percent.
pub const MAX_FEE_REALLOCATION: u64 = 50;

/// The value in force after a change: the new one where one is given.
pub open spec fn replaced<T>(current: T, change: Option<T>) -> T {
    match change {
        Some(v) => v,
        None => current,
    }
}

/// The parameters after the change, if the change is allowed.
///
/// The checks come in this order. The payout fee may be at most 10 percent and the
/// reallocation fee at most 50 (`InvalidInput`). A new treasury address must be accepted by
/// the chain, and so must the collection addresses where the list differs from the one in
/// force (`InvalidAddress`). The extension window may not exceed the duration of a round,
/// and the decay factor must lie between 0.01 and 0.99 (`InvalidInput`). The list of
/// collections is always replaced.
pub open spec fn config_updated(
    config: GameConfigView,
    update: UpdateGameConfigView,
    addresses: AddressValidation,
) -> Result<GameConfigView, ContractError> {
    if update.fee is Some && update.fee->Some_0 > MAX_FEE {
        Err(ContractError::InvalidInput)
    } else if update.fee_reallocation is Some && update.fee_reallocation->Some_0
        > MAX_FEE_REALLOCATION {
        Err(ContractError::InvalidInput)
    } else if update.fee_address is Some && !addresses.fee_address {
        Err(ContractError::InvalidAddress)
    } else if update.game_cw721_addrs != config.game_cw721_addrs && !addresses.game_cw721_addrs {
        Err(ContractError::InvalidAddress)
    } else if update.game_extend is Some && update.game_extend->Some_0 > replaced(
        config.game_duration,
        update.game_duration,
    ) {
        Err(ContractError::InvalidInput)
    } else if update.decay_factor is Some && (update.decay_factor->Some_0.atomics < MIN_DECAY_FACTOR
        || update.decay_factor->Some_0.atomics > MAX_DECAY_FACTOR) {
        Err(ContractError::InvalidInput)
    } else {
        Ok(
            GameConfigView {
                fee: replaced(config.fee, update.fee),
                fee_reallocation: replaced(config.fee_reallocation, update.fee_reallocation),
                fee_address: replaced(config.fee_address, update.fee_address),
                game_denom: replaced(config.game_denom, update.game_denom),
                game_cw721_addrs: update.game_cw721_addrs,
                game_duration: replaced(config.game_duration, update.game_duration),
                game_duration_epoch: replaced(config.game_duration_epoch, update.game_duration_epoch),
                game_extend: replaced(config.game_extend, update.game_extend),
                game_end_threshold: replaced(config.game_end_threshold, update.game_end_threshold),
                min_pot_initial_allocation: replaced(
                    config.min_pot_initial_allocation,
                    update.min_pot_initial_allocation,
                ),
                decay_factor: replaced(config.decay_factor, update.decay_factor),
                reallocations_limit: replaced(config.reallocations_limit, update.reallocations_limit),
            },
        )
    }
}

/// Whether two lists hold the same texts in the same order.
fn same_texts(a: &Vec<String>, b: &Vec<String>) -> (r: bool)
    ensures
        r == (a.deep_view() == b.deep_view()),
{
    if a.len() != b.len() {
        assert(a.deep_view().len() != b.deep_view().len());
        return false;
    }
    let n: usize = a.len();
    let mut i: usize = 0;
    while i < n
        invariant
            i <= n,
            n == a@.len(),
            n == b@.len(),
            forall|k: int| 0 <= k < i ==> a@[k]@ == b@[k]@,
        decreases n - i,
    {
        if a[i] != b[i] {
            assert(a.deep_view()[i as int] != b.deep_view()[i as int]);
            return false;
        }
        i = i + 1;
    }
    assert(a.deep_view() =~= b.deep_view());
    true
}

/// The new value where one is given, else the current one.
fn replace_number(current: u64, change: Option<u64>) -> (r: u64)
    ensures
        r == replaced(current, change),
{
    match change {
        Some(v) => v,
        None => current,
    }
}

/// The new text where one is given, else a copy of the current one.
fn replace_text(current: &String, change: Option<String>) -> (r: String)
    ensures
        r@ == replaced(current@, change.deep_view()),
{
    match change {
        Some(v) => v,
        None => current.clone(),
    }
}

/// Changes the parameters of the game.
///
/// Only the administrator may do so (`Unauthorized` otherwise, before anything else is
/// looked at). `addresses` tells what the chain says of the addresses that the change
/// names. On success the parameters are what [`config_updated`] describes and the rest of
/// the game is untouched. On failure nothing changes.
pub fn update_config(
    game: &mut Game,
    sender: &String,
    contract_admin: &Option<String>,
    update: UpdateGameConfig,
    addresses: AddressValidation,
) -> (r: Result<(), ContractError>)
    ensures
        !is_admin(contract_admin.deep_view(), sender@) ==> r == Err::<(), ContractError>(
            ContractError::Unauthorized,
        ) && *final(game) == *old(game),
        is_admin(contract_admin.deep_view(), sender@) ==> match config_updated(
            old(game)@.config,
            update@,
            addresses,
        ) {
            Ok(config) => r == Ok::<(), ContractError>(()) && final(game)@ == (GameView {
                config,
                ..old(game)@
            }),
            Err(e) => r == Err::<(), ContractError>(e) && *final(game) == *old(game),
        },
        old(game).wf() ==> final(game).wf(),
{
    match validate_is_contract_admin(contract_admin, sender) {
        Ok(()) => {},
        Err(e) => {
            return Err(e);
        },
    }
    match update.fee {
        Some(fee) => {
            if fee > MAX_FEE {
                return Err(ContractError::InvalidInput);
            }
        },
        None => {},
    }
    match update.fee_reallocation {
        Some(fee_reallocation) => {
            if fee_reallocation > MAX_FEE_REALLOCATION {
                return Err(ContractError::InvalidInput);
            }
        },
        None => {},
    }
    if update.fee_address.is_some() && !addresses.fee_address {
        return Err(ContractError::InvalidAddress);
    }
    if !addresses.game_cw721_addrs && !same_texts(
        &update.game_cw721_addrs,
        &game.config.game_cw721_addrs,
    ) {
        return Err(ContractError::InvalidAddress);
    }
    let game_duration: u64 = replace_number(game.config.game_duration, update.game_duration);
    match update.game_extend {
        Some(game_extend) => {
            if game_extend > game_duration {
                return Err(ContractError::InvalidInput);
            }
        },
        None => {},
    }
    match update.decay_factor {
        Some(decay_factor) => {
            if decay_factor.atomics < MIN_DECAY_FACTOR || decay_factor.atomics > MAX_DECAY_FACTOR {
                return Err(ContractError::InvalidInput);
            }
        },
        None => {},
    }
    let ghost change = update@;
    let UpdateGameConfig {
        fee,
        fee_reallocation,
        fee_address,
        game_denom,
        game_cw721_addrs,
        game_duration: _,
        game_duration_epoch,
        game_extend,
        game_end_threshold,
        min_pot_initial_allocation,
        decay_factor,
        reallocations_limit,
    } = update;
    game.config.fee = replace_number(game.config.fee, fee);
    game.config.fee_reallocation = replace_number(game.config.fee_reallocation, fee_reallocation);
    game.config.fee_address = replace_text(&game.config.fee_address, fee_address);
    game.config.game_denom = replace_text(&game.config.game_denom, game_denom);
    game.config.game_cw721_addrs = game_cw721_addrs;
    game.config.game_duration = game_duration;
    game.config.game_duration_epoch = replace_number(
        game.config.game_duration_epoch,
        game_duration_epoch,
    );
    game.config.game_extend = replace_number(game.config.game_extend, game_extend);
    game.config.game_end_threshold = replace_number(
        game.config.game_end_threshold,
        game_end_threshold,
    );
    game.config.min_pot_initial_allocation = match min_pot_initial_allocation {
        Some(v) => v,
        None => game.config.min_pot_initial_allocation,
    };
    game.config.decay_factor = match decay_factor {
        Some(v) => v,
        None => game.config.decay_factor,
    };
    game.config.reallocations_limit = replace_number(
        game.config.reallocations_limit,
        reallocations_limit,
    );
    Ok(())
}

} // verus!
