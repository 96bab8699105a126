//! The read-only questions the engine answers.

use vstd::prelude::*;
use crate::error::ContractError;
use crate::helpers::game_end::{
    get_raffle_denom_prize_amounts, get_raffle_winner, raffle_prize_amounts, raffle_winner,
    stake_overflows,
};
use crate::helpers::pot::{
    calculate_max_bid, calculate_min_bid, find_player, get_winning_pots, max_bid, min_bid,
    records_of, winning_pots,
};
use crate::helpers::validate::{find_counter, reallocations_of};
use crate::msg::clone_text;
use crate::state::{
    valid_pot, Game, GameConfig, GameState, PlayerAllocations, Raffle, TokenAllocation,
};

verus! {

/// The parameters in force.
#[derive(Clone, Debug, PartialEq, Eq)]
pub struct GameConfigResponse {
    pub config: GameConfig,
}

/// The clock of the round.
#[derive(Clone, Copy, Debug, PartialEq, Eq, Structural)]
pub struct GameStateResponse {
    pub state: GameState,
}

/// The bounds of a deposit.
#[derive(Clone, Copy, Debug, PartialEq, Eq, Structural)]
pub struct BidRangeResponse {
    pub min_bid: u128,
    pub max_bid: u128,
}

/// The amount of one pot.
#[derive(Clone, Copy, Debug, PartialEq, Eq, Structural)]
pub struct PotStateResponse {
    pub pot: TokenAllocation,
}

/// The amounts of the five pots.
#[derive(Clone, Debug, PartialEq, Eq)]
pub struct PotsStateResponse {
    pub pots: Vec<TokenAllocation>,
}

/// The pots that currently win.
#[derive(Clone, Debug, PartialEq, Eq)]
pub struct WinningPotsResponse {
    pub pots: Vec<u8>,
}

/// The records of one player.
#[derive(Clone, Debug, PartialEq, Eq)]
pub struct PlayerAllocationsResponse {
    pub allocations: Vec<TokenAllocation>,
}

/// The reallocations of one player in this round.
#[derive(Clone, Copy, Debug, PartialEq, Eq, Structural)]
pub struct PlayerReallocationsResponse {
    pub reallocations: u64,
}

/// The records of all players.
#[derive(Clone, Debug, PartialEq, Eq)]
pub struct AllPlayersAllocationsResponse {
    pub allocations: Vec<PlayerAllocations>,
}

/// The fees that reallocations have left in the pool.
#[derive(Clone, Copy, Debug, PartialEq, Eq, Structural)]
pub struct ReallocationFeePoolResponse {
    pub reallocation_fee_pool: u128,
}

/// The pending prize.
#[derive(Clone, Debug, PartialEq, Eq)]
pub struct RaffleResponse {
    pub raffle: Raffle,
}

/// Who would win the raffle now.
#[derive(Clone, Debug, PartialEq, Eq)]
pub struct RaffleWinnerResponse {
    pub raffle_winner: Option<String>,
}

/// How the raffle amount would be split now.
#[derive(Clone, Copy, Debug, PartialEq, Eq, Structural)]
pub struct RaffleDenomSplitResponse {
    pub prize_to_distribute: u128,
    pub prize_to_treasury: u128,
}

/// The five pots with their identifiers, pot 1 first.
pub open spec fn pot_states(pots: Seq<u128>) -> Seq<TokenAllocation> {
    Seq::new(5, |i: int| TokenAllocation { pot_id: (i + 1) as u8, amount: pots[i] })
}

/// A copy of a list of texts.
fn clone_texts(texts: &Vec<String>) -> (r: Vec<String>)
    ensures
        r.deep_view() == texts.deep_view(),
{
    let mut copy: Vec<String> = Vec::new();
    let n: usize = texts.len();
    let mut i: usize = 0;
    while i < n
        invariant
            i <= n,
            n == texts@.len(),
            copy@.len() == i,
            forall|k: int| 0 <= k < i ==> (#[trigger] copy@[k])@ == texts@[k]@,
        decreases n - i,
    {
        copy.push(texts[i].clone());
        i = i + 1;
    }
    assert(copy.deep_view() =~= texts.deep_view());
    copy
}

/// A copy of a list of records.
fn clone_records(records: &Vec<TokenAllocation>) -> (r: Vec<TokenAllocation>)
    ensures
        r@ == records@,
{
    let mut copy: Vec<TokenAllocation> = Vec::new();
    let n: usize = records.len();
    let mut i: usize = 0;
    while i < n
        invariant
            i <= n,
            n == records@.len(),
            copy@ == records@.take(i as int),
        decreases n - i,
    {
        copy.push(records[i]);
        assert(records@.take(i + 1) =~= records@.take(i as int).push(records@[i as int]));
        i = i + 1;
    }
    assert(records@.take(n as int) =~= records@);
    copy
}

/// The parameters in force.
pub fn query_game_config(game: &Game) -> (r: GameConfigResponse)
    ensures
        r.config@ == game@.config,
{
    let config = GameConfig {
        fee: game.config.fee,
        fee_reallocation: game.config.fee_reallocation,
        fee_address: game.config.fee_address.clone(),
        game_denom: game.config.game_denom.clone(),
        game_cw721_addrs: clone_texts(&game.config.game_cw721_addrs),
        game_duration: game.config.game_duration,
        game_duration_epoch: game.config.game_duration_epoch,
        game_extend: game.config.game_extend,
        game_end_threshold: game.config.game_end_threshold,
        min_pot_initial_allocation: game.config.min_pot_initial_allocation,
        decay_factor: game.config.decay_factor,
        reallocations_limit: game.config.reallocations_limit,
    };
    GameConfigResponse { config }
}

/// The clock of the round.
pub fn query_game_state(game: &Game) -> (r: GameStateResponse)
    ensures
        r.state == game.state,
{
    GameStateResponse { state: game.state }
}

/// The bounds of a deposit at `now` for a player with the given token holdings.
///
/// The lower bound is discounted for the holdings, the upper bound is not.
pub fn query_bid_range(game: &Game, now: u64, holdings: &Vec<u64>) -> (r: Result<
    BidRangeResponse,
    ContractError,
>)
    ensures
        r == match min_bid(game@.config, game@.state, now, holdings@) {
            Err(e) => Err::<BidRangeResponse, ContractError>(e),
            Ok(lowest) => match max_bid(
                game@.pots,
                min_bid(game@.config, game@.state, now, Seq::empty())->Ok_0,
            ) {
                Err(e) => Err::<BidRangeResponse, ContractError>(e),
                Ok(highest) => Ok::<BidRangeResponse, ContractError>(
                    BidRangeResponse { min_bid: lowest, max_bid: highest },
                ),
            },
        },
{
    let lowest: u128 = match calculate_min_bid(&game.config, &game.state, now, holdings) {
        Ok(b) => b,
        Err(e) => {
            return Err(e);
        },
    };
    let no_holdings: Vec<u64> = Vec::new();
    assert(no_holdings@ =~= Seq::<u64>::empty());
    let undiscounted_min_bid: u128 = match calculate_min_bid(
        &game.config,
        &game.state,
        now,
        &no_holdings,
    ) {
        Ok(b) => b,
        Err(e) => {
            return Err(e);
        },
    };
    match calculate_max_bid(&game.pots, undiscounted_min_bid) {
        Ok(highest) => Ok(BidRangeResponse { min_bid: lowest, max_bid: highest }),
        Err(e) => Err(e),
    }
}

/// The amount of pot `pot_id`, or `InvalidPot` where there is no such pot.
pub fn query_pot_state(game: &Game, pot_id: u8) -> (r: Result<PotStateResponse, ContractError>)
    ensures
        r == if valid_pot(pot_id) {
            Ok::<PotStateResponse, ContractError>(
                PotStateResponse {
                    pot: TokenAllocation { pot_id, amount: game@.pots[pot_id - 1] },
                },
            )
        } else {
            Err::<PotStateResponse, ContractError>(ContractError::InvalidPot)
        },
{
    if pot_id < 1 || pot_id > 5 {
        return Err(ContractError::InvalidPot);
    }
    Ok(
        PotStateResponse {
            pot: TokenAllocation { pot_id, amount: game.pots[(pot_id - 1) as usize] },
        },
    )
}

/// The amounts of the five pots, pot 1 first.
pub fn query_pots_state(game: &Game) -> (r: PotsStateResponse)
    ensures
        r.pots@ == pot_states(game@.pots),
{
    let mut pots: Vec<TokenAllocation> = Vec::new();
    let mut pot_id: u8 = 1;
    while pot_id <= 5
        invariant
            1 <= pot_id <= 6,
            pots@.len() == pot_id - 1,
            forall|i: int| 0 <= i < pot_id - 1 ==> #[trigger] pots@[i] == pot_states(game@.pots)[i],
        decreases 6 - pot_id,
    {
        pots.push(TokenAllocation { pot_id, amount: game.pots[(pot_id - 1) as usize] });
        pot_id = pot_id + 1;
    }
    assert(pots@ =~= pot_states(game@.pots));
    PotsStateResponse { pots }
}

/// The pots that currently satisfy their rule, in ascending order.
pub fn query_winning_pots(game: &Game) -> (r: WinningPotsResponse)
    ensures
        r.pots@ == winning_pots(game@.pots),
{
    WinningPotsResponse { pots: get_winning_pots(&game.pots) }
}

/// The records of player `address`; none for a player without an entry.
pub fn query_player_allocations(game: &Game, address: &String) -> (r: PlayerAllocationsResponse)
    ensures
        r.allocations@ == records_of(game@.players, address@),
{
    let i: usize = find_player(&game.players, address);
    if i < game.players.len() {
        PlayerAllocationsResponse { allocations: clone_records(&game.players[i].allocations) }
    } else {
        PlayerAllocationsResponse { allocations: Vec::new() }
    }
}

/// How often player `address` has reallocated in this round.
pub fn query_player_reallocations(game: &Game, address: &String) -> (r: PlayerReallocationsResponse)
    ensures
        r.reallocations == reallocations_of(game@.reallocations, address@),
{
    let i: usize = find_counter(&game.reallocations, address);
    if i < game.reallocations.len() {
        PlayerReallocationsResponse { reallocations: game.reallocations[i].count }
    } else {
        PlayerReallocationsResponse { reallocations: 0 }
    }
}

/// The records of all players, in the order of the entries.
pub fn query_all_players_allocations(game: &Game) -> (r: AllPlayersAllocationsResponse)
    ensures
        r.allocations.deep_view() == game@.players,
{
    let mut all_allocations: Vec<PlayerAllocations> = Vec::new();
    let n: usize = game.players.len();
    let mut i: usize = 0;
    while i < n
        invariant
            i <= n,
            n == game.players@.len(),
            all_allocations@.len() == i,
            forall|k: int| 0 <= k < i ==> (#[trigger] all_allocations@[k])@ == game.players@[k]@,
        decreases n - i,
    {
        all_allocations.push(
            PlayerAllocations {
                player: game.players[i].player.clone(),
                allocations: clone_records(&game.players[i].allocations),
            },
        );
        i = i + 1;
    }
    assert(all_allocations.deep_view() =~= game@.players);
    AllPlayersAllocationsResponse { allocations: all_allocations }
}

/// The fees that reallocations have left in the pool.
pub fn query_reallocation_fee_pool(game: &Game) -> (r: ReallocationFeePoolResponse)
    ensures
        r.reallocation_fee_pool == game@.reallocation_fee_pool,
{
    ReallocationFeePoolResponse { reallocation_fee_pool: game.reallocation_fee_pool }
}

/// The pending prize.
pub fn query_raffle(game: &Game) -> (r: RaffleResponse)
    ensures
        r.raffle@ == game@.raffle,
{
    RaffleResponse {
        raffle: Raffle {
            cw721_token_id: clone_text(&game.raffle.cw721_token_id),
            cw721_addr: clone_text(&game.raffle.cw721_addr),
            denom_amount: game.raffle.denom_amount,
        },
    }
}

/// Who would win the raffle if the round were settled now.
///
/// Fails with `OverflowError` exactly when some player's stake over the winning pots is no
/// 128-bit amount.
pub fn query_raffle_winner(game: &Game) -> (r: Result<RaffleWinnerResponse, ContractError>)
    ensures
        stake_overflows(game@.players, winning_pots(game@.pots)) ==> r is Err && r->Err_0
            == ContractError::OverflowError,
        !stake_overflows(game@.players, winning_pots(game@.pots)) ==> r is Ok
            && r->Ok_0.raffle_winner.deep_view() == raffle_winner(
            game@.players,
            game@.first_bidders,
            winning_pots(game@.pots),
        ),
{
    let winners: Vec<u8> = get_winning_pots(&game.pots);
    match get_raffle_winner(&game.players, &game.first_bidders, &winners) {
        Ok(raffle_winner) => Ok(RaffleWinnerResponse { raffle_winner }),
        Err(e) => Err(e),
    }
}

/// How the raffle amount would be split between winner and treasury if the round were
/// settled now.
pub fn query_raffle_denom_split(game: &Game) -> (r: Result<RaffleDenomSplitResponse, ContractError>)
    ensures
        r == match raffle_prize_amounts(
            game@.config.decay_factor,
            game@.state.extend_count,
            game@.raffle.denom_amount,
        ) {
            Ok((prize_to_distribute, prize_to_treasury)) => Ok::<
                RaffleDenomSplitResponse,
                ContractError,
            >(RaffleDenomSplitResponse { prize_to_distribute, prize_to_treasury }),
            Err(e) => Err::<RaffleDenomSplitResponse, ContractError>(e),
        },
{
    match get_raffle_denom_prize_amounts(&game.config, &game.state, &game.raffle) {
        Ok((prize_to_distribute, prize_to_treasury)) => Ok(
            RaffleDenomSplitResponse { prize_to_distribute, prize_to_treasury },
        ),
        Err(e) => Err(e),
    }
}

} // verus!
