//! Creating a game, and routing acknowledgments.

use vstd::prelude::*;
use crate::error::ContractError;
use crate::helpers::game_end::{next_game, prepare_next_game};
use crate::helpers::validate::{
    funds_amount, pot_initial_amount, validate_funds, validate_pot_initial_amount,
};
use crate::msg::{InstantiateMsg, ReplyMsg};
use crate::reply::transfer_nft_reply;
use crate::state::{Coin, CoinView, Game, GameConfigView, GameState, GameView, Raffle, RaffleView};

verus! {

/// A game with the given parameters in which nothing has happened yet: no round, empty pots,
/// no stakes and no prize.
pub open spec fn blank_game(config: GameConfigView) -> GameView {
    GameView {
        config,
        state: GameState { round_count: 0, extend_count: 0, start_time: 0, end_time: 0 },
        pots: Seq::new(5, |i: int| 0u128),
        players: Seq::empty(),
        reallocations: Seq::empty(),
        first_bidders: Seq::new(5, |i: int| None),
        reallocation_fee_pool: 0,
        raffle: RaffleView { cw721_token_id: None, cw721_addr: None, denom_amount: 0 },
    }
}

/// The game that the parameters and the first funds create.
///
/// The fee percentages may be at most 100, and the duration of a round and the minimum seed
/// of a pot must not be zero (`InvalidInput`). The funds must hold something of the wager
/// denomination, enough to seed every pot with the minimum. The first round is then
/// prepared from the whole balance, without a prize.
pub open spec fn instantiated(
    config: GameConfigView,
    next_game_start: Option<u64>,
    now: u64,
    funds: Seq<CoinView>,
    contract_balance: u128,
) -> Result<GameView, ContractError> {
    if config.fee > 100 || config.fee_reallocation > 100 {
        Err(ContractError::InvalidInput)
    } else if config.game_duration == 0 {
        Err(ContractError::InvalidInput)
    } else if config.min_pot_initial_allocation == 0 {
        Err(ContractError::InvalidInput)
    } else if funds_amount(funds, config.game_denom) is Err {
        Err(funds_amount(funds, config.game_denom)->Err_0)
    } else if pot_initial_amount(
        config.min_pot_initial_allocation,
        funds_amount(funds, config.game_denom)->Ok_0,
    ) is Err {
        Err(ContractError::NotEnoughFundsForNextRound)
    } else {
        next_game(blank_game(config), now, contract_balance, 0, None, None, None, next_game_start)
    }
}

/// Creates a game and prepares its first round.
///
/// `funds` is what came with the call, `contract_balance` what the engine holds of the
/// wager denomination, those funds included. The result is what [`instantiated`] describes.
pub fn instantiate(msg: InstantiateMsg, now: u64, funds: &Vec<Coin>, contract_balance: u128) -> (r:
    Result<Game, ContractError>)
    ensures
        match instantiated(
            msg.config@,
            msg.next_game_start,
            now,
            funds.deep_view(),
            contract_balance,
        ) {
            Ok(game) => r is Ok && r->Ok_0@ == game,
            Err(e) => r is Err && r->Err_0 == e,
        },
        r is Ok ==> r->Ok_0.wf(),
{
    proof {
        if instantiated(
            msg.config@,
            msg.next_game_start,
            now,
            funds.deep_view(),
            contract_balance,
        ) is Ok {
            crate::well_formed::law_new_game_is_well_formed(
                msg.config@,
                msg.next_game_start,
                now,
                funds.deep_view(),
                contract_balance,
            );
        }
    }
    if msg.config.fee > 100 || msg.config.fee_reallocation > 100 {
        return Err(ContractError::InvalidInput);
    }
    if msg.config.game_duration == 0 {
        return Err(ContractError::InvalidInput);
    }
    if msg.config.min_pot_initial_allocation == 0 {
        return Err(ContractError::InvalidInput);
    }
    let total_amount: u128 = match validate_funds(funds, &msg.config.game_denom) {
        Ok(a) => a,
        Err(e) => {
            return Err(e);
        },
    };
    match validate_pot_initial_amount(msg.config.min_pot_initial_allocation, total_amount) {
        Ok(_) => {},
        Err(e) => {
            return Err(e);
        },
    }
    let InstantiateMsg { config, next_game_start } = msg;
    let mut game = Game {
        config,
        state: GameState { round_count: 0, extend_count: 0, start_time: 0, end_time: 0 },
        pots: [0, 0, 0, 0, 0],
        players: Vec::new(),
        reallocations: Vec::new(),
        first_bidders: [None, None, None, None, None],
        reallocation_fee_pool: 0,
        raffle: Raffle { cw721_token_id: None, cw721_addr: None, denom_amount: 0 },
    };
    proof {
        let blank = blank_game(msg.config@);
        assert(game@.pots =~= blank.pots);
        assert(game@.players =~= blank.players);
        assert(game@.reallocations =~= blank.reallocations);
        assert(game@.first_bidders =~= blank.first_bidders);
        assert(game@.raffle == blank.raffle);
        assert(game@ == blank);
    }
    match prepare_next_game(&mut game, now, contract_balance, 0, None, None, None, next_game_start) {
        Ok(_) => Ok(game),
        Err(e) => Err(e),
    }
}

/// Routes an acknowledgment with identifier `id`.
///
/// The acknowledgment of a token hand-over is accepted when the hand-over succeeded and is
/// `Cw721TokenNotReceived` otherwise; any other identifier is `UnknownReply`.
pub fn reply(id: u64, acknowledged: bool) -> (r: Result<(), ContractError>)
    ensures
        r == if id != 1 {
            Err::<(), ContractError>(ContractError::UnknownReply)
        } else if acknowledged {
            Ok::<(), ContractError>(())
        } else {
            Err::<(), ContractError>(ContractError::Cw721TokenNotReceived)
        },
{
    match ReplyMsg::from(id) {
        ReplyMsg::TransferNft => transfer_nft_reply(acknowledged),
        ReplyMsg::Unknown => Err(ContractError::UnknownReply),
    }
}

} // verus!
