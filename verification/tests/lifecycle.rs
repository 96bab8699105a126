use prudent_pots::contract::{instantiate, reply};
use prudent_pots::execute::{
    allocate_tokens, game_end, reallocate_tokens, update_config, update_next_game,
};
use prudent_pots::helpers::game_end::prepare_next_game;
use prudent_pots::math::Decimal;
use prudent_pots::msg::{
    AddressValidation, AllocateTokensResponse, Attribute, InstantiateMsg,
    ReallocateTokensResponse, ReplyMsg, TransferNft, UpdateGameConfig,
};
use prudent_pots::query::{
    query_all_players_allocations, query_bid_range, query_game_config, query_game_state,
    query_player_allocations, query_player_reallocations, query_pot_state, query_pots_state,
    query_raffle, query_raffle_denom_split, query_raffle_winner, query_reallocation_fee_pool,
    query_winning_pots, BidRangeResponse,
};
use prudent_pots::reply::transfer_nft_reply;
use prudent_pots::state::{Coin, Game, GameConfig, GameState, Raffle, TokenAllocation};
use prudent_pots::ContractError;

const DENOM_GAME: &str = "udenom";
const GAME_DURATION: u64 = 3600;
const GAME_EXTEND: u64 = 600;
const ADMIN_ADDRESS: &str = "admin_address";
const ENGINE: &str = "engine";
const NFT: &str = "nft";
/// The time at which the fixture's game is created.
const T0: u64 = 1_571_797_419;

fn decimal(s: u128) -> Decimal {
    Decimal { atomics: s * 10_000_000_000_000_000 }
}

fn game_config() -> GameConfig {
    GameConfig {
        fee: 5,
        fee_reallocation: 5,
        fee_address: "treasury_addr".to_string(),
        game_denom: DENOM_GAME.to_string(),
        game_cw721_addrs: vec![NFT.to_string()],
        game_duration: GAME_DURATION,
        game_duration_epoch: GAME_EXTEND,
        game_extend: GAME_EXTEND,
        game_end_threshold: GAME_EXTEND,
        min_pot_initial_allocation: 1_000_000,
        decay_factor: decimal(5),
        reallocations_limit: 10,
    }
}

fn coins(amount: u128) -> Vec<Coin> {
    vec![Coin { denom: DENOM_GAME.to_string(), amount }]
}

fn admin() -> Option<String> {
    Some(ADMIN_ADDRESS.to_string())
}

fn s(text: &str) -> String {
    text.to_string()
}

/// Every address is one that the chain accepts.
fn accepted() -> AddressValidation {
    AddressValidation { fee_address: true, game_cw721_addrs: true }
}

fn note(key: &str, value: &str) -> Attribute {
    Attribute { key: s(key), value: s(value) }
}

/// The engine together with what it holds of the wager denomination.
struct Bank {
    game: Game,
    balance: u128,
    now: u64,
}

impl Bank {
    /// A game created with 5 000 000 one second before `T0`, so that its first round starts
    /// at `T0`.
    fn new() -> Bank {
        let game = instantiate(
            InstantiateMsg { config: game_config(), next_game_start: None },
            T0 - 1,
            &coins(5_000_000),
            5_000_000,
        )
        .unwrap();
        Bank { game, balance: 5_000_000, now: T0 }
    }

    fn increase_time(&mut self, seconds: u64) {
        self.now += seconds;
    }

    fn allocate(
        &mut self,
        user: &str,
        amount: u128,
        pot_id: u8,
    ) -> Result<AllocateTokensResponse, ContractError> {
        let r = allocate_tokens(&mut self.game, self.now, &s(user), &coins(amount), &vec![], pot_id);
        if r.is_ok() {
            self.balance += amount;
        }
        r
    }

    fn reallocate(
        &mut self,
        user: &str,
        from: u8,
        to: u8,
    ) -> Result<ReallocateTokensResponse, ContractError> {
        reallocate_tokens(&mut self.game, self.now, &s(user), from, to)
    }

    fn accounted(&self) -> u128 {
        self.game.pots.iter().sum::<u128>()
            + self.game.reallocation_fee_pool
            + self.game.raffle.denom_amount
    }
}

#[test]
fn test_allocate_tokens_works() {
    let mut bank = Bank::new();
    bank.allocate("user1", 1_000_000, 1).unwrap();
    assert_eq!(
        query_pot_state(&bank.game, 1).unwrap().pot,
        TokenAllocation { pot_id: 1, amount: 2_000_000 }
    );
}

#[test]
fn test_allocate_tokens_fails() {
    let mut bank = Bank::new();
    let before = bank.game.clone();
    let res = bank.allocate("user1", 1, 1).unwrap_err();
    if let ContractError::BidOutOfRange { min, max } = res {
        assert_eq!(min, 1000000u128);
        assert_eq!(max, 2000000u128);
    } else {
        panic!("Expected ContractError::BidOutOfRange");
    }
    assert_eq!(
        query_pot_state(&bank.game, 1).unwrap().pot,
        TokenAllocation { pot_id: 1, amount: 1_000_000 }
    );
    assert_eq!(bank.game, before);
}

#[test]
fn test_allocate_tokens_min_bet_works() {
    let mut bank = Bank::new();

    bank.allocate("user1", 1_000_000, 1).unwrap();
    assert_eq!(
        query_pot_state(&bank.game, 1).unwrap().pot,
        TokenAllocation { pot_id: 1, amount: 2_000_000 }
    );

    bank.allocate("user1", 1_000_000, 2).unwrap();
    assert_eq!(
        query_pot_state(&bank.game, 2).unwrap().pot,
        TokenAllocation { pot_id: 2, amount: 2_000_000 }
    );

    // epoch 1: the minimum is 1.0 * 1.05, the maximum 7 / 5 * 2
    bank.increase_time(GAME_EXTEND);
    let res = bank.allocate("user1", 1_000_000, 3).unwrap_err();
    if let ContractError::BidOutOfRange { min, max } = res {
        assert_eq!(min, 1050000u128);
        assert_eq!(max, 2800000u128);
    } else {
        panic!("Expected ContractError::BidOutOfRange");
    }
    assert_eq!(
        query_pot_state(&bank.game, 3).unwrap().pot,
        TokenAllocation { pot_id: 3, amount: 1_000_000 }
    );

    // epoch 5, one second before the end
    bank.increase_time(GAME_EXTEND * 5 - 1);
    let res = bank.allocate("user1", 1_200_000, 3).unwrap_err();
    if let ContractError::BidOutOfRange { min, max } = res {
        assert_eq!(min, 1250000u128);
        assert_eq!(max, 2800000u128);
    } else {
        panic!("Expected ContractError::BidOutOfRange");
    }
    bank.allocate("user1", 1_250_000, 3).unwrap();
    assert_eq!(
        query_pot_state(&bank.game, 3).unwrap().pot,
        TokenAllocation { pot_id: 3, amount: 2_250_000 }
    );

    // the round was extended once: 1 + 0.05 * 5 * 2
    let res = bank.allocate("user1", 1_450_000, 4).unwrap_err();
    if let ContractError::BidOutOfRange { min, max } = res {
        assert_eq!(min, 1500000u128);
        assert_eq!(max, 3300000u128);
    } else {
        panic!("Expected ContractError::BidOutOfRange");
    }
    bank.allocate("user1", 1_500_000, 4).unwrap();
    assert_eq!(
        query_pot_state(&bank.game, 4).unwrap().pot,
        TokenAllocation { pot_id: 4, amount: 2_500_000 }
    );
    assert_eq!(bank.accounted(), bank.balance);
}

#[test]
fn test_reallocate_tokens_works() {
    let mut bank = Bank::new();
    bank.allocate("user1", 1_000_000, 1).unwrap();
    let res = bank.reallocate("user1", 1, 2).unwrap();
    assert_eq!(res, ReallocateTokensResponse { round_count: 1, amount: 1_000_000, fee: 50_000 });
    assert_eq!(
        query_pots_state(&bank.game).pots,
        vec![
            TokenAllocation { pot_id: 1, amount: 1_000_000 },
            TokenAllocation { pot_id: 2, amount: (1_000_000 * 95 / 100) + 1_000_000 },
            TokenAllocation { pot_id: 3, amount: 1_000_000 },
            TokenAllocation { pot_id: 4, amount: 1_000_000 },
            TokenAllocation { pot_id: 5, amount: 1_000_000 },
        ]
    );
    assert_eq!(query_reallocation_fee_pool(&bank.game).reallocation_fee_pool, 50_000);
    assert_eq!(bank.accounted(), bank.balance);
}

#[test]
fn test_game_end_one_winner_simple_works() {
    let mut bank = Bank::new();
    let game_state = query_game_state(&bank.game);
    assert_eq!(game_state.state.extend_count, 0);
    assert_eq!(game_state.state.round_count, 1);

    bank.allocate("user1", 2_000_000, 1).unwrap();
    bank.allocate("user2", 1_400_001, 2).unwrap();
    bank.allocate("user3", 1_680_000, 3).unwrap();
    bank.allocate("user4", 2_016_000, 4).unwrap();
    bank.allocate("user5", 2_419_200, 5).unwrap();
    assert_eq!(bank.balance, 14_515_201u128);
    assert_eq!(bank.accounted(), bank.balance);

    let winning_pots = query_winning_pots(&bank.game);
    assert_eq!(winning_pots.pots.len(), 1);
    assert_eq!(winning_pots.pots[0], 5);

    bank.increase_time(GAME_DURATION + 1);
    let res = game_end(
        &mut bank.game,
        bank.now,
        &s(ADMIN_ADDRESS),
        &admin(),
        &s(ENGINE),
        bank.balance,
        &vec![],
        None,
        None,
        None,
    )
    .unwrap();

    let to_user5: u128 =
        res.msgs.iter().filter(|m| m.to_address == "user5").map(|m| m.amount).sum();
    assert_eq!(to_user5, 8_518_840u128);
    assert_eq!(res.winning_outgoing_tokens, 8_518_840);
    assert_eq!(res.treasury_outgoing_tokens, 448_360);
    assert_eq!(res.total_outgoing_tokens, 8_967_200);
    assert_eq!(res.winning_pots, vec![5]);
    assert_eq!(res.round_count, 1);
    assert_eq!(res.raffle_winner, Some(s("user5")));
    bank.balance -= res.total_outgoing_tokens;

    let pots_total: u128 = query_pots_state(&bank.game).pots.iter().map(|p| p.amount).sum();
    assert_eq!(pots_total, 5 * 1_109_600);
    assert!(bank.balance - pots_total < 5);
    assert_eq!(query_game_state(&bank.game).state.round_count, 2);
}

#[test]
fn test_game_end_one_winner_raffle_both_works() {
    // A game whose first round lasts one second, so that the raffle can be set at once.
    let mut config = game_config();
    config.game_duration = 1;
    let mut game = instantiate(
        InstantiateMsg { config, next_game_start: None },
        T0,
        &coins(5_000_000),
        5_000_000,
    )
    .unwrap();
    update_config(
        &mut game,
        &s(ADMIN_ADDRESS),
        &admin(),
        UpdateGameConfig {
            fee: None,
            fee_reallocation: None,
            fee_address: None,
            game_denom: None,
            game_cw721_addrs: vec![s(NFT)],
            game_duration: Some(GAME_DURATION),
            game_duration_epoch: None,
            game_extend: None,
            game_end_threshold: None,
            min_pot_initial_allocation: None,
            decay_factor: None,
            reallocations_limit: None,
        },
        accepted(),
    )
    .unwrap();
    let mut bank = Bank { game, balance: 5_000_000, now: T0 };
    bank.increase_time(2);
    bank.balance += 100_000_000;
    let first = game_end(
        &mut bank.game,
        bank.now,
        &s(ADMIN_ADDRESS),
        &admin(),
        &s(ENGINE),
        bank.balance,
        &coins(100_000_000),
        Some(s("1")),
        Some(s(NFT)),
        None,
    )
    .unwrap();
    assert!(first.msgs.is_empty());
    assert!(first.raffle_attributes.is_empty());
    assert_eq!(
        first.submsgs,
        vec![TransferNft { contract_addr: s(NFT), recipient: s(ENGINE), token_id: s("1") }]
    );

    let game_state = query_game_state(&bank.game);
    assert_eq!(game_state.state.extend_count, 0);
    assert_eq!(game_state.state.round_count, 2);
    assert_eq!(
        query_raffle(&bank.game).raffle,
        Raffle {
            cw721_token_id: Some(s("1")),
            cw721_addr: Some(s(NFT)),
            denom_amount: 100_000_000u128
        }
    );
    assert_eq!(bank.accounted(), bank.balance);

    // the round starts one second after the settlement
    bank.increase_time(1);
    bank.allocate("user1", 1_000_000, 5).unwrap();
    bank.allocate("user2", 1_500_000, 4).unwrap();
    bank.allocate("user3", 2_500_000, 3).unwrap();
    bank.allocate("user4", 2_500_000, 1).unwrap();
    bank.allocate("user5", 3_000_000, 1).unwrap();

    // one second is left: the reallocation extends the round
    bank.increase_time(GAME_DURATION - 1);
    bank.reallocate("user5", 1, 2).unwrap();
    assert_eq!(
        query_player_allocations(&bank.game, &s("user5")).allocations,
        vec![
            TokenAllocation { pot_id: 1, amount: 0 },
            TokenAllocation { pot_id: 2, amount: 3_000_000 * 95 / 100 }
        ]
    );
    assert_eq!(query_reallocation_fee_pool(&bank.game).reallocation_fee_pool, 150_000);
    assert_eq!(query_player_reallocations(&bank.game, &s("user5")).reallocations, 1);
    assert_eq!(query_game_state(&bank.game).state.extend_count, 1);
    assert_eq!(bank.accounted(), bank.balance);

    // one extension: the winner gets the raffle amount times the decay factor
    let split = query_raffle_denom_split(&bank.game).unwrap();
    assert_eq!(split.prize_to_distribute, 5_000_000u128);
    assert_eq!(split.prize_to_treasury, 95_000_000u128);

    bank.increase_time(601);
    assert_eq!(query_game_state(&bank.game).state.end_time, bank.now);

    let expected_sum = 5_000_000 + 1_000_000 + 1_500_000 + 2_500_000 + 2_500_000 + 2_850_000;
    let pots_state = query_pots_state(&bank.game);
    let total_sum: u128 = pots_state.pots.iter().fold(0, |acc, pot| acc + pot.amount);
    assert_eq!(expected_sum, total_sum);

    let winning_pots = query_winning_pots(&bank.game);
    assert_eq!(winning_pots.pots.len(), 1);
    assert_eq!(winning_pots.pots[0], 2);
    let winning = pots_state.pots[1].amount;
    assert_eq!(winning, 1_000_000 + 3_000_000 * 95u128 / 100u128);
    let losing = total_sum - winning;
    assert_eq!(losing, 11_500_000);
    assert_eq!(winning + losing / 2, 3_850_000 + 5_750_000);

    assert_eq!(query_raffle_winner(&bank.game).unwrap().raffle_winner, Some(s("user5")));

    bank.balance += 200_000_000;
    let res = game_end(
        &mut bank.game,
        bank.now,
        &s(ADMIN_ADDRESS),
        &admin(),
        &s(ENGINE),
        bank.balance,
        &coins(200_000_000),
        Some(s("2")),
        Some(s(NFT)),
        None,
    )
    .unwrap();
    bank.balance -= res.total_outgoing_tokens;

    let game_state = query_game_state(&bank.game);
    assert_eq!(game_state.state.extend_count, 0);
    assert_eq!(game_state.state.round_count, 3);
    assert_eq!(res.round_count, 2);
    assert_eq!(res.extend_count, 1);

    let to_user5: u128 =
        res.msgs.iter().filter(|m| m.to_address == "user5").map(|m| m.amount).sum();
    assert_eq!(
        to_user5,
        (1_000_000 + 3_000_000) - 192_500u128 - 150_000 + 5_750_000u128 - 287_500u128
            + split.prize_to_distribute
    );
    let to_treasury: u128 =
        res.msgs.iter().filter(|m| m.to_address == "treasury_addr").map(|m| m.amount).sum();
    assert_eq!(to_treasury, 150_000u128 + 192_500u128 + 287_500u128 + split.prize_to_treasury);
    assert_eq!(res.treasury_outgoing_tokens, 150_000 + 192_500 + 287_500);
    assert_eq!(res.winning_outgoing_tokens, 9_120_000);
    assert_eq!(res.total_outgoing_tokens, 109_750_000);

    assert_eq!(
        res.submsgs,
        vec![
            TransferNft { contract_addr: s(NFT), recipient: s("user5"), token_id: s("1") },
            TransferNft { contract_addr: s(NFT), recipient: s(ENGINE), token_id: s("2") },
        ]
    );
    assert_eq!(
        res.raffle_attributes,
        vec![
            note("raffle_winner", "user5"),
            note("raffle_outgoing_nft_addr", NFT),
            note("raffle_outgoing_nft_id", "1"),
            note("raffle_outgoing_tokens_winner", "user5"),
            note("raffle_outgoing_tokens_treasury", "treasury_addr"),
        ]
    );
    assert_eq!(
        query_raffle(&bank.game).raffle,
        Raffle {
            cw721_token_id: Some(s("2")),
            cw721_addr: Some(s(NFT)),
            denom_amount: 200_000_000u128
        }
    );

    let pots_total: u128 = query_pots_state(&bank.game).pots.iter().map(|p| p.amount).sum();
    assert_eq!(pots_total, 5 * 1_150_000);
    assert_eq!(bank.balance - 200_000_000u128, pots_total);
    assert_eq!(bank.accounted(), bank.balance);
    assert!(query_all_players_allocations(&bank.game).allocations.is_empty());
    assert_eq!(query_player_reallocations(&bank.game, &s("user5")).reallocations, 0);
    assert_eq!(query_reallocation_fee_pool(&bank.game).reallocation_fee_pool, 0);
}

#[test]
fn test_update_config_works() {
    let mut bank = Bank::new();
    update_config(
        &mut bank.game,
        &s(ADMIN_ADDRESS),
        &admin(),
        UpdateGameConfig {
            fee: Some(10),
            fee_reallocation: Some(10),
            fee_address: Some(s("new_address")),
            game_denom: Some(s("new_denom")),
            game_cw721_addrs: vec![s("test")],
            game_duration: Some(GAME_DURATION * 2),
            game_duration_epoch: Some(600 * 3),
            game_extend: Some(600 * 3),
            game_end_threshold: Some(600 * 3),
            min_pot_initial_allocation: Some(1_000_000u128),
            decay_factor: Some(decimal(50)),
            reallocations_limit: Some(10),
        },
        accepted(),
    )
    .unwrap();
    let expected = GameConfig {
        fee: 10,
        fee_reallocation: 10,
        fee_address: s("new_address"),
        game_denom: s("new_denom"),
        game_cw721_addrs: vec![s("test")],
        game_duration: GAME_DURATION * 2,
        game_duration_epoch: 600 * 3,
        game_extend: 600 * 3,
        game_end_threshold: 600 * 3,
        min_pot_initial_allocation: 1_000_000u128,
        decay_factor: decimal(50),
        reallocations_limit: 10,
    };
    assert_eq!(query_game_config(&bank.game).config, expected);
}

#[test]
fn test_update_next_game_works() {
    let mut bank = Bank::new();
    let game_state = query_game_state(&bank.game);
    assert_eq!(game_state.state.extend_count, 0);
    assert_eq!(game_state.state.round_count, 1);

    bank.increase_time(GAME_DURATION);
    let next_game_start = bank.now + GAME_DURATION;
    game_end(
        &mut bank.game,
        bank.now,
        &s(ADMIN_ADDRESS),
        &admin(),
        &s(ENGINE),
        bank.balance,
        &vec![],
        None,
        None,
        Some(next_game_start),
    )
    .unwrap();
    assert_eq!(query_game_state(&bank.game).state.start_time, next_game_start);

    let next_game_start = bank.now + GAME_DURATION * 2;
    update_next_game(
        &mut bank.game,
        bank.now,
        &s(ADMIN_ADDRESS),
        &admin(),
        &s(ENGINE),
        &vec![],
        None,
        None,
        Some(next_game_start),
    )
    .unwrap();
    let game_state = query_game_state(&bank.game);
    let raffle_state = query_raffle(&bank.game);
    assert_eq!(game_state.state.start_time, next_game_start);
    assert_eq!(game_state.state.end_time, next_game_start + GAME_DURATION);
    assert_eq!(raffle_state.raffle.cw721_token_id, None);
    assert_eq!(raffle_state.raffle.cw721_addr, None);

    let res = update_next_game(
        &mut bank.game,
        bank.now,
        &s(ADMIN_ADDRESS),
        &admin(),
        &s(ENGINE),
        &vec![],
        Some(s("1")),
        Some(s(NFT)),
        None,
    )
    .unwrap();
    assert_eq!(
        res.submsgs,
        vec![TransferNft { contract_addr: s(NFT), recipient: s(ENGINE), token_id: s("1") }]
    );
    let game_state = query_game_state(&bank.game);
    let raffle_state = query_raffle(&bank.game);
    assert_eq!(game_state.state.start_time, next_game_start);
    assert_eq!(raffle_state.raffle.cw721_token_id, Some(s("1")));
    assert_eq!(raffle_state.raffle.cw721_addr, Some(s(NFT)));
    assert_eq!(raffle_state.raffle.denom_amount, 0);

    let before = bank.game.clone();
    let err = update_next_game(
        &mut bank.game,
        bank.now,
        &s(ADMIN_ADDRESS),
        &admin(),
        &s(ENGINE),
        &vec![],
        Some(s("2")),
        Some(s(NFT)),
        None,
    )
    .unwrap_err();
    assert_eq!(err, ContractError::InvalidRaffleNft);
    assert_eq!(bank.game, before);

    bank.balance += 10_000_000;
    let res = update_next_game(
        &mut bank.game,
        bank.now,
        &s(ADMIN_ADDRESS),
        &admin(),
        &s(ENGINE),
        &coins(10_000_000),
        None,
        None,
        None,
    )
    .unwrap();
    assert_eq!(res.raffle_denom_amount, 10_000_000);
    assert!(res.submsgs.is_empty());
    assert_eq!(query_raffle(&bank.game).raffle.denom_amount, 10_000_000u128);
    assert_eq!(bank.accounted(), bank.balance);
}

fn old_round(balance_pots: u128, min: u128) -> Game {
    let mut config = game_config();
    config.min_pot_initial_allocation = min;
    config.game_denom = s("token");
    config.fee = 2;
    Game {
        config,
        state: GameState { round_count: 4, extend_count: 2, start_time: T0 - 3600, end_time: T0 },
        pots: [balance_pots; 5],
        players: vec![],
        reallocations: vec![],
        first_bidders: [None, None, None, None, None],
        reallocation_fee_pool: 0,
        raffle: Raffle { cw721_token_id: None, cw721_addr: None, denom_amount: 0 },
    }
}

#[test]
fn game_end_test_game_end_with_no_player_allocations() {
    let mut game = old_round(10, 10);
    let admin = Some(s("sender"));
    game_end(&mut game, T0, &s("sender"), &admin, &s(ENGINE), 50, &vec![], None, None, None)
        .unwrap();
    for pot_id in 1..=5 {
        let pot_state = query_pot_state(&game, pot_id).unwrap();
        assert!(pot_state.pot.amount > 0, "Pot {} should have initial tokens for the next game", pot_id);
    }
    assert_eq!(
        query_reallocation_fee_pool(&game).reallocation_fee_pool,
        0,
        "Reallocation fee pool should be reset to zero for the next game"
    );
}

#[test]
fn prepare_next_game_test_game_end_with_no_player_allocations() {
    let mut game = old_round(1000, 1000);
    game.reallocation_fee_pool = 0;
    let admin = Some(s("sender"));
    let res =
        game_end(&mut game, T0, &s("sender"), &admin, &s(ENGINE), 5000, &vec![], None, None, None)
            .unwrap();
    assert!(game.state.start_time > T0, "New game should start in the future");
    for pot_id in 1..=5 {
        let pot_state = query_pot_state(&game, pot_id).unwrap();
        assert!(pot_state.pot.amount > 0, "Pot {} should have initial tokens for the next game", pot_id);
        assert_eq!(pot_state.pot.amount, 1000);
    }
    assert_eq!(
        query_reallocation_fee_pool(&game).reallocation_fee_pool,
        0,
        "Reallocation fee pool should be reset to zero for the next game"
    );
    assert_eq!(res.round_count, 4);
    assert_eq!(res.extend_count, 2);
    assert_eq!(game.state, GameState { round_count: 5, extend_count: 0, start_time: T0 + 1, end_time: T0 + 3601 });
}

#[test]
fn prepare_next_game_no_raffle_works() {
    let mut config = game_config();
    config.min_pot_initial_allocation = 200;
    config.game_denom = s("token");
    let funds = vec![Coin { denom: s("token"), amount: 1000 }];
    let mut game =
        instantiate(InstantiateMsg { config, next_game_start: None }, T0, &funds, 1300).unwrap();
    game.players.push(prudent_pots::state::PlayerAllocations {
        player: s("player1"),
        allocations: vec![TokenAllocation { pot_id: 5, amount: 100 }],
    });
    game.pots[4] += 100;
    game.reallocation_fee_pool = 100;

    prepare_next_game(&mut game, T0, 1300, 0, None, None, None, None).unwrap();

    assert_eq!(game.state.start_time, T0 + 1);
    assert_eq!(game.state.end_time, T0 + 1 + 3600);
    for pot_id in 1..=5 {
        let pot_state = query_pot_state(&game, pot_id).unwrap();
        assert_eq!(pot_state.pot.amount, 260u128);
    }
    assert!(game.players.is_empty());
}

#[test]
fn reset_with_too_little_balance_fails_and_changes_nothing() {
    let mut game = old_round(10, 261);
    game.reallocation_fee_pool = 100;
    let before = game.clone();
    assert_eq!(
        prepare_next_game(&mut game, T0, 1300, 0, None, None, None, None),
        Err(ContractError::NotEnoughFundsForNextRound)
    );
    assert_eq!(game, before);
    // an empty balance seeds nothing
    let mut game = old_round(10, 1);
    game.reallocation_fee_pool = 100;
    let before = game.clone();
    assert_eq!(
        prepare_next_game(&mut game, T0, 0, 0, None, None, None, None),
        Err(ContractError::NotEnoughFundsForNextRound)
    );
    assert_eq!(game, before);
    // what goes out and what is reserved must be covered
    assert_eq!(
        prepare_next_game(&mut game, T0, 1300, 1301, None, None, None, None),
        Err(ContractError::OverflowError)
    );
    assert_eq!(
        prepare_next_game(&mut game, T0, 1300, 1000, None, None, Some(301), None),
        Err(ContractError::OverflowError)
    );
    assert_eq!(game, before);
    // with exactly the minimum the reset works and keeps the fee pool
    let mut game = old_round(10, 260);
    game.reallocation_fee_pool = 100;
    assert_eq!(
        prepare_next_game(&mut game, T0, 1304, 0, Some(s("7")), Some(s(NFT)), None, Some(T0 + 50)),
        Ok((4, 5, 2))
    );
    assert_eq!(game.pots, [260; 5]);
    assert_eq!(game.reallocation_fee_pool, 100);
    assert_eq!(game.raffle.cw721_token_id, Some(s("7")));
    assert_eq!(game.state.start_time, T0 + 50);
    assert_eq!(game.state.end_time, T0 + 3650);
}

#[test]
fn reset_time_errors() {
    let mut game = old_round(10, 1);
    game.config.game_duration = 0;
    assert_eq!(
        prepare_next_game(&mut game, T0, 1300, 0, None, None, None, None),
        Err(ContractError::InvalidInput)
    );
    let mut game = old_round(10, 1);
    assert_eq!(
        prepare_next_game(&mut game, u64::MAX, 1300, 0, None, None, None, None),
        Err(ContractError::OverflowError)
    );
    assert_eq!(
        prepare_next_game(&mut game, T0, 1300, 0, None, None, None, Some(u64::MAX)),
        Err(ContractError::OverflowError)
    );
    game.state.round_count = u64::MAX;
    assert_eq!(
        prepare_next_game(&mut game, T0, 1300, 0, None, None, None, None),
        Err(ContractError::InvalidInput)
    );
}

#[test]
fn instantiate_checks_its_parameters() {
    let msg = |f: &dyn Fn(&mut GameConfig)| {
        let mut config = game_config();
        f(&mut config);
        InstantiateMsg { config, next_game_start: None }
    };
    let ok = instantiate(msg(&|_| {}), T0, &coins(5_000_000), 5_000_000).unwrap();
    assert_eq!(ok.pots, [1_000_000; 5]);
    assert_eq!(ok.state, GameState { round_count: 1, extend_count: 0, start_time: T0 + 1, end_time: T0 + 3601 });
    assert_eq!(ok.raffle, Raffle { cw721_token_id: None, cw721_addr: None, denom_amount: 0 });
    assert_eq!(
        instantiate(msg(&|c| c.fee = 101), T0, &coins(5_000_000), 5_000_000),
        Err(ContractError::InvalidInput)
    );
    assert_eq!(
        instantiate(msg(&|c| c.fee_reallocation = 101), T0, &coins(5_000_000), 5_000_000),
        Err(ContractError::InvalidInput)
    );
    assert_eq!(
        instantiate(msg(&|c| c.game_duration = 0), T0, &coins(5_000_000), 5_000_000),
        Err(ContractError::InvalidInput)
    );
    assert_eq!(
        instantiate(msg(&|c| c.min_pot_initial_allocation = 0), T0, &coins(5_000_000), 5_000_000),
        Err(ContractError::InvalidInput)
    );
    assert_eq!(
        instantiate(msg(&|_| {}), T0, &vec![], 5_000_000),
        Err(ContractError::InvalidFunds)
    );
    assert_eq!(
        instantiate(msg(&|_| {}), T0, &coins(4_999_999), 5_000_000),
        Err(ContractError::NotEnoughFundsForNextRound)
    );
    // the whole balance is seeded, not only the funds of the call
    let rich = instantiate(msg(&|_| {}), T0, &coins(5_000_000), 6_000_003).unwrap();
    assert_eq!(rich.pots, [1_200_000; 5]);
    let later = instantiate(
        InstantiateMsg { config: game_config(), next_game_start: Some(T0 + 100) },
        T0,
        &coins(5_000_000),
        5_000_000,
    )
    .unwrap();
    assert_eq!(later.state.start_time, T0 + 100);
}

#[test]
fn deposit_errors_change_nothing() {
    let mut bank = Bank::new();
    let before = bank.game.clone();
    let mut try_deposit = |now: u64, funds: Vec<Coin>, pot_id: u8| {
        let r = allocate_tokens(&mut bank.game, now, &s("user1"), &funds, &vec![], pot_id);
        assert_eq!(bank.game, before);
        r.unwrap_err()
    };
    assert_eq!(try_deposit(T0 - 1, coins(1_000_000), 1), ContractError::GameNotStarted);
    assert_eq!(try_deposit(T0 + 3600, coins(1_000_000), 1), ContractError::GameAlreadyEnded);
    assert_eq!(try_deposit(T0, vec![], 1), ContractError::InvalidFunds);
    assert_eq!(
        try_deposit(T0, vec![Coin { denom: s("other"), amount: 1_000_000 }], 1),
        ContractError::InvalidFunds
    );
    assert_eq!(try_deposit(T0, coins(1_000_000), 0), ContractError::InvalidPot);
    assert_eq!(try_deposit(T0, coins(1_000_000), 6), ContractError::InvalidPot);
    assert_eq!(try_deposit(T0, coins(4_000_001), 1), ContractError::PotLimitReached);
    assert_eq!(
        try_deposit(T0, coins(2_000_001), 1),
        ContractError::BidOutOfRange { min: 1_000_000, max: 2_000_000 }
    );
    assert_eq!(
        try_deposit(T0, coins(999_999), 1),
        ContractError::BidOutOfRange { min: 1_000_000, max: 2_000_000 }
    );
}

#[test]
fn deposit_records_stake_and_first_bidder() {
    let mut bank = Bank::new();
    let r = bank.allocate("user1", 1_500_000, 3).unwrap();
    assert_eq!(r, AllocateTokensResponse { round_count: 1, amount: 1_500_000 });
    assert_eq!(bank.game.pots, [1_000_000, 1_000_000, 2_500_000, 1_000_000, 1_000_000]);
    assert_eq!(
        query_player_allocations(&bank.game, &s("user1")).allocations,
        vec![TokenAllocation { pot_id: 3, amount: 1_500_000 }]
    );
    assert_eq!(bank.game.first_bidders[2].as_ref().unwrap().bidder, "user1");
    assert_eq!(bank.game.first_bidders[2].as_ref().unwrap().time, T0);
    // a second deposit into the same pot is refused
    assert_eq!(bank.allocate("user1", 1_500_000, 3), Err(ContractError::AlreadyAllocated));
    // another player deposits later: the first bidder stays
    bank.increase_time(5);
    bank.allocate("user2", 1_000_000, 3).unwrap();
    assert_eq!(bank.game.first_bidders[2].as_ref().unwrap().bidder, "user1");
    assert_eq!(bank.game.first_bidders[2].as_ref().unwrap().time, T0);
    assert_eq!(bank.game.players.len(), 2);
    assert_eq!(bank.game.state.extend_count, 0);
    assert_eq!(bank.accounted(), bank.balance);
    // a holder of two tokens may deposit less
    assert_eq!(
        query_bid_range(&bank.game, bank.now, &vec![2]),
        Ok(BidRangeResponse { min_bid: 902_500, max_bid: 3_000_000 })
    );
    let r = allocate_tokens(&mut bank.game, bank.now, &s("user3"), &coins(902_500), &vec![2], 1);
    assert_eq!(r, Ok(AllocateTokensResponse { round_count: 1, amount: 902_500 }));
    let r = allocate_tokens(&mut bank.game, bank.now, &s("user4"), &coins(902_500), &vec![1], 2);
    assert!(matches!(r, Err(ContractError::BidOutOfRange { min: 950_000, .. })));
}

#[test]
fn late_deposit_extends_the_round() {
    let mut bank = Bank::new();
    bank.increase_time(GAME_DURATION - GAME_EXTEND - 1);
    bank.allocate("user1", 1_500_000, 1).unwrap();
    assert_eq!(bank.game.state.end_time, T0 + GAME_DURATION);
    assert_eq!(bank.game.state.extend_count, 0);
    bank.increase_time(1);
    bank.allocate("user1", 1_500_000, 2).unwrap();
    assert_eq!(bank.game.state.end_time, T0 + GAME_DURATION + GAME_EXTEND);
    assert_eq!(bank.game.state.extend_count, 1);
    // the deposit came too late for the round after its end
    bank.increase_time(GAME_EXTEND + GAME_EXTEND);
    assert_eq!(bank.allocate("user1", 1_500_000, 3), Err(ContractError::GameAlreadyEnded));
}

#[test]
fn reallocation_errors_change_nothing() {
    let mut bank = Bank::new();
    bank.allocate("user1", 1_000_000, 1).unwrap();
    bank.allocate("user1", 1_000_000, 2).unwrap();
    let before = bank.game.clone();
    let mut attempt = |now: u64, user: &str, from: u8, to: u8| {
        let r = reallocate_tokens(&mut bank.game, now, &s(user), from, to);
        assert_eq!(bank.game, before);
        r.unwrap_err()
    };
    assert_eq!(attempt(T0, "user1", 1, 1), ContractError::InvalidPot);
    assert_eq!(attempt(T0 - 1, "user1", 1, 3), ContractError::GameNotStarted);
    assert_eq!(attempt(T0 + GAME_DURATION, "user1", 1, 3), ContractError::GameAlreadyEnded);
    assert_eq!(attempt(T0, "user1", 1, 2), ContractError::AlreadyAllocated);
    assert_eq!(attempt(T0, "user1", 3, 4), ContractError::InsufficientFunds);
    assert_eq!(attempt(T0, "user2", 1, 3), ContractError::InsufficientFunds);
    assert_eq!(attempt(T0, "user1", 1, 6), ContractError::InvalidPot);
    assert_eq!(attempt(T0, "user1", 0, 3), ContractError::InsufficientFunds);
}

#[test]
fn reallocation_respects_the_pot_limit() {
    let mut bank = Bank::new();
    bank.game.pots = [9_000_000, 1_000_000, 1_000_000, 1_000_000, 1_000_000];
    bank.game.players.push(prudent_pots::state::PlayerAllocations {
        player: s("whale"),
        allocations: vec![TokenAllocation { pot_id: 1, amount: 8_000_000 }],
    });
    let before = bank.game.clone();
    // pot 2 would hold 9 000 000 against 12 000 000 in the others before the move
    assert_eq!(bank.reallocate("whale", 1, 2).map(|r| r.fee), Ok(400_000));
    bank.game = before.clone();
    bank.game.pots[0] = 8_000_000;
    let before = bank.game.clone();
    // now the others hold 11 000 000 and the move is still within the limit
    assert!(bank.reallocate("whale", 1, 2).is_ok());
    bank.game = before;
    bank.game.pots = [8_000_000, 1_000_000, 0, 0, 0];
    let before = bank.game.clone();
    assert_eq!(bank.reallocate("whale", 1, 2), Err(ContractError::PotLimitReached));
    assert_eq!(bank.game, before);
    // a stake that the pot does not hold cannot leave it
    bank.game.pots = [7_999_999, 1_000_000, 9_000_000, 0, 0];
    let before = bank.game.clone();
    assert_eq!(bank.reallocate("whale", 1, 2), Err(ContractError::InsufficientFunds));
    assert_eq!(bank.game, before);
}

#[test]
fn reallocation_limit_is_enforced_and_reset() {
    let mut config = game_config();
    config.reallocations_limit = 3;
    config.fee_reallocation = 0;
    let game = instantiate(
        InstantiateMsg { config, next_game_start: None },
        T0 - 1,
        &coins(5_000_000),
        5_000_000,
    )
    .unwrap();
    let mut bank = Bank { game, balance: 5_000_000, now: T0 };
    bank.allocate("user1", 1_000_000, 1).unwrap();
    bank.allocate("user2", 1_000_000, 1).unwrap();
    assert!(bank.reallocate("user1", 1, 2).is_ok());
    assert!(bank.reallocate("user1", 2, 3).is_ok());
    assert!(bank.reallocate("user1", 3, 4).is_ok());
    assert_eq!(query_player_reallocations(&bank.game, &s("user1")).reallocations, 3);
    let before = bank.game.clone();
    assert_eq!(bank.reallocate("user1", 4, 5), Err(ContractError::ReallocationsLimitReached));
    assert_eq!(bank.game, before);
    // the limit is the player's own
    assert!(bank.reallocate("user2", 1, 5).is_ok());
    assert_eq!(bank.accounted(), bank.balance);

    bank.increase_time(GAME_DURATION);
    let res = game_end(
        &mut bank.game,
        bank.now,
        &s(ADMIN_ADDRESS),
        &admin(),
        &s(ENGINE),
        bank.balance,
        &vec![],
        None,
        None,
        None,
    )
    .unwrap();
    bank.balance -= res.total_outgoing_tokens;
    assert_eq!(query_player_reallocations(&bank.game, &s("user1")).reallocations, 0);
    bank.increase_time(1);
    bank.allocate("user1", 1_000_000, 1).unwrap();
    assert!(bank.reallocate("user1", 1, 2).is_ok());
    assert_eq!(query_player_reallocations(&bank.game, &s("user1")).reallocations, 1);
}

#[test]
fn limit_is_reported_before_the_clock_is_looked_at() {
    let mut bank = Bank::new();
    bank.game.config.reallocations_limit = 1;
    bank.allocate("user1", 1_000_000, 1).unwrap();
    bank.reallocate("user1", 1, 2).unwrap();
    // a late action whose extension would leave the range of the clock
    bank.game.state.end_time = u64::MAX;
    bank.game.config.game_extend = u64::MAX;
    bank.now = u64::MAX - 1;
    let before = bank.game.clone();
    assert_eq!(bank.reallocate("user1", 2, 3), Err(ContractError::ReallocationsLimitReached));
    assert_eq!(bank.reallocate("user2", 2, 3), Err(ContractError::InsufficientFunds));
    assert_eq!(bank.game, before);
    // an action that is accepted otherwise fails on the clock
    bank.game.config.reallocations_limit = 2;
    let before = bank.game.clone();
    assert_eq!(bank.reallocate("user1", 2, 3), Err(ContractError::OverflowError));
    assert_eq!(bank.game, before);
}

#[test]
fn zero_limit_allows_no_reallocation() {
    let mut bank = Bank::new();
    bank.game.config.reallocations_limit = 0;
    bank.allocate("user1", 1_000_000, 1).unwrap();
    assert_eq!(bank.reallocate("user1", 1, 2), Err(ContractError::ReallocationsLimitReached));
}

#[test]
fn settlement_is_guarded() {
    let mut bank = Bank::new();
    let before = bank.game.clone();
    let end = T0 + GAME_DURATION;
    let mut attempt = |now: u64,
                       who: &str,
                       admin: Option<String>,
                       id: Option<String>,
                       addr: Option<String>,
                       start: Option<u64>,
                       balance: u128| {
        let r = game_end(
            &mut bank.game,
            now,
            &s(who),
            &admin,
            &s(ENGINE),
            balance,
            &vec![],
            id,
            addr,
            start,
        );
        assert_eq!(bank.game, before);
        r.unwrap_err()
    };
    assert_eq!(
        attempt(end - 1, ADMIN_ADDRESS, admin(), None, None, None, 5_000_000),
        ContractError::GameStillActive
    );
    assert_eq!(
        attempt(end, "user1", admin(), None, None, None, 5_000_000),
        ContractError::Unauthorized
    );
    assert_eq!(
        attempt(end + GAME_EXTEND - 1, "user1", admin(), None, None, None, 5_000_000),
        ContractError::Unauthorized
    );
    assert_eq!(
        attempt(end, ADMIN_ADDRESS, admin(), None, None, Some(end), 5_000_000),
        ContractError::InvalidNextGameStart
    );
    assert_eq!(
        attempt(end, ADMIN_ADDRESS, admin(), Some(s("1")), None, None, 5_000_000),
        ContractError::InvalidRaffleNft
    );
    assert_eq!(
        attempt(end, ADMIN_ADDRESS, admin(), None, Some(s(NFT)), None, 5_000_000),
        ContractError::InvalidRaffleNft
    );
    assert_eq!(
        attempt(end, ADMIN_ADDRESS, admin(), None, None, None, 4_999_999),
        ContractError::NotEnoughFundsForNextRound
    );
    // after the grace period anybody may settle
    let mut open = before.clone();
    assert!(game_end(
        &mut open,
        end + GAME_EXTEND,
        &s("user1"),
        &admin(),
        &s(ENGINE),
        5_000_000,
        &vec![],
        None,
        None,
        None
    )
    .is_ok());
    // without an administrator nobody may settle before the grace period is over
    let mut open = before.clone();
    for who in ["user1", ADMIN_ADDRESS] {
        assert_eq!(
            game_end(
                &mut open,
                end + GAME_EXTEND - 1,
                &s(who),
                &None,
                &s(ENGINE),
                5_000_000,
                &vec![],
                None,
                None,
                None
            ),
            Err(ContractError::Unauthorized)
        );
        assert_eq!(open, before);
    }
    assert!(game_end(
        &mut open,
        end + GAME_EXTEND,
        &s("user1"),
        &None,
        &s(ENGINE),
        5_000_000,
        &vec![],
        None,
        None,
        None
    )
    .is_ok());
}

#[test]
fn administration_is_guarded() {
    let mut bank = Bank::new();
    let before = bank.game.clone();
    let change = |f: &dyn Fn(&mut UpdateGameConfig)| {
        let mut u = UpdateGameConfig {
            fee: None,
            fee_reallocation: None,
            fee_address: None,
            game_denom: None,
            game_cw721_addrs: vec![s(NFT)],
            game_duration: None,
            game_duration_epoch: None,
            game_extend: None,
            game_end_threshold: None,
            min_pot_initial_allocation: None,
            decay_factor: None,
            reallocations_limit: None,
        };
        f(&mut u);
        u
    };
    assert_eq!(
        update_config(&mut bank.game, &s("user1"), &admin(), change(&|_| {}), accepted()),
        Err(ContractError::Unauthorized)
    );
    assert_eq!(
        update_config(&mut bank.game, &s(ADMIN_ADDRESS), &None, change(&|_| {}), accepted()),
        Err(ContractError::Unauthorized)
    );
    for bad in [
        change(&|u| u.fee = Some(11)),
        change(&|u| u.fee_reallocation = Some(51)),
        change(&|u| u.game_extend = Some(GAME_DURATION + 1)),
        change(&|u| {
            u.game_duration = Some(10);
            u.game_extend = Some(11)
        }),
        change(&|u| u.decay_factor = Some(Decimal { atomics: 9_999_999_999_999_999 })),
        change(&|u| u.decay_factor = Some(Decimal { atomics: 990_000_000_000_000_001 })),
    ] {
        assert_eq!(
            update_config(&mut bank.game, &s(ADMIN_ADDRESS), &admin(), bad, accepted()),
            Err(ContractError::InvalidInput)
        );
        assert_eq!(bank.game, before);
    }
    // the order of the checks: the administrator, the fees, the addresses, the rest
    let refused = AddressValidation { fee_address: false, game_cw721_addrs: false };
    let attempt = |game: &mut Game, who: &str, u: UpdateGameConfig, a: AddressValidation| {
        let r = update_config(game, &s(who), &admin(), u, a);
        assert_eq!(*game, before);
        r
    };
    let new_treasury = |u: &mut UpdateGameConfig| u.fee_address = Some(s("not an address"));
    let new_collection = |u: &mut UpdateGameConfig| u.game_cw721_addrs = vec![s("not an address")];
    assert_eq!(
        attempt(&mut bank.game, "user1", change(&new_treasury), refused),
        Err(ContractError::Unauthorized)
    );
    assert_eq!(
        attempt(
            &mut bank.game,
            ADMIN_ADDRESS,
            change(&|u| {
                u.fee = Some(11);
                u.fee_address = Some(s("not an address"))
            }),
            refused
        ),
        Err(ContractError::InvalidInput)
    );
    assert_eq!(
        attempt(&mut bank.game, ADMIN_ADDRESS, change(&new_treasury), refused),
        Err(ContractError::InvalidAddress)
    );
    assert_eq!(
        attempt(&mut bank.game, ADMIN_ADDRESS, change(&new_collection), refused),
        Err(ContractError::InvalidAddress)
    );
    assert_eq!(
        attempt(
            &mut bank.game,
            ADMIN_ADDRESS,
            change(&|u| {
                u.game_cw721_addrs = vec![s("not an address")];
                u.game_extend = Some(GAME_DURATION + 1)
            }),
            refused
        ),
        Err(ContractError::InvalidAddress)
    );
    // what the change does not name is not looked at
    assert_eq!(
        attempt(
            &mut bank.game,
            ADMIN_ADDRESS,
            change(&|u| u.game_extend = Some(GAME_DURATION + 1)),
            refused
        ),
        Err(ContractError::InvalidInput)
    );
    let mut other = before.clone();
    assert_eq!(
        update_config(&mut other, &s(ADMIN_ADDRESS), &admin(), change(&|_| {}), refused),
        Ok(())
    );
    assert_eq!(other, before);
    assert_eq!(
        update_config(
            &mut bank.game,
            &s(ADMIN_ADDRESS),
            &admin(),
            change(&|u| {
                u.fee = Some(10);
                u.fee_reallocation = Some(50);
                u.game_duration = Some(7200);
                u.game_extend = Some(7200);
                u.decay_factor = Some(decimal(1));
            }),
            accepted()
        ),
        Ok(())
    );
    assert_eq!(bank.game.config.fee, 10);
    assert_eq!(bank.game.config.game_extend, 7200);
    assert_eq!(bank.game.config.fee_address, "treasury_addr");
    assert_eq!(bank.game.pots, before.pots);

    let before = bank.game.clone();
    let mut attempt = |who: &str, funds: Vec<Coin>, id: Option<String>, addr: Option<String>, start: Option<u64>| {
        let r = update_next_game(&mut bank.game, T0, &s(who), &admin(), &s(ENGINE), &funds, id, addr, start);
        assert_eq!(bank.game, before);
        r.unwrap_err()
    };
    assert_eq!(attempt("user1", coins(5), None, None, None), ContractError::Unauthorized);
    assert_eq!(attempt(ADMIN_ADDRESS, vec![], None, None, None), ContractError::InvalidInput);
    assert_eq!(attempt(ADMIN_ADDRESS, vec![], None, Some(s(NFT)), None), ContractError::InvalidInput);
    assert_eq!(attempt(ADMIN_ADDRESS, vec![], None, None, Some(T0)), ContractError::InvalidNextGameStart);
    assert_eq!(attempt(ADMIN_ADDRESS, vec![], Some(s("1")), None, None), ContractError::InvalidRaffleNft);
    assert_eq!(attempt(ADMIN_ADDRESS, vec![], None, None, Some(u64::MAX)), ContractError::OverflowError);
}

#[test]
fn acknowledgments() {
    assert_eq!(transfer_nft_reply(true), Ok(()));
    assert_eq!(transfer_nft_reply(false), Err(ContractError::Cw721TokenNotReceived));
    assert_eq!(reply(1, true), Ok(()));
    assert_eq!(reply(1, false), Err(ContractError::Cw721TokenNotReceived));
    assert_eq!(reply(0, true), Err(ContractError::UnknownReply));
    assert_eq!(reply(2, true), Err(ContractError::UnknownReply));
    assert_eq!(ReplyMsg::from(1), ReplyMsg::TransferNft);
    assert_eq!(ReplyMsg::from(7), ReplyMsg::Unknown);
    assert_eq!(u64::from(ReplyMsg::TransferNft), 1);
    assert_eq!(u64::from(ReplyMsg::Unknown), 2);
    assert_eq!(GameState::default(), GameState { round_count: 0, extend_count: 0, start_time: 0, end_time: 0 });
}

#[test]
fn queries_on_unknown_things() {
    let bank = Bank::new();
    assert_eq!(query_pot_state(&bank.game, 0), Err(ContractError::InvalidPot));
    assert_eq!(query_pot_state(&bank.game, 6), Err(ContractError::InvalidPot));
    assert!(query_player_allocations(&bank.game, &s("nobody")).allocations.is_empty());
    assert_eq!(query_player_reallocations(&bank.game, &s("nobody")).reallocations, 0);
    assert_eq!(query_raffle_winner(&bank.game).unwrap().raffle_winner, None);
    assert_eq!(query_winning_pots(&bank.game).pots, vec![2]);
    assert_eq!(query_bid_range(&bank.game, T0 - 1, &vec![]), Err(ContractError::GameNotStarted));
}
