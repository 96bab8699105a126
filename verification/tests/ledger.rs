use prudent_pots::helpers::pot::{
    find_player, find_record, get_all_token_counts, set_first_bidder_if_not_set,
    update_player_allocation, update_pot_state,
};
use prudent_pots::helpers::validate::{
    find_counter, has_stake, validate_and_extend_game_time, validate_existing_allocation,
    validate_funds, validate_game_end_time, validate_game_time,
    validate_increase_player_reallocations, validate_is_contract_admin,
    validate_is_contract_admin_game_end, validate_pot_initial_amount,
    validate_pot_limit_not_exceeded,
};
use prudent_pots::math::Decimal;
use prudent_pots::msg::{total_sent, BankSend};
use prudent_pots::state::{
    Coin, FirstBidder, GameConfig, GameState, PlayerAllocations, PlayerReallocations,
    TokenAllocation,
};
use prudent_pots::ContractError;

fn s(text: &str) -> String {
    text.to_string()
}

fn config() -> GameConfig {
    GameConfig {
        fee: 2,
        fee_reallocation: 5,
        fee_address: s("fee_address"),
        game_denom: s("token"),
        game_cw721_addrs: vec![],
        game_duration: 3600,
        game_duration_epoch: 600,
        game_extend: 600,
        game_end_threshold: 600,
        min_pot_initial_allocation: 200,
        decay_factor: Decimal { atomics: 50_000_000_000_000_000 },
        reallocations_limit: 2,
    }
}

fn state() -> GameState {
    GameState { round_count: 1, extend_count: 0, start_time: 1000, end_time: 4600 }
}

fn record(pot_id: u8, amount: u128) -> TokenAllocation {
    TokenAllocation { pot_id, amount }
}

#[test]
fn pots_are_increased_and_decreased() {
    let mut pots = [10u128, 20, 30, 40, 50];
    assert_eq!(update_pot_state(&mut pots, 1, 5, true), Ok(()));
    assert_eq!(update_pot_state(&mut pots, 5, 50, false), Ok(()));
    assert_eq!(pots, [15, 20, 30, 40, 0]);
    assert_eq!(get_all_token_counts(&pots), vec![15, 20, 30, 40, 0]);
    assert_eq!(update_pot_state(&mut pots, 5, 1, false), Err(ContractError::InsufficientFunds));
    assert_eq!(update_pot_state(&mut pots, 2, 21, false), Err(ContractError::InsufficientFunds));
    assert_eq!(update_pot_state(&mut pots, 2, u128::MAX, true), Err(ContractError::OverflowError));
    assert_eq!(update_pot_state(&mut pots, 0, 1, true), Err(ContractError::InvalidPot));
    assert_eq!(update_pot_state(&mut pots, 6, 1, false), Err(ContractError::InvalidPot));
    assert_eq!(pots, [15, 20, 30, 40, 0]);
    assert_eq!(update_pot_state(&mut pots, 2, u128::MAX - 20, true), Ok(()));
    assert_eq!(pots[1], u128::MAX);
}

#[test]
fn player_records_are_merged() {
    let mut players: Vec<PlayerAllocations> = vec![];
    assert_eq!(update_player_allocation(&mut players, &s("a"), 2, 10, true), Ok(()));
    assert_eq!(update_player_allocation(&mut players, &s("b"), 2, 7, true), Ok(()));
    assert_eq!(update_player_allocation(&mut players, &s("a"), 3, 1, true), Ok(()));
    assert_eq!(update_player_allocation(&mut players, &s("a"), 2, 5, true), Ok(()));
    assert_eq!(update_player_allocation(&mut players, &s("a"), 2, 15, false), Ok(()));
    assert_eq!(
        players,
        vec![
            PlayerAllocations { player: s("a"), allocations: vec![record(2, 0), record(3, 1)] },
            PlayerAllocations { player: s("b"), allocations: vec![record(2, 7)] },
        ]
    );
    assert_eq!(find_player(&players, &s("b")), 1);
    assert_eq!(find_player(&players, &s("c")), 2);
    assert_eq!(find_record(&players[0].allocations, 3), 1);
    assert_eq!(find_record(&players[0].allocations, 4), 2);
    assert!(has_stake(&players[0].allocations, 3));
    assert!(!has_stake(&players[0].allocations, 2));
    // a decrease creates no record, but the player gets an entry
    assert_eq!(update_player_allocation(&mut players, &s("b"), 5, 1, false), Ok(()));
    assert_eq!(players[1].allocations, vec![record(2, 7)]);
    assert_eq!(update_player_allocation(&mut players, &s("c"), 5, 1, false), Ok(()));
    assert_eq!(players[2], PlayerAllocations { player: s("c"), allocations: vec![] });
    let before = players.clone();
    assert_eq!(
        update_player_allocation(&mut players, &s("b"), 2, 8, false),
        Err(ContractError::OverflowError)
    );
    assert_eq!(
        update_player_allocation(&mut players, &s("b"), 2, u128::MAX, true),
        Err(ContractError::OverflowError)
    );
    assert_eq!(
        update_player_allocation(&mut players, &s("b"), 9, 1, true),
        Err(ContractError::InvalidPot)
    );
    assert_eq!(players, before);
}

#[test]
fn first_bidder_is_set_once() {
    let mut bidders: [Option<FirstBidder>; 5] = [None, None, None, None, None];
    let set = set_first_bidder_if_not_set(&mut bidders, 4, &s("a"), 77).unwrap();
    assert_eq!(set, FirstBidder { bidder: s("a"), time: 77 });
    let kept = set_first_bidder_if_not_set(&mut bidders, 4, &s("b"), 78).unwrap();
    assert_eq!(kept, FirstBidder { bidder: s("a"), time: 77 });
    assert_eq!(bidders[3], Some(FirstBidder { bidder: s("a"), time: 77 }));
    assert_eq!(bidders[0], None);
    assert_eq!(
        set_first_bidder_if_not_set(&mut bidders, 0, &s("b"), 78),
        Err(ContractError::InvalidPot)
    );
    assert_eq!(
        set_first_bidder_if_not_set(&mut bidders, 6, &s("b"), 78),
        Err(ContractError::InvalidPot)
    );
}

#[test]
fn administrator_checks() {
    let admin = Some(s("admin"));
    assert_eq!(validate_is_contract_admin(&admin, &s("admin")), Ok(()));
    assert_eq!(validate_is_contract_admin(&admin, &s("user")), Err(ContractError::Unauthorized));
    assert_eq!(validate_is_contract_admin(&None, &s("admin")), Err(ContractError::Unauthorized));
    let c = config();
    let st = state();
    // within the grace period only the administrator
    assert_eq!(validate_is_contract_admin_game_end(&c, &st, &admin, 4600, &s("admin")), Ok(()));
    assert_eq!(
        validate_is_contract_admin_game_end(&c, &st, &admin, 5199, &s("user")),
        Err(ContractError::Unauthorized)
    );
    assert_eq!(
        validate_is_contract_admin_game_end(&c, &st, &None, 4600, &s("user")),
        Err(ContractError::Unauthorized)
    );
    assert_eq!(
        validate_is_contract_admin_game_end(&c, &st, &None, 5199, &s("admin")),
        Err(ContractError::Unauthorized)
    );
    assert_eq!(validate_is_contract_admin_game_end(&c, &st, &None, 5200, &s("user")), Ok(()));
    assert_eq!(validate_is_contract_admin_game_end(&c, &st, &admin, 5200, &s("user")), Ok(()));
    // a grace period that never ends
    let mut forever = config();
    forever.game_end_threshold = u64::MAX;
    assert_eq!(
        validate_is_contract_admin_game_end(&forever, &st, &admin, u64::MAX, &s("user")),
        Err(ContractError::Unauthorized)
    );
}

#[test]
fn seed_must_reach_the_minimum() {
    assert_eq!(validate_pot_initial_amount(200, 1000), Ok(200));
    assert_eq!(validate_pot_initial_amount(200, 1004), Ok(200));
    assert_eq!(validate_pot_initial_amount(260, 1300), Ok(260));
    assert_eq!(
        validate_pot_initial_amount(200, 999),
        Err(ContractError::NotEnoughFundsForNextRound)
    );
    assert_eq!(validate_pot_initial_amount(0, 0), Ok(0));
    assert_eq!(validate_pot_initial_amount(1, 4), Err(ContractError::NotEnoughFundsForNextRound));
}

#[test]
fn reallocations_are_counted_up_to_the_limit() {
    let mut counters: Vec<PlayerReallocations> = vec![];
    assert_eq!(validate_increase_player_reallocations(&mut counters, 2, &s("a")), Ok(()));
    assert_eq!(validate_increase_player_reallocations(&mut counters, 2, &s("b")), Ok(()));
    assert_eq!(validate_increase_player_reallocations(&mut counters, 2, &s("a")), Ok(()));
    assert_eq!(
        counters,
        vec![
            PlayerReallocations { player: s("a"), count: 2 },
            PlayerReallocations { player: s("b"), count: 1 }
        ]
    );
    assert_eq!(
        validate_increase_player_reallocations(&mut counters, 2, &s("a")),
        Err(ContractError::ReallocationsLimitReached)
    );
    assert_eq!(counters[0].count, 2);
    assert_eq!(find_counter(&counters, &s("b")), 1);
    assert_eq!(find_counter(&counters, &s("c")), 2);
    assert_eq!(
        validate_increase_player_reallocations(&mut counters, 0, &s("c")),
        Err(ContractError::ReallocationsLimitReached)
    );
    assert_eq!(counters.len(), 2);
}

#[test]
fn existing_stake_blocks_a_deposit() {
    let players = vec![PlayerAllocations {
        player: s("a"),
        allocations: vec![record(1, 0), record(2, 3)],
    }];
    assert_eq!(validate_existing_allocation(&players, &s("a"), 1), Ok(()));
    assert_eq!(
        validate_existing_allocation(&players, &s("a"), 2),
        Err(ContractError::AlreadyAllocated)
    );
    assert_eq!(validate_existing_allocation(&players, &s("a"), 3), Ok(()));
    assert_eq!(validate_existing_allocation(&players, &s("b"), 2), Ok(()));
}

#[test]
fn pot_must_not_outgrow_the_others() {
    let pots = [10u128, 20, 30, 40, 50];
    // pot 5: the others hold 100
    assert_eq!(validate_pot_limit_not_exceeded(&pots, 5, 50), Ok(()));
    assert_eq!(validate_pot_limit_not_exceeded(&pots, 5, 51), Err(ContractError::PotLimitReached));
    // pot 1: the others hold 140
    assert_eq!(validate_pot_limit_not_exceeded(&pots, 1, 130), Ok(()));
    assert_eq!(validate_pot_limit_not_exceeded(&pots, 1, 131), Err(ContractError::PotLimitReached));
    assert_eq!(validate_pot_limit_not_exceeded(&pots, 0, 1), Err(ContractError::InvalidPot));
    assert_eq!(validate_pot_limit_not_exceeded(&pots, 6, 1), Err(ContractError::InvalidPot));
    assert_eq!(
        validate_pot_limit_not_exceeded(&pots, 1, u128::MAX),
        Err(ContractError::OverflowError)
    );
    let heavy = [1u128, u128::MAX, 1, 0, 0];
    assert_eq!(validate_pot_limit_not_exceeded(&heavy, 1, 1), Err(ContractError::OverflowError));
    assert_eq!(validate_pot_limit_not_exceeded(&heavy, 3, 1), Err(ContractError::OverflowError));
    assert_eq!(validate_pot_limit_not_exceeded(&heavy, 2, 0), Err(ContractError::PotLimitReached));
}

#[test]
fn round_clock() {
    let st = state();
    assert_eq!(validate_game_time(&st, 999), Err(ContractError::GameNotStarted));
    assert_eq!(validate_game_time(&st, 1000), Ok(()));
    assert_eq!(validate_game_time(&st, 4599), Ok(()));
    assert_eq!(validate_game_time(&st, 4600), Err(ContractError::GameAlreadyEnded));
    assert_eq!(validate_game_end_time(&st, 4599), Err(ContractError::GameStillActive));
    assert_eq!(validate_game_end_time(&st, 4600), Ok(()));

    let c = config();
    let mut st = state();
    assert_eq!(validate_and_extend_game_time(&c, &mut st, 3999), Ok(()));
    assert_eq!(st, state());
    // exactly the extension window is left: the round is extended by the window
    assert_eq!(validate_and_extend_game_time(&c, &mut st, 4000), Ok(()));
    assert_eq!(st, GameState { round_count: 1, extend_count: 1, start_time: 1000, end_time: 5200 });
    // now more than the window is left again
    assert_eq!(validate_and_extend_game_time(&c, &mut st, 4599), Ok(()));
    assert_eq!(st, GameState { round_count: 1, extend_count: 1, start_time: 1000, end_time: 5200 });
    assert_eq!(validate_and_extend_game_time(&c, &mut st, 5199), Ok(()));
    assert_eq!(st, GameState { round_count: 1, extend_count: 2, start_time: 1000, end_time: 5800 });
    assert_eq!(
        validate_and_extend_game_time(&c, &mut st, 5800),
        Err(ContractError::GameAlreadyEnded)
    );
    let mut late = GameState { round_count: 1, extend_count: 0, start_time: 0, end_time: u64::MAX };
    assert_eq!(
        validate_and_extend_game_time(&c, &mut late, u64::MAX - 1),
        Err(ContractError::OverflowError)
    );
    assert_eq!(late.end_time, u64::MAX);
    let mut many =
        GameState { round_count: 1, extend_count: u32::MAX, start_time: 1000, end_time: 4600 };
    assert_eq!(
        validate_and_extend_game_time(&c, &mut many, 4599),
        Err(ContractError::OverflowError)
    );
    assert_eq!(many.end_time, 4600);
}

#[test]
fn funds_of_the_wager_denomination_are_summed() {
    let coin = |denom: &str, amount: u128| Coin { denom: s(denom), amount };
    let token = s("token");
    assert_eq!(validate_funds(&vec![coin("token", 5)], &token), Ok(5));
    assert_eq!(
        validate_funds(&vec![coin("token", 5), coin("other", 9), coin("token", 6)], &token),
        Ok(11)
    );
    assert_eq!(validate_funds(&vec![], &token), Err(ContractError::InvalidFunds));
    assert_eq!(validate_funds(&vec![coin("other", 9)], &token), Err(ContractError::InvalidFunds));
    assert_eq!(validate_funds(&vec![coin("token", 0)], &token), Err(ContractError::InvalidFunds));
    assert_eq!(
        validate_funds(&vec![coin("token", u128::MAX), coin("token", 1)], &token),
        Err(ContractError::OverflowError)
    );
}

#[test]
fn payments_are_summed() {
    let send = |amount: u128| BankSend { to_address: s("x"), denom: s("token"), amount };
    assert_eq!(total_sent(&vec![]), Some(0));
    assert_eq!(total_sent(&vec![send(3), send(0), send(4)]), Some(7));
    assert_eq!(total_sent(&vec![send(u128::MAX), send(1)]), None);
}
