use prudent_pots::helpers::pot::{
    calculate_average_tokens, calculate_discounted_bid, calculate_max_bid, calculate_min_bid,
};
use prudent_pots::math::{Decimal, DECIMAL_FRACTIONAL};
use prudent_pots::state::{GameConfig, GameState};
use prudent_pots::ContractError;

const START: u64 = 1_000_000;

fn decimal(percent: u128) -> Decimal {
    Decimal { atomics: percent * 10_000_000_000_000_000 }
}

fn config() -> GameConfig {
    GameConfig {
        fee: 5,
        fee_reallocation: 5,
        fee_address: "treasury_addr".to_string(),
        game_denom: "udenom".to_string(),
        game_cw721_addrs: vec!["nft".to_string()],
        game_duration: 3600,
        game_duration_epoch: 600,
        game_extend: 600,
        game_end_threshold: 600,
        min_pot_initial_allocation: 1_000_000,
        decay_factor: decimal(5),
        reallocations_limit: 10,
    }
}

fn state(extend_count: u32) -> GameState {
    GameState { round_count: 1, extend_count, start_time: START, end_time: START + 3600 }
}

#[test]
fn min_bid_rises_with_epochs_and_extensions() {
    let none: Vec<u64> = vec![];
    assert_eq!(calculate_min_bid(&config(), &state(0), START, &none), Ok(1_000_000));
    assert_eq!(calculate_min_bid(&config(), &state(0), START + 599, &none), Ok(1_000_000));
    assert_eq!(calculate_min_bid(&config(), &state(0), START + 600, &none), Ok(1_050_000));
    assert_eq!(calculate_min_bid(&config(), &state(0), START + 3599, &none), Ok(1_250_000));
    assert_eq!(calculate_min_bid(&config(), &state(1), START + 3599, &none), Ok(1_500_000));
    assert_eq!(calculate_min_bid(&config(), &state(2), START + 1200, &none), Ok(1_300_000));
}

#[test]
fn min_bid_rounds_down() {
    let mut c = config();
    c.min_pot_initial_allocation = 7;
    c.decay_factor = Decimal { atomics: 333_333_333_333_333_333 };
    // 7 * (1 + 0.333333333333333333) = 9.33...
    assert_eq!(calculate_min_bid(&c, &state(0), START + 600, &vec![]), Ok(9));
    // 7 * (1 + 0.333333333333333333 * 2 * 3) = 7 * 2.999999999999999998 = 20.99...
    assert_eq!(calculate_min_bid(&c, &state(2), START + 1200, &vec![]), Ok(20));
}

#[test]
fn min_bid_errors() {
    assert_eq!(
        calculate_min_bid(&config(), &state(0), START - 1, &vec![]),
        Err(ContractError::GameNotStarted)
    );
    let mut c = config();
    c.game_duration_epoch = 0;
    assert_eq!(calculate_min_bid(&c, &state(0), START, &vec![]), Err(ContractError::DivideByZeroError));
    let mut c = config();
    c.decay_factor = Decimal { atomics: u128::MAX };
    assert_eq!(calculate_min_bid(&c, &state(0), START, &vec![]), Ok(1_000_000));
    assert_eq!(
        calculate_min_bid(&c, &state(0), START + 600, &vec![]),
        Err(ContractError::OverflowError)
    );
    let mut c = config();
    c.min_pot_initial_allocation = u128::MAX;
    assert_eq!(calculate_min_bid(&c, &state(0), START, &vec![]), Ok(u128::MAX));
    assert_eq!(
        calculate_min_bid(&c, &state(0), START + 600, &vec![]),
        Err(ContractError::OverflowError)
    );
}

#[test]
fn holders_get_a_compounding_discount() {
    // each token takes 5% off what the one before left, rounded in the depositor's disfavour
    assert_eq!(calculate_discounted_bid(1_000_000, 0, decimal(5)), 1_000_000);
    assert_eq!(calculate_discounted_bid(1_000_000, 1, decimal(5)), 950_000);
    assert_eq!(calculate_discounted_bid(1_000_000, 2, decimal(5)), 902_500);
    assert_eq!(calculate_discounted_bid(1_000_000, 3, decimal(5)), 857_375);
    assert_eq!(calculate_discounted_bid(10, 1, decimal(5)), 10);
    assert_eq!(calculate_discounted_bid(19, 1, decimal(50)), 10);
    // a factor of one or more takes everything, and the floor does not go below zero
    assert_eq!(calculate_discounted_bid(1_000_000, 1, decimal(100)), 0);
    assert_eq!(calculate_discounted_bid(1_000_000, 5, decimal(250)), 0);
    assert_eq!(calculate_discounted_bid(u128::MAX, 1, Decimal { atomics: u128::MAX }), 0);
    // holdings are counted over all collections
    let held = vec![1u64, 0, 2];
    assert_eq!(calculate_min_bid(&config(), &state(0), START, &held), Ok(857_375));
    assert_eq!(calculate_min_bid(&config(), &state(0), START + 600, &vec![1]), Ok(997_500));
}

#[test]
fn max_bid_is_twice_the_average_or_twice_the_floor() {
    let pots = [1_000_000u128; 5];
    assert_eq!(calculate_average_tokens(&pots), Ok(1_000_000));
    assert_eq!(calculate_max_bid(&pots, 1_000_000), Ok(2_000_000));
    let pots = [2_000_000u128, 2_000_000, 1_000_000, 1_000_000, 1_000_000];
    assert_eq!(calculate_average_tokens(&pots), Ok(1_400_000));
    assert_eq!(calculate_max_bid(&pots, 1_050_000), Ok(2_800_000));
    // the floor has passed the average: twice the floor
    assert_eq!(calculate_max_bid(&pots, 1_500_000), Ok(3_000_000));
    // twice the average is below twice the floor although it is above the floor
    assert_eq!(calculate_max_bid(&pots, 2_000_000), Ok(4_000_000));
    let pots = [1u128, 1, 1, 1, 0];
    assert_eq!(calculate_average_tokens(&pots), Ok(0));
    assert_eq!(calculate_max_bid(&pots, 0), Ok(0));
    assert_eq!(calculate_max_bid(&pots, 3), Ok(6));
}

#[test]
fn max_bid_errors() {
    let pots = [u128::MAX, 1, 0, 0, 0];
    assert_eq!(calculate_average_tokens(&pots), Err(ContractError::OverflowError));
    assert_eq!(calculate_max_bid(&pots, 1), Err(ContractError::OverflowError));
    let pots = [1u128; 5];
    assert_eq!(calculate_max_bid(&pots, u128::MAX), Err(ContractError::OverflowError));
    let pots = [u128::MAX / 5; 5];
    assert_eq!(calculate_max_bid(&pots, 1), Ok(u128::MAX / 5 * 2));
}

#[test]
fn decimal_arithmetic() {
    let one = Decimal::one();
    assert_eq!(one.atomics, DECIMAL_FRACTIONAL);
    assert_eq!(Decimal::from_integer(3).atomics, 3 * DECIMAL_FRACTIONAL);
    assert_eq!(one.checked_add(decimal(25)), Some(decimal(125)));
    assert_eq!(Decimal { atomics: u128::MAX }.checked_add(Decimal { atomics: 1 }), None);
    assert_eq!(decimal(95).mul_floor(101), Some(95));
    assert_eq!(decimal(50).mul_floor(u128::MAX), Some(u128::MAX / 2));
    assert_eq!(decimal(200).mul_floor(u128::MAX), None);
    assert_eq!(decimal(0).mul_floor(17), Some(0));
}
