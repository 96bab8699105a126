use prudent_pots::helpers::pot::{get_winning_pots, is_median, is_winning_pot, WinningRule};
use prudent_pots::ContractError;

fn seeded(allocations: [u128; 5]) -> [u128; 5] {
    let mut pots = [200u128; 5];
    for (i, a) in allocations.iter().enumerate() {
        pots[i] += a;
    }
    pots
}

#[test]
fn is_winning_pot_lowest() {
    let pots = seeded([1, 51, 4, 8, 20]);
    assert_eq!(is_winning_pot(&pots, 1), Ok(true), "Pot 1 should be winning as it is the lowest");
    assert_eq!(is_winning_pot(&pots, 2), Ok(false), "Pot 2 should not be winning.");
    assert_eq!(is_winning_pot(&pots, 3), Ok(false), "Pot 3 should not be winning.");
    assert_eq!(is_winning_pot(&pots, 4), Ok(false), "Pot 4 should not be winning.");
    assert_eq!(is_winning_pot(&pots, 5), Ok(false), "Pot 5 should not be winning.");
}

#[test]
fn is_winning_pot_even() {
    let pots = seeded([11, 50, 2, 10, 20]);
    assert_eq!(is_winning_pot(&pots, 2), Ok(true), "Pot 2 should be winning as it is even");
    assert_eq!(is_winning_pot(&pots, 1), Ok(false), "Pot 1 should not be winning.");
    assert_eq!(is_winning_pot(&pots, 3), Ok(false), "Pot 3 should not be winning.");
    assert_eq!(is_winning_pot(&pots, 4), Ok(false), "4 should not be winning.");
    assert_eq!(is_winning_pot(&pots, 5), Ok(false), "Pot 5 should not be winning.");
}

#[test]
fn is_winning_pot_median() {
    let pots = seeded([15, 21, 20, 0, 21]);
    assert_eq!(is_winning_pot(&pots, 3), Ok(true), "Pot 3 should be winning as it is the median");
    assert_eq!(is_winning_pot(&pots, 1), Ok(false), "Pot 1 should not be winning.");
    assert_eq!(is_winning_pot(&pots, 2), Ok(false), "Pot 2 should not be winning.");
    assert_eq!(is_winning_pot(&pots, 4), Ok(false), "Pot 4 should not be winning.");
    assert_eq!(is_winning_pot(&pots, 5), Ok(false), "Pot 5 should not be winning.");
}

#[test]
fn is_winning_pot_odd() {
    let pots = seeded([14, 51, 22, 3, 20]);
    assert_eq!(is_winning_pot(&pots, 4), Ok(true), "Pot 4 should be winning as it is odd");
    assert_eq!(is_winning_pot(&pots, 1), Ok(false), "Pot 1 should not be winning.");
    assert_eq!(is_winning_pot(&pots, 2), Ok(false), "Pot 2 should not be winning.");
    assert_eq!(is_winning_pot(&pots, 3), Ok(false), "Pot 3 should not be winning.");
    assert_eq!(is_winning_pot(&pots, 5), Ok(false), "Pot 5 should not be winning.");
}

#[test]
fn identify_all_winning_pots_for_highest() {
    let pots = seeded([15, 21, 14, 0, 22]);
    assert_eq!(is_winning_pot(&pots, 5), Ok(true), "Pot 5 should be winning as it is the highest.");
    assert_eq!(is_winning_pot(&pots, 1), Ok(false), "Pot 1 should not be winning.");
    assert_eq!(is_winning_pot(&pots, 2), Ok(false), "Pot 2 should not be winning.");
    assert_eq!(is_winning_pot(&pots, 3), Ok(false), "Pot 3 should not be winning.");
    assert_eq!(is_winning_pot(&pots, 4), Ok(false), "Pot 4 should not be winning.");
}

#[test]
fn shared_median_wins_nothing() {
    // 27 is the middle value and two pots hold it: the median rule declares no winner.
    let pots = [27u128, 27, 31, 25, 10];
    assert_eq!(is_winning_pot(&pots, 3), Ok(false));
    // The same holds when pot 3 itself holds the shared middle value.
    let pots = [27u128, 10, 27, 25, 31];
    assert!(is_median(&pots.to_vec(), 27));
    assert_eq!(is_winning_pot(&pots, 3), Ok(false));
    // With the tie removed the median pot wins.
    let pots = [26u128, 10, 27, 25, 31];
    assert_eq!(is_winning_pot(&pots, 3), Ok(false));
    let pots = [28u128, 10, 27, 25, 31];
    assert_eq!(is_winning_pot(&pots, 3), Ok(true));
}

#[test]
fn rules_on_tied_pots() {
    let pots = [27u128, 27, 31, 25, 10];
    assert_eq!(is_winning_pot(&pots, 1), Ok(false));
    assert_eq!(is_winning_pot(&pots, 2), Ok(false));
    assert_eq!(is_winning_pot(&pots, 4), Ok(true));
    assert_eq!(is_winning_pot(&pots, 5), Ok(false));
    assert_eq!(get_winning_pots(&pots), vec![4]);
}

#[test]
fn shared_extremes_win_nothing() {
    let pots = [10u128, 60, 31, 25, 10];
    assert_eq!(is_winning_pot(&pots, 1), Ok(false), "the lowest amount is shared");
    let pots = [5u128, 60, 31, 25, 60];
    assert_eq!(is_winning_pot(&pots, 1), Ok(true));
    assert_eq!(is_winning_pot(&pots, 5), Ok(false), "the highest amount is shared");
    let pots = [5u128, 60, 31, 25, 61];
    assert_eq!(is_winning_pot(&pots, 5), Ok(true));
}

#[test]
fn parity_rules_ignore_ties() {
    let pots = [30u128, 30, 30, 31, 31];
    assert_eq!(is_winning_pot(&pots, 2), Ok(true));
    assert_eq!(is_winning_pot(&pots, 4), Ok(true));
    assert_eq!(get_winning_pots(&pots), vec![2, 4]);
}

#[test]
fn unknown_pot_is_invalid() {
    let pots = [1u128, 2, 3, 4, 5];
    assert_eq!(is_winning_pot(&pots, 0), Err(ContractError::InvalidPot));
    assert_eq!(is_winning_pot(&pots, 6), Err(ContractError::InvalidPot));
}

#[test]
fn all_five_pots_can_win() {
    // 1 lowest, 2 even, 3 median, 4 odd, 5 highest
    let pots = [1u128, 4, 5, 7, 9];
    assert_eq!(get_winning_pots(&pots), vec![1, 2, 3, 4, 5]);
    let pots = [4u128, 3, 9, 2, 3];
    assert_eq!(get_winning_pots(&pots), Vec::<u8>::new());
}

#[test]
fn median_of_an_even_count_lies_between_the_central_values() {
    let counts = vec![10u128, 20, 30, 40];
    assert!(is_median(&counts, 20));
    assert!(is_median(&counts, 25));
    assert!(is_median(&counts, 30));
    assert!(!is_median(&counts, 19));
    assert!(!is_median(&counts, 31));
    let counts = vec![10u128, 20, 30];
    assert!(is_median(&counts, 20));
    assert!(!is_median(&counts, 25));
    assert!(is_median(&vec![7], 7));
    assert!(!is_median(&vec![7], 8));
    assert!(!is_median(&vec![], 7));
}

#[test]
fn every_pot_has_its_rule() {
    assert_eq!(WinningRule::for_pot(1), Some(WinningRule::Lowest));
    assert_eq!(WinningRule::for_pot(2), Some(WinningRule::Even));
    assert_eq!(WinningRule::for_pot(3), Some(WinningRule::Median));
    assert_eq!(WinningRule::for_pot(4), Some(WinningRule::Odd));
    assert_eq!(WinningRule::for_pot(5), Some(WinningRule::Highest));
    assert_eq!(WinningRule::for_pot(0), None);
    assert_eq!(WinningRule::for_pot(6), None);
    let counts = vec![3u128, 8, 5, 9, 1];
    assert!(WinningRule::Lowest.evaluate(&counts, 4));
    assert!(!WinningRule::Lowest.evaluate(&counts, 0));
    assert!(WinningRule::Highest.evaluate(&counts, 3));
    assert!(WinningRule::Median.evaluate(&counts, 2));
    assert!(!WinningRule::Median.evaluate(&counts, 1));
    assert!(WinningRule::Even.evaluate(&counts, 1));
    assert!(WinningRule::Odd.evaluate(&counts, 0));
}
