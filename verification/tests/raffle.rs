use prudent_pots::helpers::game_end::{
    get_raffle_denom_prize_amounts, get_raffle_winner, process_raffle_winner, settle_raffle,
};
use prudent_pots::math::Decimal;
use prudent_pots::msg::{attr, Attribute, BankSend, TransferNft};
use prudent_pots::state::{
    Coin, FirstBidder, GameConfig, GameState, PlayerAllocations, Raffle, TokenAllocation,
};
use prudent_pots::ContractError;

fn decimal(percent: u128) -> Decimal {
    Decimal { atomics: percent * 10_000_000_000_000_000 }
}

fn config(decay_percent: u128) -> GameConfig {
    GameConfig {
        fee: 5,
        fee_reallocation: 5,
        fee_address: "treasury_addr".to_string(),
        game_denom: "udenom".to_string(),
        game_cw721_addrs: vec!["nft".to_string()],
        game_duration: 3600,
        game_duration_epoch: 600,
        game_extend: 600,
        game_end_threshold: 600,
        min_pot_initial_allocation: 1_000_000,
        decay_factor: decimal(decay_percent),
        reallocations_limit: 10,
    }
}

fn state(extend_count: u32) -> GameState {
    GameState { round_count: 2, extend_count, start_time: 100, end_time: 3700 }
}

fn player(name: &str, stakes: &[(u8, u128)]) -> PlayerAllocations {
    PlayerAllocations {
        player: name.to_string(),
        allocations: stakes
            .iter()
            .map(|(pot_id, amount)| TokenAllocation { pot_id: *pot_id, amount: *amount })
            .collect(),
    }
}

fn first(bidder: &str, time: u64) -> Option<FirstBidder> {
    Some(FirstBidder { bidder: bidder.to_string(), time })
}

fn coins(amount: u128) -> Vec<Coin> {
    vec![Coin { denom: "udenom".to_string(), amount }]
}

fn text(s: &str) -> Option<String> {
    Some(s.to_string())
}

#[test]
fn greatest_stake_in_winning_pots_wins() {
    let players = vec![
        player("a", &[(1, 900), (2, 10)]),
        player("b", &[(2, 30), (4, 5)]),
        player("c", &[(4, 34)]),
    ];
    let nobody: [Option<FirstBidder>; 5] = [None, None, None, None, None];
    assert_eq!(get_raffle_winner(&players, &nobody, &vec![2, 4]), Ok(text("b")));
    assert_eq!(get_raffle_winner(&players, &nobody, &vec![4]), Ok(text("c")));
    assert_eq!(get_raffle_winner(&players, &nobody, &vec![1, 2]), Ok(text("a")));
    // stakes outside the winning pots do not count, and without any stake nobody wins
    assert_eq!(get_raffle_winner(&players, &nobody, &vec![3, 5]), Ok(None));
    assert_eq!(get_raffle_winner(&players, &nobody, &vec![]), Ok(None));
    assert_eq!(get_raffle_winner(&vec![], &nobody, &vec![1, 2, 3, 4, 5]), Ok(None));
    let idle = vec![player("a", &[(2, 0)]), player("b", &[])];
    assert_eq!(get_raffle_winner(&idle, &nobody, &vec![2]), Ok(None));
}

#[test]
fn tie_is_broken_by_the_earlier_first_bid() {
    let players = vec![player("a", &[(2, 50)]), player("b", &[(4, 50)]), player("c", &[(2, 49)])];
    let winning = vec![2, 4];
    let bidders = [None, first("a", 20), None, first("b", 10), None];
    assert_eq!(get_raffle_winner(&players, &bidders, &winning), Ok(text("b")));
    let bidders = [None, first("a", 10), None, first("b", 20), None];
    assert_eq!(get_raffle_winner(&players, &bidders, &winning), Ok(text("a")));
    // the order of the entries does not matter
    let reversed = vec![player("c", &[(2, 49)]), player("b", &[(4, 50)]), player("a", &[(2, 50)])];
    assert_eq!(get_raffle_winner(&reversed, &bidders, &winning), Ok(text("a")));
    let bidders = [None, first("a", 20), None, first("b", 10), None];
    assert_eq!(get_raffle_winner(&reversed, &bidders, &winning), Ok(text("b")));
}

#[test]
fn identical_stake_and_time_yield_no_winner() {
    let players = vec![player("a", &[(2, 50)]), player("b", &[(4, 50)]), player("c", &[(2, 49)])];
    let winning = vec![2, 4];
    let bidders = [None, first("a", 10), None, first("b", 10), None];
    assert_eq!(get_raffle_winner(&players, &bidders, &winning), Ok(None));
    // neither was first anywhere: their times are the same again
    let bidders = [None, first("c", 10), None, None, None];
    assert_eq!(get_raffle_winner(&players, &bidders, &winning), Ok(None));
    // a first bid in a pot that did not win does not count
    let players = vec![player("a", &[(2, 50), (1, 1)]), player("b", &[(2, 50)])];
    let bidders = [first("a", 1), first("c", 5), None, None, None];
    assert_eq!(get_raffle_winner(&players, &bidders, &vec![2]), Ok(None));
    assert_eq!(get_raffle_winner(&players, &bidders, &vec![1, 2]), Ok(text("a")));
}

#[test]
fn three_way_tie() {
    let players =
        vec![player("a", &[(2, 5)]), player("b", &[(4, 5)]), player("c", &[(1, 2), (2, 3)])];
    let winning = vec![1, 2, 4];
    let bidders = [first("c", 7), first("a", 9), None, first("b", 8), None];
    assert_eq!(get_raffle_winner(&players, &bidders, &winning), Ok(text("c")));
    let bidders = [first("c", 8), first("a", 9), None, first("b", 8), None];
    assert_eq!(get_raffle_winner(&players, &bidders, &winning), Ok(None));
    let bidders = [first("c", 9), first("a", 9), None, first("b", 8), None];
    assert_eq!(get_raffle_winner(&players, &bidders, &winning), Ok(text("b")));
    // the earliest of a player's first bids counts
    let bidders = [first("c", 9), first("c", 3), None, first("b", 8), None];
    assert_eq!(get_raffle_winner(&players, &bidders, &winning), Ok(text("c")));
}

#[test]
fn stake_overflow_is_reported() {
    let players = vec![player("a", &[(2, u128::MAX), (4, 1)])];
    let nobody: [Option<FirstBidder>; 5] = [None, None, None, None, None];
    assert_eq!(get_raffle_winner(&players, &nobody, &vec![2, 4]), Err(ContractError::OverflowError));
    assert_eq!(get_raffle_winner(&players, &nobody, &vec![2]), Ok(text("a")));
}

#[test]
fn prize_decays_with_every_extension() {
    let raffle = Raffle { cw721_token_id: None, cw721_addr: None, denom_amount: 100_000_000 };
    assert_eq!(
        get_raffle_denom_prize_amounts(&config(95), &state(0), &raffle),
        Ok((100_000_000, 0))
    );
    assert_eq!(
        get_raffle_denom_prize_amounts(&config(95), &state(1), &raffle),
        Ok((95_000_000, 5_000_000))
    );
    assert_eq!(
        get_raffle_denom_prize_amounts(&config(95), &state(2), &raffle),
        Ok((90_250_000, 9_750_000))
    );
    assert_eq!(
        get_raffle_denom_prize_amounts(&config(5), &state(1), &raffle),
        Ok((5_000_000, 95_000_000))
    );
    assert_eq!(
        get_raffle_denom_prize_amounts(&config(5), &state(3), &raffle),
        Ok((12_500, 99_987_500))
    );
    let small = Raffle { cw721_token_id: None, cw721_addr: None, denom_amount: 10 };
    assert_eq!(get_raffle_denom_prize_amounts(&config(95), &state(3), &small), Ok((8, 2)));
    let none = Raffle { cw721_token_id: None, cw721_addr: None, denom_amount: 0 };
    assert_eq!(get_raffle_denom_prize_amounts(&config(95), &state(7), &none), Ok((0, 0)));
    // a factor above one cannot be paid
    assert_eq!(
        get_raffle_denom_prize_amounts(&config(150), &state(1), &raffle),
        Err(ContractError::OverflowError)
    );
    assert_eq!(
        get_raffle_denom_prize_amounts(&config(150), &state(0), &raffle),
        Ok((100_000_000, 0))
    );
}

#[test]
fn winner_takes_token_and_amount() {
    let raffle =
        Raffle { cw721_token_id: text("1"), cw721_addr: text("nft"), denom_amount: 100_000_000 };
    let out = settle_raffle(
        &config(95),
        &state(1),
        &raffle,
        &"engine".to_string(),
        &coins(200_000_000),
        text("user5"),
        text("2"),
        text("nft"),
    )
    .unwrap();
    assert_eq!(
        out.msgs,
        vec![
            BankSend {
                to_address: "user5".to_string(),
                denom: "udenom".to_string(),
                amount: 95_000_000
            },
            BankSend {
                to_address: "treasury_addr".to_string(),
                denom: "udenom".to_string(),
                amount: 5_000_000
            },
        ]
    );
    assert_eq!(
        out.submsgs,
        vec![
            TransferNft {
                contract_addr: "nft".to_string(),
                recipient: "user5".to_string(),
                token_id: "1".to_string()
            },
            TransferNft {
                contract_addr: "nft".to_string(),
                recipient: "engine".to_string(),
                token_id: "2".to_string()
            },
        ]
    );
    assert_eq!(
        out.attributes,
        vec![
            attr("raffle_winner", &"user5".to_string()),
            attr("raffle_outgoing_nft_addr", &"nft".to_string()),
            attr("raffle_outgoing_nft_id", &"1".to_string()),
            attr("raffle_outgoing_tokens_winner", &"user5".to_string()),
            attr("raffle_outgoing_tokens_treasury", &"treasury_addr".to_string()),
        ]
    );
    assert_eq!(
        out.attributes[1],
        Attribute { key: "raffle_outgoing_nft_addr".to_string(), value: "nft".to_string() }
    );
    assert_eq!(out.raffle_winner, text("user5"));
    assert_eq!(out.new_raffle_denom_amount, 200_000_000);
    assert_eq!(out.new_raffle_cw721_id, text("2"));
    assert_eq!(out.new_raffle_cw721_addr, text("nft"));
}

#[test]
fn winner_without_prize_gets_nothing() {
    let raffle = Raffle { cw721_token_id: None, cw721_addr: None, denom_amount: 0 };
    let out = settle_raffle(
        &config(95),
        &state(0),
        &raffle,
        &"engine".to_string(),
        &vec![],
        text("user5"),
        None,
        None,
    )
    .unwrap();
    assert!(out.msgs.is_empty());
    assert!(out.submsgs.is_empty());
    assert!(out.attributes.is_empty());
    assert_eq!(out.new_raffle_denom_amount, 0);
    assert_eq!(out.new_raffle_cw721_id, None);
}

#[test]
fn unclaimed_prize_is_carried_over() {
    let raffle = Raffle { cw721_token_id: text("1"), cw721_addr: text("nft"), denom_amount: 70 };
    let out = settle_raffle(
        &config(95),
        &state(4),
        &raffle,
        &"engine".to_string(),
        &coins(30),
        None,
        None,
        None,
    )
    .unwrap();
    assert!(out.msgs.is_empty());
    assert!(out.attributes.is_empty());
    assert_eq!(out.raffle_winner, None);
    assert_eq!(out.new_raffle_denom_amount, 100);
    assert_eq!(out.new_raffle_cw721_id, text("1"));
    assert_eq!(out.new_raffle_cw721_addr, text("nft"));
    assert_eq!(
        out.submsgs,
        vec![TransferNft {
            contract_addr: "nft".to_string(),
            recipient: "engine".to_string(),
            token_id: "1".to_string()
        }]
    );
    // funds of another denomination are not counted
    let other = vec![Coin { denom: "other".to_string(), amount: 5 }];
    let out = settle_raffle(
        &config(95),
        &state(4),
        &raffle,
        &"engine".to_string(),
        &other,
        None,
        None,
        None,
    )
    .unwrap();
    assert_eq!(out.new_raffle_denom_amount, 70);
}

#[test]
fn new_token_is_refused_while_one_is_unclaimed() {
    let raffle = Raffle { cw721_token_id: text("1"), cw721_addr: text("nft"), denom_amount: 70 };
    let r = settle_raffle(
        &config(95),
        &state(0),
        &raffle,
        &"engine".to_string(),
        &vec![],
        None,
        text("2"),
        text("nft"),
    );
    assert_eq!(r, Err(ContractError::InvalidRaffleNft));
    // without a pending token the new one is taken
    let empty = Raffle { cw721_token_id: None, cw721_addr: None, denom_amount: 70 };
    let out = settle_raffle(
        &config(95),
        &state(0),
        &empty,
        &"engine".to_string(),
        &vec![],
        None,
        text("2"),
        text("nft"),
    )
    .unwrap();
    assert_eq!(out.new_raffle_cw721_id, text("2"));
    assert_eq!(out.submsgs.len(), 1);
    assert_eq!(out.new_raffle_denom_amount, 70);
}

#[test]
fn raffle_errors() {
    let broken = Raffle { cw721_token_id: text("1"), cw721_addr: None, denom_amount: 70 };
    let r = settle_raffle(
        &config(95),
        &state(0),
        &broken,
        &"engine".to_string(),
        &vec![],
        text("w"),
        None,
        None,
    );
    assert_eq!(r, Err(ContractError::InvalidRaffleNft));
    let full = Raffle { cw721_token_id: None, cw721_addr: None, denom_amount: u128::MAX };
    let r = settle_raffle(
        &config(95),
        &state(0),
        &full,
        &"engine".to_string(),
        &coins(1),
        None,
        None,
        None,
    );
    assert_eq!(r, Err(ContractError::OverflowError));
    let two = vec![
        Coin { denom: "udenom".to_string(), amount: u128::MAX },
        Coin { denom: "udenom".to_string(), amount: 1 },
    ];
    let empty = Raffle { cw721_token_id: None, cw721_addr: None, denom_amount: 0 };
    let r = settle_raffle(
        &config(95),
        &state(0),
        &empty,
        &"engine".to_string(),
        &two,
        None,
        None,
        None,
    );
    assert_eq!(r, Err(ContractError::OverflowError));
}

#[test]
fn raffle_is_settled_for_the_selected_winner() {
    let players = vec![player("a", &[(2, 50)]), player("b", &[(4, 50)])];
    let bidders = [None, first("a", 20), None, first("b", 10), None];
    let raffle = Raffle { cw721_token_id: text("9"), cw721_addr: text("nft"), denom_amount: 1000 };
    let out = process_raffle_winner(
        &config(95),
        &state(0),
        &raffle,
        &players,
        &bidders,
        &"engine".to_string(),
        &vec![],
        &vec![2, 4],
        None,
        None,
    )
    .unwrap();
    assert_eq!(out.raffle_winner, text("b"));
    // the whole amount goes to the winner: no note on the treasury
    assert_eq!(out.attributes.len(), 4);
    assert_eq!(out.attributes[3].key, "raffle_outgoing_tokens_winner");
    assert_eq!(out.msgs.len(), 1);
    assert_eq!(out.msgs[0].to_address, "b");
    assert_eq!(out.msgs[0].amount, 1000);
    assert_eq!(out.submsgs[0].recipient, "b");
    assert_eq!(out.new_raffle_cw721_id, None);
    // with a tie nobody wins and the prize stays
    let bidders = [None, first("a", 10), None, first("b", 10), None];
    let out = process_raffle_winner(
        &config(95),
        &state(0),
        &raffle,
        &players,
        &bidders,
        &"engine".to_string(),
        &vec![],
        &vec![2, 4],
        None,
        None,
    )
    .unwrap();
    assert_eq!(out.raffle_winner, None);
    assert_eq!(out.new_raffle_denom_amount, 1000);
    assert_eq!(out.new_raffle_cw721_id, text("9"));
}

#[test]
fn first_bid_counts_only_where_the_stake_is() {
    // a was first in pot 2 but holds nothing there any more; b was first in pot 4, later
    let players = vec![player("a", &[(2, 0), (4, 50)]), player("b", &[(2, 50)])];
    let bidders = [None, first("a", 10), None, first("c", 5), None];
    assert_eq!(get_raffle_winner(&players, &bidders, &vec![2, 4]), Ok(None));
    let players = vec![player("a", &[(2, 0), (4, 50)]), player("b", &[(2, 30), (4, 20)])];
    let bidders = [None, first("a", 10), None, first("b", 20), None];
    assert_eq!(get_raffle_winner(&players, &bidders, &vec![2, 4]), Ok(text("b")));
    let players = vec![player("a", &[(2, 1), (4, 49)]), player("b", &[(2, 30), (4, 20)])];
    assert_eq!(get_raffle_winner(&players, &bidders, &vec![2, 4]), Ok(text("a")));
}
