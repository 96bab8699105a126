//! Pot bookkeeping, the winning rules and the deposit bounds.

use vstd::prelude::*;
use crate::error::ContractError;
use crate::math::{decimal_checked_mul, mul_div, Decimal, DECIMAL_FRACTIONAL};
use crate::state::{
    lemma_pots_total_prefix, pots_total, valid_pot, FirstBidder, FirstBidderView, GameConfig,
    GameConfigView, GameState, PlayerAllocations, PlayerAllocationsView, TokenAllocation,
    POT_COUNT,
};

verus! {

/// How many entries of `s` are below `v`.
pub open spec fn count_less(s: Seq<u128>, v: u128) -> int
    decreases s.len(),
{
    if s.len() == 0 {
        0
    } else {
        count_less(s.drop_last(), v) + if s.last() < v {
            1int
        } else {
            0
        }
    }
}

/// How many entries of `s` are above `v`.
pub open spec fn count_greater(s: Seq<u128>, v: u128) -> int
    decreases s.len(),
{
    if s.len() == 0 {
        0
    } else {
        count_greater(s.drop_last(), v) + if s.last() > v {
            1int
        } else {
            0
        }
    }
}

/// How many entries of `s` equal `v`.
pub open spec fn count_equal(s: Seq<u128>, v: u128) -> int
    decreases s.len(),
{
    if s.len() == 0 {
        0
    } else {
        count_equal(s.drop_last(), v) + if s.last() == v {
            1int
        } else {
            0
        }
    }
}

/// Whether `v` stands in the middle of `s`: at most half of the entries are below it and at
/// most half above it. Nothing stands in the middle of an empty list.
///
/// For an odd number of entries this says that `v` is the middle entry of `s` in sorted
/// order; for an even number, that `v` lies between the two central entries, ends included.
pub open spec fn median_test(s: Seq<u128>, v: u128) -> bool {
    s.len() > 0 && count_less(s, v) <= s.len() / 2 && count_greater(s, v) <= s.len() / 2
}

/// Whether the entry at `k` is below every other entry of `pots`.
pub open spec fn lowest_unique(pots: Seq<u128>, k: int) -> bool {
    forall|j: int| 0 <= j < pots.len() && j != k ==> pots[k] < #[trigger] pots[j]
}

/// Whether the entry at `k` is above every other entry of `pots`.
pub open spec fn highest_unique(pots: Seq<u128>, k: int) -> bool {
    forall|j: int| 0 <= j < pots.len() && j != k ==> pots[k] > #[trigger] pots[j]
}

/// Whether the entry at `k` is the median of `pots` and no other entry equals it.
pub open spec fn median_unique(pots: Seq<u128>, k: int) -> bool {
    median_test(pots, pots[k]) && count_equal(pots, pots[k]) == 1
}

/// The rule by which a pot wins.
#[derive(Clone, Copy, Debug, PartialEq, Eq, Structural)]
pub enum WinningRule {
    /// The pot holds less than every other pot.
    Lowest,
    /// The pot's amount is even.
    Even,
    /// The pot's amount is the median of the five, and no other pot holds the same.
    Median,
    /// The pot's amount is odd.
    Odd,
    /// The pot holds more than every other pot.
    Highest,
}

impl WinningRule {
    /// The rule of pot `pot_id`: pot 1 wins as the lowest, pot 2 with an even amount, pot 3
    /// as the median, pot 4 with an odd amount, pot 5 as the highest.
    pub open spec fn of(pot_id: u8) -> Option<WinningRule> {
        if pot_id == 1 {
            Some(WinningRule::Lowest)
        } else if pot_id == 2 {
            Some(WinningRule::Even)
        } else if pot_id == 3 {
            Some(WinningRule::Median)
        } else if pot_id == 4 {
            Some(WinningRule::Odd)
        } else if pot_id == 5 {
            Some(WinningRule::Highest)
        } else {
            None
        }
    }

    /// Whether the pot at position `k` satisfies the rule among `pots`.
    pub open spec fn holds(self, pots: Seq<u128>, k: int) -> bool {
        match self {
            WinningRule::Lowest => lowest_unique(pots, k),
            WinningRule::Even => pots[k] % 2 == 0,
            WinningRule::Median => median_unique(pots, k),
            WinningRule::Odd => pots[k] % 2 != 0,
            WinningRule::Highest => highest_unique(pots, k),
        }
    }

    /// The rule of pot `pot_id`, if there is such a pot.
    pub fn for_pot(pot_id: u8) -> (r: Option<WinningRule>)
        ensures
            r == WinningRule::of(pot_id),
            r is Some <==> valid_pot(pot_id),
    {
        if pot_id == 1 {
            Some(WinningRule::Lowest)
        } else if pot_id == 2 {
            Some(WinningRule::Even)
        } else if pot_id == 3 {
            Some(WinningRule::Median)
        } else if pot_id == 4 {
            Some(WinningRule::Odd)
        } else if pot_id == 5 {
            Some(WinningRule::Highest)
        } else {
            None
        }
    }

    /// Whether the pot at position `k` satisfies the rule among the amounts `token_counts`.
    pub fn evaluate(self, token_counts: &Vec<u128>, k: usize) -> (r: bool)
        requires
            k < token_counts@.len(),
        ensures
            r == self.holds(token_counts@, k as int),
    {
        match self {
            WinningRule::Lowest => is_lowest_unique(token_counts, k),
            WinningRule::Even => token_counts[k] % 2 == 0,
            WinningRule::Median => is_median(token_counts, token_counts[k]) && is_unique(
                token_counts,
                token_counts[k],
            ),
            WinningRule::Odd => token_counts[k] % 2 != 0,
            WinningRule::Highest => is_highest_unique(token_counts, k),
        }
    }
}

/// Whether pot `pot_id` satisfies its rule on the amounts of the five pots.
pub open spec fn pot_wins(pots: Seq<u128>, pot_id: u8) -> bool {
    match WinningRule::of(pot_id) {
        Some(rule) => rule.holds(pots, pot_id - 1),
        None => false,
    }
}

/// The winning pots among the first `n`, in ascending order.
pub open spec fn winners_upto(pots: Seq<u128>, n: u8) -> Seq<u8>
    decreases n,
{
    if n == 0 {
        Seq::empty()
    } else if pot_wins(pots, n) {
        winners_upto(pots, (n - 1) as u8).push(n)
    } else {
        winners_upto(pots, (n - 1) as u8)
    }
}

/// The winning pots, in ascending order.
pub open spec fn winning_pots(pots: Seq<u128>) -> Seq<u8> {
    winners_upto(pots, POT_COUNT)
}

/// The amounts of the five pots, pot 1 first.
pub fn get_all_token_counts(pots: &[u128; 5]) -> (r: Vec<u128>)
    ensures
        r@ == pots@,
{
    let mut token_counts: Vec<u128> = Vec::new();
    let mut i: usize = 0;
    while i < 5
        invariant
            i <= 5,
            token_counts@ == pots@.take(i as int),
        decreases 5 - i,
    {
        token_counts.push(pots[i]);
        assert(pots@.take(i + 1) =~= pots@.take(i as int).push(pots@[i as int]));
        i = i + 1;
    }
    assert(pots@.take(5) =~= pots@);
    token_counts
}

/// Whether `value` stands in the middle of `token_counts`.
pub fn is_median(token_counts: &Vec<u128>, value: u128) -> (r: bool)
    ensures
        r == median_test(token_counts@, value),
{
    let n: usize = token_counts.len();
    let mut less: usize = 0;
    let mut greater: usize = 0;
    let mut i: usize = 0;
    while i < n
        invariant
            i <= n,
            n == token_counts@.len(),
            less == count_less(token_counts@.take(i as int), value),
            greater == count_greater(token_counts@.take(i as int), value),
            less <= i,
            greater <= i,
        decreases n - i,
    {
        assert(token_counts@.take(i + 1).drop_last() =~= token_counts@.take(i as int));
        if token_counts[i] < value {
            less = less + 1;
        }
        if token_counts[i] > value {
            greater = greater + 1;
        }
        i = i + 1;
    }
    assert(token_counts@.take(n as int) =~= token_counts@);
    n > 0 && less <= n / 2 && greater <= n / 2
}

/// Whether exactly one entry of `token_counts` equals `value`.
fn is_unique(token_counts: &Vec<u128>, value: u128) -> (r: bool)
    ensures
        r == (count_equal(token_counts@, value) == 1),
{
    let n: usize = token_counts.len();
    let mut equal: usize = 0;
    let mut i: usize = 0;
    while i < n
        invariant
            i <= n,
            n == token_counts@.len(),
            equal == count_equal(token_counts@.take(i as int), value),
            equal <= i,
        decreases n - i,
    {
        assert(token_counts@.take(i + 1).drop_last() =~= token_counts@.take(i as int));
        if token_counts[i] == value {
            equal = equal + 1;
        }
        i = i + 1;
    }
    assert(token_counts@.take(n as int) =~= token_counts@);
    equal == 1
}

/// Whether the entry at `k` is below every other entry.
fn is_lowest_unique(token_counts: &Vec<u128>, k: usize) -> (r: bool)
    requires
        k < token_counts@.len(),
    ensures
        r == lowest_unique(token_counts@, k as int),
{
    let n: usize = token_counts.len();
    let mut i: usize = 0;
    while i < n
        invariant
            i <= n,
            n == token_counts@.len(),
            k < n,
            forall|j: int| 0 <= j < i && j != k ==> token_counts@[k as int] < #[trigger] token_counts@[j],
        decreases n - i,
    {
        if i != k && token_counts[k] >= token_counts[i] {
            return false;
        }
        i = i + 1;
    }
    true
}

/// Whether the entry at `k` is above every other entry.
fn is_highest_unique(token_counts: &Vec<u128>, k: usize) -> (r: bool)
    requires
        k < token_counts@.len(),
    ensures
        r == highest_unique(token_counts@, k as int),
{
    let n: usize = token_counts.len();
    let mut i: usize = 0;
    while i < n
        invariant
            i <= n,
            n == token_counts@.len(),
            k < n,
            forall|j: int| 0 <= j < i && j != k ==> token_counts@[k as int] > #[trigger] token_counts@[j],
        decreases n - i,
    {
        if i != k && token_counts[k] <= token_counts[i] {
            return false;
        }
        i = i + 1;
    }
    true
}

/// Whether pot `pot_id` currently satisfies its rule.
///
/// Fails with `InvalidPot` exactly when `pot_id` is not one of the five pots.
pub fn is_winning_pot(pots: &[u128; 5], pot_id: u8) -> (r: Result<bool, ContractError>)
    ensures
        r == if valid_pot(pot_id) {
            Ok::<bool, ContractError>(pot_wins(pots@, pot_id))
        } else {
            Err::<bool, ContractError>(ContractError::InvalidPot)
        },
{
    match WinningRule::for_pot(pot_id) {
        Some(rule) => {
            let token_counts = get_all_token_counts(pots);
            Ok(rule.evaluate(&token_counts, (pot_id - 1) as usize))
        },
        None => Err(ContractError::InvalidPot),
    }
}

/// The pots that currently satisfy their rule, in ascending order.
pub fn get_winning_pots(pots: &[u128; 5]) -> (r: Vec<u8>)
    ensures
        r@ == winning_pots(pots@),
{
    let mut winners: Vec<u8> = Vec::new();
    let mut pot_id: u8 = 1;
    while pot_id <= 5
        invariant
            1 <= pot_id <= 6,
            winners@ == winners_upto(pots@, (pot_id - 1) as u8),
        decreases 6 - pot_id,
    {
        match is_winning_pot(pots, pot_id) {
            Ok(true) => {
                winners.push(pot_id);
            },
            _ => {},
        }
        pot_id = pot_id + 1;
    }
    winners
}

/// The position of the first record for pot `pot_id`, or the number of records when there
/// is none.
pub open spec fn first_record(allocations: Seq<TokenAllocation>, pot_id: u8) -> int
    decreases allocations.len(),
{
    if allocations.len() == 0 {
        0
    } else {
        let before = first_record(allocations.drop_last(), pot_id);
        if before < allocations.len() - 1 {
            before
        } else if allocations.last().pot_id == pot_id {
            allocations.len() - 1
        } else {
            allocations.len() as int
        }
    }
}

/// The position of the first entry of player `name`, or the number of entries when there is
/// none.
pub open spec fn first_player(players: Seq<PlayerAllocationsView>, name: Seq<char>) -> int
    decreases players.len(),
{
    if players.len() == 0 {
        0
    } else {
        let before = first_player(players.drop_last(), name);
        if before < players.len() - 1 {
            before
        } else if players.last().player == name {
            players.len() - 1
        } else {
            players.len() as int
        }
    }
}

/// What `first_record` finds: the first position that holds the pot, within the bounds.
pub proof fn lemma_first_record(allocations: Seq<TokenAllocation>, pot_id: u8)
    ensures
        0 <= first_record(allocations, pot_id) <= allocations.len(),
        first_record(allocations, pot_id) < allocations.len() ==> allocations[first_record(
            allocations,
            pot_id,
        )].pot_id == pot_id,
        forall|k: int|
            0 <= k < first_record(allocations, pot_id) ==> (#[trigger] allocations[k]).pot_id
                != pot_id,
    decreases allocations.len(),
{
    if allocations.len() > 0 {
        lemma_first_record(allocations.drop_last(), pot_id);
        let before = first_record(allocations.drop_last(), pot_id);
        assert forall|k: int| 0 <= k < first_record(allocations, pot_id) implies (
        #[trigger] allocations[k]).pot_id != pot_id by {
            if k < allocations.len() - 1 {
                assert(allocations.drop_last()[k] == allocations[k]);
            }
        }
        if before < allocations.len() - 1 {
            assert(allocations.drop_last()[before] == allocations[before]);
        }
    }
}

/// What `first_player` finds: the first position that holds the name, within the bounds.
pub proof fn lemma_first_player(players: Seq<PlayerAllocationsView>, name: Seq<char>)
    ensures
        0 <= first_player(players, name) <= players.len(),
        first_player(players, name) < players.len() ==> players[first_player(
            players,
            name,
        )].player == name,
        forall|k: int|
            0 <= k < first_player(players, name) ==> (#[trigger] players[k]).player != name,
    decreases players.len(),
{
    if players.len() > 0 {
        lemma_first_player(players.drop_last(), name);
        let before = first_player(players.drop_last(), name);
        assert forall|k: int| 0 <= k < first_player(players, name) implies (
        #[trigger] players[k]).player != name by {
            if k < players.len() - 1 {
                assert(players.drop_last()[k] == players[k]);
            }
        }
        if before < players.len() - 1 {
            assert(players.drop_last()[before] == players[before]);
        }
    }
}

/// The records of `name`: those of the first entry with that name, or none.
pub open spec fn records_of(players: Seq<PlayerAllocationsView>, name: Seq<char>) -> Seq<
    TokenAllocation,
> {
    if first_player(players, name) < players.len() {
        players[first_player(players, name)].allocations
    } else {
        Seq::empty()
    }
}

/// The amount in the first record for pot `pot_id`, or zero when there is none.
pub open spec fn recorded_amount(allocations: Seq<TokenAllocation>, pot_id: u8) -> u128 {
    if first_record(allocations, pot_id) < allocations.len() {
        allocations[first_record(allocations, pot_id)].amount
    } else {
        0
    }
}

/// One player's records after `amount` was added to, or taken from, pot `pot_id`.
///
/// An existing record is changed in place; a new record is appended only on increase.
pub open spec fn records_updated(
    allocations: Seq<TokenAllocation>,
    pot_id: u8,
    amount: u128,
    increase: bool,
) -> Result<Seq<TokenAllocation>, ContractError> {
    let k = first_record(allocations, pot_id);
    if k < allocations.len() {
        let held = allocations[k].amount;
        if increase {
            if held + amount > u128::MAX {
                Err(ContractError::OverflowError)
            } else {
                Ok(allocations.update(k, TokenAllocation { pot_id, amount: (held + amount) as u128 }))
            }
        } else {
            if amount > held {
                Err(ContractError::OverflowError)
            } else {
                Ok(allocations.update(k, TokenAllocation { pot_id, amount: (held - amount) as u128 }))
            }
        }
    } else if increase {
        Ok(allocations.push(TokenAllocation { pot_id, amount }))
    } else {
        Ok(allocations)
    }
}

/// All players' records after `amount` was added to, or taken from, what `name` holds in pot
/// `pot_id`. A player without an entry gets one.
pub open spec fn players_updated(
    players: Seq<PlayerAllocationsView>,
    name: Seq<char>,
    pot_id: u8,
    amount: u128,
    increase: bool,
) -> Result<Seq<PlayerAllocationsView>, ContractError> {
    if !valid_pot(pot_id) {
        Err(ContractError::InvalidPot)
    } else {
        match records_updated(records_of(players, name), pot_id, amount, increase) {
            Err(e) => Err(e),
            Ok(records) => {
                let entry = PlayerAllocationsView { player: name, allocations: records };
                if first_player(players, name) < players.len() {
                    Ok(players.update(first_player(players, name), entry))
                } else {
                    Ok(players.push(entry))
                }
            },
        }
    }
}

/// The five pots after `amount` was added to, or taken from, pot `pot_id`.
pub open spec fn pots_updated(pots: Seq<u128>, pot_id: u8, amount: u128, increase: bool) -> Result<
    Seq<u128>,
    ContractError,
> {
    if !valid_pot(pot_id) {
        Err(ContractError::InvalidPot)
    } else if increase {
        if pots[pot_id - 1] + amount > u128::MAX {
            Err(ContractError::OverflowError)
        } else {
            Ok(pots.update(pot_id - 1, (pots[pot_id - 1] + amount) as u128))
        }
    } else {
        if amount > pots[pot_id - 1] {
            Err(ContractError::InsufficientFunds)
        } else {
            Ok(pots.update(pot_id - 1, (pots[pot_id - 1] - amount) as u128))
        }
    }
}

/// Records `sender` as the first depositor of pot `pot_id` unless the pot has one.
///
/// Returns the record that stands after the call. Fails with `InvalidPot` exactly when
/// `pot_id` is not one of the five pots.
pub fn set_first_bidder_if_not_set(
    first_bidders: &mut [Option<FirstBidder>; 5],
    pot_id: u8,
    sender: &String,
    current_time: u64,
) -> (r: Result<FirstBidder, ContractError>)
    ensures
        !valid_pot(pot_id) ==> r == Err::<FirstBidder, ContractError>(ContractError::InvalidPot)
            && *final(first_bidders) == *old(first_bidders),
        valid_pot(pot_id) ==> r is Ok && final(first_bidders).deep_view() == old(
            first_bidders,
        ).deep_view().update(pot_id - 1, Some(r->Ok_0@)) && r->Ok_0@ == (match old(
            first_bidders,
        ).deep_view()[pot_id - 1] {
            Some(first) => first,
            None => FirstBidderView { bidder: sender@, time: current_time },
        }),
{
    if pot_id < 1 || pot_id > 5 {
        return Err(ContractError::InvalidPot);
    }
    let idx: usize = (pot_id - 1) as usize;
    let existing: Option<FirstBidder> = match &first_bidders[idx] {
        Some(first) => Some(FirstBidder { bidder: first.bidder.clone(), time: first.time }),
        None => None,
    };
    match existing {
        Some(first) => {
            assert(first_bidders.deep_view() =~= old(first_bidders).deep_view().update(
                pot_id - 1,
                Some(first@),
            ));
            Ok(first)
        },
        None => {
            first_bidders[idx] = Some(FirstBidder { bidder: sender.clone(), time: current_time });
            assert(first_bidders.deep_view() =~= old(first_bidders).deep_view().update(
                pot_id - 1,
                Some(FirstBidderView { bidder: sender@, time: current_time }),
            ));
            Ok(FirstBidder { bidder: sender.clone(), time: current_time })
        },
    }
}

/// Where the first entry of `player` stands, or the number of entries.
pub fn find_player(players: &Vec<PlayerAllocations>, player: &String) -> (r: usize)
    ensures
        r == first_player(players.deep_view(), player@),
        r <= players@.len(),
{
    let n: usize = players.len();
    let mut i: usize = 0;
    while i < n
        invariant
            i <= n,
            n == players@.len(),
            first_player(players.deep_view().take(i as int), player@) == i,
        decreases n - i,
    {
        assert(players.deep_view().take(i + 1).drop_last() =~= players.deep_view().take(i as int));
        if players[i].player == *player {
            proof {
                lemma_first_player_prefix(players.deep_view(), player@, i as int);
            }
            return i;
        }
        i = i + 1;
    }
    assert(players.deep_view().take(n as int) =~= players.deep_view());
    n
}

/// Where the first record for pot `pot_id` stands, or the number of records.
pub fn find_record(allocations: &Vec<TokenAllocation>, pot_id: u8) -> (r: usize)
    ensures
        r == first_record(allocations@, pot_id),
        r <= allocations@.len(),
{
    let n: usize = allocations.len();
    let mut i: usize = 0;
    while i < n
        invariant
            i <= n,
            n == allocations@.len(),
            first_record(allocations@.take(i as int), pot_id) == i,
        decreases n - i,
    {
        assert(allocations@.take(i + 1).drop_last() =~= allocations@.take(i as int));
        if allocations[i].pot_id == pot_id {
            proof {
                lemma_first_record_prefix(allocations@, pot_id, i as int);
            }
            return i;
        }
        i = i + 1;
    }
    assert(allocations@.take(n as int) =~= allocations@);
    n
}

/// A match found in a prefix is the match of the whole.
pub proof fn lemma_first_player_prefix(players: Seq<PlayerAllocationsView>, name: Seq<char>, i: int)
    requires
        0 <= i < players.len(),
        first_player(players.take(i + 1), name) == i,
    ensures
        first_player(players, name) == i,
    decreases players.len(),
{
    if players.len() > i + 1 {
        assert(players.drop_last().take(i + 1) =~= players.take(i + 1));
        lemma_first_player_prefix(players.drop_last(), name, i);
    } else {
        assert(players.take(i + 1) =~= players);
    }
}

/// A match found in a prefix is the match of the whole.
pub proof fn lemma_first_record_prefix(allocations: Seq<TokenAllocation>, pot_id: u8, i: int)
    requires
        0 <= i < allocations.len(),
        first_record(allocations.take(i + 1), pot_id) == i,
    ensures
        first_record(allocations, pot_id) == i,
    decreases allocations.len(),
{
    if allocations.len() > i + 1 {
        assert(allocations.drop_last().take(i + 1) =~= allocations.take(i + 1));
        lemma_first_record_prefix(allocations.drop_last(), pot_id, i);
    } else {
        assert(allocations.take(i + 1) =~= allocations);
    }
}

/// Adds `amount` to, or takes it from, what `player` holds in pot `pot_id`.
///
/// An existing record is changed in place; a record is created only on increase, and a
/// player without an entry gets one. Fails with `InvalidPot` for an unknown pot and with
/// `OverflowError` when the record would leave the 128-bit range in either direction; then
/// nothing changes.
pub fn update_player_allocation(
    players: &mut Vec<PlayerAllocations>,
    player: &String,
    pot_id: u8,
    amount: u128,
    increase: bool,
) -> (r: Result<(), ContractError>)
    ensures
        match players_updated(old(players).deep_view(), player@, pot_id, amount, increase) {
            Ok(updated) => r == Ok::<(), ContractError>(()) && final(players).deep_view()
                == updated,
            Err(e) => r == Err::<(), ContractError>(e) && *final(players) == *old(players),
        },
{
    if pot_id < 1 || pot_id > 5 {
        return Err(ContractError::InvalidPot);
    }
    let i: usize = find_player(players, player);
    if i < players.len() {
        let k: usize = find_record(&players[i].allocations, pot_id);
        if k < players[i].allocations.len() {
            let held: u128 = players[i].allocations[k].amount;
            let changed: Option<u128> = if increase {
                held.checked_add(amount)
            } else {
                held.checked_sub(amount)
            };
            match changed {
                Some(new_amount) => {
                    players[i].allocations[k] = TokenAllocation { pot_id, amount: new_amount };
                },
                None => {
                    return Err(ContractError::OverflowError);
                },
            }
        } else if increase {
            players[i].allocations.push(TokenAllocation { pot_id, amount });
        }
        proof {
            lemma_first_player(old(players).deep_view(), player@);
            assert(players.deep_view() =~= players_updated(
                old(players).deep_view(),
                player@,
                pot_id,
                amount,
                increase,
            )->Ok_0);
        }
    } else {
        let mut allocations: Vec<TokenAllocation> = Vec::new();
        if increase {
            allocations.push(TokenAllocation { pot_id, amount });
        }
        players.push(PlayerAllocations { player: player.clone(), allocations });
        proof {
            assert(players.deep_view() =~= players_updated(
                old(players).deep_view(),
                player@,
                pot_id,
                amount,
                increase,
            )->Ok_0);
        }
    }
    Ok(())
}

/// Adds `amount` to, or takes it from, pot `pot_id`.
///
/// Fails with `InvalidPot` for an unknown pot, with `OverflowError` when the pot would
/// leave the 128-bit range, and with `InsufficientFunds` when it would go negative; then
/// nothing changes.
pub fn update_pot_state(pots: &mut [u128; 5], pot_id: u8, amount: u128, increase: bool) -> (r:
    Result<(), ContractError>)
    ensures
        match pots_updated(old(pots)@, pot_id, amount, increase) {
            Ok(updated) => r == Ok::<(), ContractError>(()) && final(pots)@ == updated,
            Err(e) => r == Err::<(), ContractError>(e) && *final(pots) == *old(pots),
        },
{
    if pot_id < 1 || pot_id > 5 {
        return Err(ContractError::InvalidPot);
    }
    let idx: usize = (pot_id - 1) as usize;
    if increase {
        match pots[idx].checked_add(amount) {
            Some(total) => {
                pots[idx] = total;
                Ok(())
            },
            None => Err(ContractError::OverflowError),
        }
    } else {
        match pots[idx].checked_sub(amount) {
            Some(rest) => {
                pots[idx] = rest;
                Ok(())
            },
            None => Err(ContractError::InsufficientFunds),
        }
    }
}

/// The deposit floor after one held token: lowered by the decay fraction of itself, rounded
/// in the depositor's disfavour, and never below zero.
pub open spec fn discount_step(bid: u128, decay_factor: Decimal) -> u128 {
    let discount = mul_div(bid as int, decay_factor.atomics as int, DECIMAL_FRACTIONAL as int);
    if discount >= bid {
        0
    } else {
        (bid - discount) as u128
    }
}

/// The deposit floor after `tokens` held tokens, each lowering what the one before left.
pub open spec fn discounted_bid(bid: u128, tokens: nat, decay_factor: Decimal) -> u128
    decreases tokens,
{
    if tokens == 0 {
        bid
    } else {
        discount_step(discounted_bid(bid, (tokens - 1) as nat, decay_factor), decay_factor)
    }
}

/// The number of tokens held over all collections.
pub open spec fn holdings_total(holdings: Seq<u64>) -> nat
    decreases holdings.len(),
{
    if holdings.len() == 0 {
        0
    } else {
        holdings_total(holdings.drop_last()) + holdings.last() as nat
    }
}

/// The number of whole epochs since the start of the round.
pub open spec fn current_epoch(config: GameConfigView, state: GameState, now: u64) -> int {
    (now - state.start_time) / (config.game_duration_epoch as int)
}

/// The factor by which the deposit floor has risen, in atomic units of a decimal: one plus
/// the decay factor for each epoch, counted once more for each extension.
pub open spec fn floor_multiplier(config: GameConfigView, state: GameState, now: u64) -> int {
    DECIMAL_FRACTIONAL + config.decay_factor.atomics * current_epoch(config, state, now) * (
    state.extend_count + 1)
}

/// The deposit floor before any holder discount.
///
/// It is the minimum seed of a pot scaled by the floor multiplier and rounded down. There is
/// none before the round has started (`GameNotStarted`), with an epoch length of zero
/// (`DivideByZeroError`), or when multiplier or floor leave the 128-bit range
/// (`OverflowError`).
pub open spec fn base_min_bid(config: GameConfigView, state: GameState, now: u64) -> Result<
    u128,
    ContractError,
> {
    if now < state.start_time {
        Err(ContractError::GameNotStarted)
    } else if config.game_duration_epoch == 0 {
        Err(ContractError::DivideByZeroError)
    } else if floor_multiplier(config, state, now) > u128::MAX {
        Err(ContractError::OverflowError)
    } else if mul_div(
        config.min_pot_initial_allocation as int,
        floor_multiplier(config, state, now),
        DECIMAL_FRACTIONAL as int,
    ) > u128::MAX {
        Err(ContractError::OverflowError)
    } else {
        Ok(
            mul_div(
                config.min_pot_initial_allocation as int,
                floor_multiplier(config, state, now),
                DECIMAL_FRACTIONAL as int,
            ) as u128,
        )
    }
}

/// The least deposit accepted at `now` from a player who holds `holdings` tokens.
pub open spec fn min_bid(
    config: GameConfigView,
    state: GameState,
    now: u64,
    holdings: Seq<u64>,
) -> Result<
    u128,
    ContractError,
> {
    match base_min_bid(config, state, now) {
        Err(e) => Err(e),
        Ok(base) => Ok(discounted_bid(base, holdings_total(holdings), config.decay_factor)),
    }
}

/// The average amount of the five pots, rounded down.
pub open spec fn average_tokens(pots: Seq<u128>) -> Result<u128, ContractError> {
    if pots_total(pots) > u128::MAX {
        Err(ContractError::OverflowError)
    } else {
        Ok((pots_total(pots) / 5) as u128)
    }
}

/// The greatest deposit accepted: twice the average pot, but at least twice the deposit
/// floor that holds without any discount.
pub open spec fn max_bid(
    pots: Seq<u128>,
    undiscounted_min_bid: u128,
) -> Result<u128, ContractError> {
    match average_tokens(pots) {
        Err(e) => Err(e),
        Ok(average) => if 2 * average < 2 * undiscounted_min_bid {
            if 2 * undiscounted_min_bid > u128::MAX {
                Err(ContractError::OverflowError)
            } else {
                Ok((2 * undiscounted_min_bid) as u128)
            }
        } else {
            Ok((2 * average) as u128)
        },
    }
}

/// Discounting for `m` tokens and then for `n` more is discounting for `m + n`.
pub proof fn lemma_discounted_bid_add(bid: u128, m: nat, n: nat, decay_factor: Decimal)
    ensures
        discounted_bid(discounted_bid(bid, m, decay_factor), n, decay_factor) == discounted_bid(
            bid,
            m + n,
            decay_factor,
        ),
    decreases n,
{
    if n > 0 {
        lemma_discounted_bid_add(bid, m, (n - 1) as nat, decay_factor);
        assert((m + n - 1) as nat == m + (n - 1) as nat);
    }
}

/// Lowers `min_bid` once for each of `token_amount` held tokens.
pub fn calculate_discounted_bid(
    min_bid: u128,
    token_amount: u64,
    decay_factor: Decimal,
) -> (r: u128)
    ensures
        r == discounted_bid(min_bid, token_amount as nat, decay_factor),
{
    let mut bid: u128 = min_bid;
    let mut done: u64 = 0;
    while done < token_amount
        invariant
            done <= token_amount,
            bid == discounted_bid(min_bid, done as nat, decay_factor),
        decreases token_amount - done,
    {
        let discount: Option<u128> = decay_factor.mul_floor(bid);
        bid = match discount {
            Some(d) => if d >= bid {
                0
            } else {
                bid - d
            },
            None => 0,
        };
        done = done + 1;
    }
    bid
}

/// Multiplying a decimal by a whole number is exact.
proof fn lemma_decimal_times_integer(a: int, n: int)
    requires
        0 <= a,
        0 <= n,
    ensures
        mul_div(a, n * DECIMAL_FRACTIONAL, DECIMAL_FRACTIONAL as int) == a * n,
{
    assert((a * (n * 1_000_000_000_000_000_000)) / 1_000_000_000_000_000_000 == a * n)
        by (nonlinear_arith);
}

/// The deposit floor at `now` without any holder discount.
fn calculate_base_min_bid(config: &GameConfig, state: &GameState, now: u64) -> (r: Result<
    u128,
    ContractError,
>)
    ensures
        r == base_min_bid(config@, *state, now),
{
    if now < state.start_time {
        return Err(ContractError::GameNotStarted);
    }
    if config.game_duration_epoch == 0 {
        return Err(ContractError::DivideByZeroError);
    }
    let elapsed: u64 = now - state.start_time;
    let epoch: u64 = elapsed / config.game_duration_epoch;
    let extensions: u64 = state.extend_count as u64 + 1;
    proof {
        let d: int = config.decay_factor.atomics as int;
        lemma_decimal_times_integer(d, epoch as int);
        assert(0 <= d * epoch) by (nonlinear_arith)
            requires
                0 <= d,
                0 <= epoch,
        ;
        lemma_decimal_times_integer(d * epoch, extensions as int);
        assert(d * epoch <= d * epoch * extensions) by (nonlinear_arith)
            requires
                0 <= d * epoch,
                1 <= extensions,
        ;
    }
    let per_epoch: Decimal = match decimal_checked_mul(config.decay_factor, Decimal::from_integer(epoch)) {
        Some(p) => p,
        None => {
            return Err(ContractError::OverflowError);
        },
    };
    let adjusted: Decimal = match decimal_checked_mul(per_epoch, Decimal::from_integer(extensions)) {
        Some(p) => p,
        None => {
            return Err(ContractError::OverflowError);
        },
    };
    let multiplier: Decimal = match Decimal::one().checked_add(adjusted) {
        Some(m) => m,
        None => {
            return Err(ContractError::OverflowError);
        },
    };
    match multiplier.mul_floor(config.min_pot_initial_allocation) {
        Some(bid) => Ok(bid),
        None => Err(ContractError::OverflowError),
    }
}

/// The least deposit accepted at `now`.
///
/// `holdings` gives, for each collection that grants the discount, how many of its tokens
/// the depositor holds; it is empty where no depositor is considered.
pub fn calculate_min_bid(
    config: &GameConfig,
    state: &GameState,
    now: u64,
    holdings: &Vec<u64>,
) -> (r:
    Result<u128, ContractError>)
    ensures
        r == min_bid(config@, *state, now, holdings@),
{
    let base: u128 = match calculate_base_min_bid(config, state, now) {
        Ok(b) => b,
        Err(e) => {
            return Err(e);
        },
    };
    let mut bid: u128 = base;
    let n: usize = holdings.len();
    let mut i: usize = 0;
    while i < n
        invariant
            i <= n,
            n == holdings@.len(),
            bid == discounted_bid(base, holdings_total(holdings@.take(i as int)), config@.decay_factor),
        decreases n - i,
    {
        proof {
            assert(holdings@.take(i + 1).drop_last() =~= holdings@.take(i as int));
            lemma_discounted_bid_add(
                base,
                holdings_total(holdings@.take(i as int)),
                holdings@[i as int] as nat,
                config@.decay_factor,
            );
        }
        bid = calculate_discounted_bid(bid, holdings[i], config.decay_factor);
        i = i + 1;
    }
    assert(holdings@.take(n as int) =~= holdings@);
    Ok(bid)
}

/// The average amount of the five pots, rounded down.
pub fn calculate_average_tokens(pots: &[u128; 5]) -> (r: Result<u128, ContractError>)
    ensures
        r == average_tokens(pots@),
{
    let mut total: u128 = 0;
    let mut i: usize = 0;
    while i < 5
        invariant
            i <= 5,
            total == pots_total(pots@.take(i as int)),
        decreases 5 - i,
    {
        proof {
            assert(pots@.take(i + 1).drop_last() =~= pots@.take(i as int));
            lemma_pots_total_prefix(pots@, i + 1);
        }
        total = match total.checked_add(pots[i]) {
            Some(t) => t,
            None => {
                return Err(ContractError::OverflowError);
            },
        };
        i = i + 1;
    }
    assert(pots@.take(5) =~= pots@);
    Ok(total / 5)
}

/// The greatest deposit accepted, given the deposit floor that holds without any discount.
pub fn calculate_max_bid(
    pots: &[u128; 5],
    undiscounted_min_bid: u128,
) -> (r: Result<u128, ContractError>)
    ensures
        r == max_bid(pots@, undiscounted_min_bid),
{
    let average: u128 = match calculate_average_tokens(pots) {
        Ok(a) => a,
        Err(e) => {
            return Err(e);
        },
    };
    proof {
        lemma_pots_total_prefix(pots@, 5);
    }
    let doubled: u128 = average * 2;
    if average < undiscounted_min_bid {
        match undiscounted_min_bid.checked_mul(2) {
            Some(m) => Ok(m),
            None => Err(ContractError::OverflowError),
        }
    } else {
        Ok(doubled)
    }
}

/// Where a pot is first recorded depends on the pots of the records only.
pub proof fn lemma_first_record_same_pots(
    a: Seq<TokenAllocation>,
    b: Seq<TokenAllocation>,
    pot_id: u8,
)
    requires
        a.len() == b.len(),
        forall|k: int| 0 <= k < a.len() ==> (#[trigger] a[k]).pot_id == b[k].pot_id,
    ensures
        first_record(a, pot_id) == first_record(b, pot_id),
    decreases a.len(),
{
    if a.len() > 0 {
        assert forall|k: int| 0 <= k < a.drop_last().len() implies (#[trigger] a.drop_last()[k]).pot_id
            == b.drop_last()[k].pot_id by {
            assert(a.drop_last()[k] == a[k]);
            assert(b.drop_last()[k] == b[k]);
        }
        lemma_first_record_same_pots(a.drop_last(), b.drop_last(), pot_id);
        assert(a.last() == a[a.len() - 1]);
        assert(b.last() == b[b.len() - 1]);
    }
}

/// Where a player first stands depends on the names of the entries only.
pub proof fn lemma_first_player_same_names(
    a: Seq<PlayerAllocationsView>,
    b: Seq<PlayerAllocationsView>,
    name: Seq<char>,
)
    requires
        a.len() == b.len(),
        forall|k: int| 0 <= k < a.len() ==> (#[trigger] a[k]).player == b[k].player,
    ensures
        first_player(a, name) == first_player(b, name),
    decreases a.len(),
{
    if a.len() > 0 {
        assert forall|k: int| 0 <= k < a.drop_last().len() implies (#[trigger] a.drop_last()[k]).player
            == b.drop_last()[k].player by {
            assert(a.drop_last()[k] == a[k]);
            assert(b.drop_last()[k] == b[k]);
        }
        lemma_first_player_same_names(a.drop_last(), b.drop_last(), name);
        assert(a.last() == a[a.len() - 1]);
        assert(b.last() == b[b.len() - 1]);
    }
}

/// What a player holds in one pot is untouched by a change of the player's record for
/// another pot.
pub proof fn lemma_players_updated_other_pot(
    players: Seq<PlayerAllocationsView>,
    name: Seq<char>,
    pot_id: u8,
    amount: u128,
    other: u8,
)
    requires
        other != pot_id,
        players_updated(players, name, pot_id, amount, false) is Ok,
        first_record(records_of(players, name), pot_id) < records_of(players, name).len(),
    ensures
        recorded_amount(
            records_of(players_updated(players, name, pot_id, amount, false)->Ok_0, name),
            other,
        ) == recorded_amount(records_of(players, name), other),
        first_record(
            records_of(players_updated(players, name, pot_id, amount, false)->Ok_0, name),
            other,
        ) < records_of(players_updated(players, name, pot_id, amount, false)->Ok_0, name).len()
            <==> first_record(records_of(players, name), other) < records_of(players, name).len(),
        first_player(players_updated(players, name, pot_id, amount, false)->Ok_0, name)
            == first_player(players, name),
{
    let records = records_of(players, name);
    let after = players_updated(players, name, pot_id, amount, false)->Ok_0;
    let i = first_player(players, name);
    lemma_first_player(players, name);
    lemma_first_record(records, pot_id);
    lemma_first_record(records, other);
    assert(i < players.len());
    lemma_first_player_same_names(after, players, name);
    let k = first_record(records, pot_id);
    let changed = records_updated(records, pot_id, amount, false)->Ok_0;
    assert(records_of(after, name) == changed);
    lemma_first_record_same_pots(changed, records, other);
}

} // verus!
