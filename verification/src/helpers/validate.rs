//! The checks an action must pass before it may change anything.

use vstd::prelude::*;
use crate::error::ContractError;
use crate::helpers::pot::{find_player, records_of};
use crate::state::{
    lemma_stake_in_prefix, pots_total, stake_in, valid_pot, Coin, CoinView, GameConfig,
    GameConfigView, GameState, PlayerAllocations, PlayerReallocations, PlayerReallocationsView,
    TokenAllocation,
};

verus! {

/// Whether `caller` is the administrator named by `contract_admin`.
pub open spec fn is_admin(contract_admin: Option<Seq<char>>, caller: Seq<char>) -> bool {
    contract_admin == Some(caller)
}

/// Accepts the administrator only. Without an administrator nobody is accepted.
pub fn validate_is_contract_admin(
    contract_admin: &Option<String>,
    sus_admin: &String,
) -> (r: Result<
    (),
    ContractError,
>)
    ensures
        r == if is_admin(contract_admin.deep_view(), sus_admin@) {
            Ok::<(), ContractError>(())
        } else {
            Err::<(), ContractError>(ContractError::Unauthorized)
        },
{
    match contract_admin {
        Some(admin) => {
            if *admin == *sus_admin {
                Ok(())
            } else {
                Err(ContractError::Unauthorized)
            }
        },
        None => Err(ContractError::Unauthorized),
    }
}

/// Whether `caller` may settle the round at `now`: after the grace period anybody may, and
/// before it only the administrator. Where there is no administrator, nobody may before the
/// grace period is over.
pub open spec fn may_end_game(
    config: GameConfigView,
    state: GameState,
    contract_admin: Option<Seq<char>>,
    now: u64,
    caller: Seq<char>,
) -> bool {
    now >= state.end_time + config.game_end_threshold || contract_admin == Some(caller)
}

/// Accepts whoever may settle the round at `now`.
pub fn validate_is_contract_admin_game_end(
    config: &GameConfig,
    state: &GameState,
    contract_admin: &Option<String>,
    now: u64,
    sus_admin: &String,
) -> (r: Result<(), ContractError>)
    ensures
        r == if may_end_game(config@, *state, contract_admin.deep_view(), now, sus_admin@) {
            Ok::<(), ContractError>(())
        } else {
            Err::<(), ContractError>(ContractError::Unauthorized)
        },
{
    let within_threshold: bool = match state.end_time.checked_add(config.game_end_threshold) {
        Some(open_at) => now < open_at,
        None => true,
    };
    if within_threshold {
        validate_is_contract_admin(contract_admin, sus_admin)
    } else {
        Ok(())
    }
}

/// The seed of each pot when `total_amount` is split over the five pots, if it reaches the
/// configured minimum.
pub open spec fn pot_initial_amount(min_pot_initial_allocation: u128, total_amount: u128) -> Result<
    u128,
    ContractError,
> {
    if total_amount / 5 < min_pot_initial_allocation {
        Err(ContractError::NotEnoughFundsForNextRound)
    } else {
        Ok(total_amount / 5)
    }
}

/// Splits `total_amount` over the five pots, rounding down, and refuses a seed below the
/// configured minimum.
pub fn validate_pot_initial_amount(
    min_pot_initial_allocation: u128,
    total_amount: u128,
) -> (r: Result<
    u128,
    ContractError,
>)
    ensures
        r == pot_initial_amount(min_pot_initial_allocation, total_amount),
{
    let amount_per_pot: u128 = total_amount / 5;
    if amount_per_pot < min_pot_initial_allocation {
        Err(ContractError::NotEnoughFundsForNextRound)
    } else {
        Ok(amount_per_pot)
    }
}

/// The position of the first counter of player `name`, or the number of counters when there
/// is none.
pub open spec fn first_counter(reallocations: Seq<PlayerReallocationsView>, name: Seq<char>) -> int
    decreases reallocations.len(),
{
    if reallocations.len() == 0 {
        0
    } else {
        let before = first_counter(reallocations.drop_last(), name);
        if before < reallocations.len() - 1 {
            before
        } else if reallocations.last().player == name {
            reallocations.len() - 1
        } else {
            reallocations.len() as int
        }
    }
}

/// How often `name` has reallocated this round.
pub open spec fn reallocations_of(
    reallocations: Seq<PlayerReallocationsView>,
    name: Seq<char>,
) -> u64 {
    if first_counter(reallocations, name) < reallocations.len() {
        reallocations[first_counter(reallocations, name)].count
    } else {
        0
    }
}

/// The counters after one more reallocation of `name`, unless the limit is reached.
pub open spec fn reallocations_increased(
    reallocations: Seq<PlayerReallocationsView>,
    limit: u64,
    name: Seq<char>,
) -> Result<Seq<PlayerReallocationsView>, ContractError> {
    let current = reallocations_of(reallocations, name);
    if current >= limit {
        Err(ContractError::ReallocationsLimitReached)
    } else {
        let entry = PlayerReallocationsView { player: name, count: (current + 1) as u64 };
        if first_counter(reallocations, name) < reallocations.len() {
            Ok(reallocations.update(first_counter(reallocations, name), entry))
        } else {
            Ok(reallocations.push(entry))
        }
    }
}

/// What `first_counter` finds: the first position that holds the name, within the bounds.
pub proof fn lemma_first_counter(reallocations: Seq<PlayerReallocationsView>, name: Seq<char>)
    ensures
        0 <= first_counter(reallocations, name) <= reallocations.len(),
        first_counter(reallocations, name) < reallocations.len() ==> reallocations[first_counter(
            reallocations,
            name,
        )].player == name,
        forall|k: int|
            0 <= k < first_counter(reallocations, name) ==> (#[trigger] reallocations[k]).player
                != name,
    decreases reallocations.len(),
{
    if reallocations.len() > 0 {
        lemma_first_counter(reallocations.drop_last(), name);
        let before = first_counter(reallocations.drop_last(), name);
        assert forall|k: int| 0 <= k < first_counter(reallocations, name) implies (
        #[trigger] reallocations[k]).player != name by {
            if k < reallocations.len() - 1 {
                assert(reallocations.drop_last()[k] == reallocations[k]);
            }
        }
        if before < reallocations.len() - 1 {
            assert(reallocations.drop_last()[before] == reallocations[before]);
        }
    }
}

/// A match found in a prefix is the match of the whole.
pub proof fn lemma_first_counter_prefix(
    reallocations: Seq<PlayerReallocationsView>,
    name: Seq<char>,
    i: int,
)
    requires
        0 <= i < reallocations.len(),
        first_counter(reallocations.take(i + 1), name) == i,
    ensures
        first_counter(reallocations, name) == i,
    decreases reallocations.len(),
{
    if reallocations.len() > i + 1 {
        assert(reallocations.drop_last().take(i + 1) =~= reallocations.take(i + 1));
        lemma_first_counter_prefix(reallocations.drop_last(), name, i);
    } else {
        assert(reallocations.take(i + 1) =~= reallocations);
    }
}

/// Where the first counter of `player` stands, or the number of counters.
pub fn find_counter(reallocations: &Vec<PlayerReallocations>, player: &String) -> (r: usize)
    ensures
        r == first_counter(reallocations.deep_view(), player@),
        r <= reallocations@.len(),
{
    let n: usize = reallocations.len();
    let mut i: usize = 0;
    while i < n
        invariant
            i <= n,
            n == reallocations@.len(),
            first_counter(reallocations.deep_view().take(i as int), player@) == i,
        decreases n - i,
    {
        assert(reallocations.deep_view().take(i + 1).drop_last() =~= reallocations.deep_view().take(
            i as int,
        ));
        if reallocations[i].player == *player {
            proof {
                lemma_first_counter_prefix(reallocations.deep_view(), player@, i as int);
            }
            return i;
        }
        i = i + 1;
    }
    assert(reallocations.deep_view().take(n as int) =~= reallocations.deep_view());
    n
}

/// Counts one more reallocation of `player`, unless the player has reached `limit`.
///
/// Fails with `ReallocationsLimitReached` exactly when the player's count is `limit` or
/// more; then nothing changes.
pub fn validate_increase_player_reallocations(
    reallocations: &mut Vec<PlayerReallocations>,
    limit: u64,
    player: &String,
) -> (r: Result<(), ContractError>)
    ensures
        match reallocations_increased(old(reallocations).deep_view(), limit, player@) {
            Ok(updated) => r == Ok::<(), ContractError>(()) && final(reallocations).deep_view()
                == updated,
            Err(e) => r == Err::<(), ContractError>(e) && *final(reallocations) == *old(
                reallocations,
            ),
        },
{
    let i: usize = find_counter(reallocations, player);
    let current: u64 = if i < reallocations.len() {
        reallocations[i].count
    } else {
        0
    };
    if current >= limit {
        return Err(ContractError::ReallocationsLimitReached);
    }
    let new_reallocations: u64 = current + 1;
    if i < reallocations.len() {
        reallocations[i].count = new_reallocations;
        proof {
            lemma_first_counter(old(reallocations).deep_view(), player@);
            assert(reallocations.deep_view() =~= reallocations_increased(
                old(reallocations).deep_view(),
                limit,
                player@,
            )->Ok_0);
        }
    } else {
        reallocations.push(PlayerReallocations { player: player.clone(), count: new_reallocations });
        proof {
            assert(reallocations.deep_view() =~= reallocations_increased(
                old(reallocations).deep_view(),
                limit,
                player@,
            )->Ok_0);
        }
    }
    Ok(())
}

/// Whether the records hold anything in pot `pot_id`.
pub fn has_stake(allocations: &Vec<TokenAllocation>, pot_id: u8) -> (r: bool)
    ensures
        r == (stake_in(allocations@, pot_id) > 0),
{
    let n: usize = allocations.len();
    let mut i: usize = 0;
    while i < n
        invariant
            i <= n,
            n == allocations@.len(),
            stake_in(allocations@.take(i as int), pot_id) == 0,
        decreases n - i,
    {
        assert(allocations@.take(i + 1).drop_last() =~= allocations@.take(i as int));
        if allocations[i].pot_id == pot_id && allocations[i].amount != 0 {
            proof {
                lemma_stake_in_prefix(allocations@, pot_id, i + 1);
            }
            return true;
        }
        i = i + 1;
    }
    assert(allocations@.take(n as int) =~= allocations@);
    false
}

/// Refuses a player who already holds something in pot `pot_id`.
///
/// Fails with `AlreadyAllocated` exactly when the player's records hold a positive amount in
/// that pot.
pub fn validate_existing_allocation(
    players: &Vec<PlayerAllocations>,
    player: &String,
    pot_id: u8,
) -> (r:
    Result<(), ContractError>)
    ensures
        r == if stake_in(records_of(players.deep_view(), player@), pot_id) > 0 {
            Err::<(), ContractError>(ContractError::AlreadyAllocated)
        } else {
            Ok::<(), ContractError>(())
        },
{
    let i: usize = find_player(players, player);
    if i < players.len() {
        if has_stake(&players[i].allocations, pot_id) {
            return Err(ContractError::AlreadyAllocated);
        }
    }
    Ok(())
}

/// Whether pot `pot_id` may grow by `amount`: afterwards it must not hold more than the
/// other four pots together.
pub open spec fn pot_limit(pots: Seq<u128>, pot_id: u8, amount: u128) -> Result<(), ContractError> {
    if !valid_pot(pot_id) {
        Err(ContractError::InvalidPot)
    } else if pots_total(pots) - pots[pot_id - 1] > u128::MAX || pots[pot_id - 1] + amount
        > u128::MAX {
        Err(ContractError::OverflowError)
    } else if pots[pot_id - 1] + amount > pots_total(pots) - pots[pot_id - 1] {
        Err(ContractError::PotLimitReached)
    } else {
        Ok(())
    }
}

/// Refuses a deposit of `amount` into pot `pot_id` that would make the pot larger than the
/// sum of the other four.
pub fn validate_pot_limit_not_exceeded(pots: &[u128; 5], pot_id: u8, amount: u128) -> (r: Result<
    (),
    ContractError,
>)
    ensures
        r == pot_limit(pots@, pot_id, amount),
{
    if pot_id < 1 || pot_id > 5 {
        return Err(ContractError::InvalidPot);
    }
    let idx: usize = (pot_id - 1) as usize;
    let mut sum_of_other_pots: u128 = 0;
    let mut i: usize = 0;
    proof {
        assert(pots@.take(0).len() == 0);
        lemma_others_total_prefix(pots@, idx as int, 0);
    }
    while i < 5
        invariant
            i <= 5,
            1 <= pot_id <= 5,
            idx == pot_id - 1,
            sum_of_other_pots == pots_total(pots@.take(i as int)) - if idx < i {
                pots@[idx as int] as int
            } else {
                0
            },
            pots_total(pots@) - pots@[idx as int] >= sum_of_other_pots,
        decreases 5 - i,
    {
        proof {
            assert(pots@.take(i + 1).drop_last() =~= pots@.take(i as int));
            assert(pots@.take(i + 1).last() == pots@[i as int]);
            assert(pots_total(pots@.take(i + 1)) == pots_total(pots@.take(i as int)) + pots@[i as int]);
            lemma_others_total_prefix(pots@, idx as int, i + 1);
        }
        if i != idx {
            sum_of_other_pots = match sum_of_other_pots.checked_add(pots[i]) {
                Some(s) => s,
                None => {
                    return Err(ContractError::OverflowError);
                },
            };
        }
        i = i + 1;
    }
    assert(pots@.take(5) =~= pots@);
    let new_current_pot_amount: u128 = match pots[idx].checked_add(amount) {
        Some(s) => s,
        None => {
            return Err(ContractError::OverflowError);
        },
    };
    if new_current_pot_amount > sum_of_other_pots {
        Err(ContractError::PotLimitReached)
    } else {
        Ok(())
    }
}

/// The sum over a prefix without one entry is at most the sum over the whole without it.
pub proof fn lemma_others_total_prefix(pots: Seq<u128>, idx: int, i: int)
    requires
        0 <= idx < pots.len(),
        0 <= i <= pots.len(),
    ensures
        pots_total(pots.take(i)) - (if idx < i {
            pots[idx] as int
        } else {
            0
        }) <= pots_total(pots) - pots[idx],
    decreases pots.len() - i,
{
    if i == pots.len() {
        assert(pots.take(i) =~= pots);
    } else {
        assert(pots.take(i + 1).drop_last() =~= pots.take(i));
        lemma_others_total_prefix(pots, idx, i + 1);
    }
}

/// Whether deposits and reallocations are accepted at `now`.
pub open spec fn game_time(state: GameState, now: u64) -> Result<(), ContractError> {
    if now < state.start_time {
        Err(ContractError::GameNotStarted)
    } else if now >= state.end_time {
        Err(ContractError::GameAlreadyEnded)
    } else {
        Ok(())
    }
}

/// Accepts `now` when the round has started and has not ended.
pub fn validate_game_time(state: &GameState, now: u64) -> (r: Result<(), ContractError>)
    ensures
        r == game_time(*state, now),
{
    if now < state.start_time {
        Err(ContractError::GameNotStarted)
    } else if now >= state.end_time {
        Err(ContractError::GameAlreadyEnded)
    } else {
        Ok(())
    }
}

/// The clock of the round after an action at `now`.
///
/// An action in the last `game_extend` seconds of the round moves the end of the round by
/// `game_extend` seconds and counts one extension; an earlier action leaves the clock alone.
pub open spec fn extended_state(config: GameConfigView, state: GameState, now: u64) -> Result<
    GameState,
    ContractError,
> {
    if now >= state.end_time {
        Err(ContractError::GameAlreadyEnded)
    } else if state.end_time - now <= config.game_extend {
        if state.end_time + config.game_extend > u64::MAX || state.extend_count + 1 > u32::MAX {
            Err(ContractError::OverflowError)
        } else {
            Ok(
                GameState {
                    end_time: (state.end_time + config.game_extend) as u64,
                    extend_count: (state.extend_count + 1) as u32,
                    ..state
                },
            )
        }
    } else {
        Ok(state)
    }
}

/// Refuses an action after the end of the round, and prolongs the round for a late one.
///
/// Fails with `GameAlreadyEnded` when `now` is not before the end, and with `OverflowError`
/// when the new end or the extension count leaves its range; then nothing changes.
pub fn validate_and_extend_game_time(config: &GameConfig, state: &mut GameState, now: u64) -> (r:
    Result<(), ContractError>)
    ensures
        match extended_state(config@, *old(state), now) {
            Ok(next) => r == Ok::<(), ContractError>(()) && *final(state) == next,
            Err(e) => r == Err::<(), ContractError>(e) && *final(state) == *old(state),
        },
{
    if now >= state.end_time {
        return Err(ContractError::GameAlreadyEnded);
    }
    let remaining_time: u64 = state.end_time - now;
    if remaining_time <= config.game_extend {
        let end_time: u64 = match state.end_time.checked_add(config.game_extend) {
            Some(t) => t,
            None => {
                return Err(ContractError::OverflowError);
            },
        };
        let extend_count: u32 = match state.extend_count.checked_add(1) {
            Some(c) => c,
            None => {
                return Err(ContractError::OverflowError);
            },
        };
        state.end_time = end_time;
        state.extend_count = extend_count;
    }
    Ok(())
}

/// Accepts `now` when the round is over.
pub fn validate_game_end_time(state: &GameState, now: u64) -> (r: Result<(), ContractError>)
    ensures
        r == if now < state.end_time {
            Err::<(), ContractError>(ContractError::GameStillActive)
        } else {
            Ok::<(), ContractError>(())
        },
{
    if now < state.end_time {
        return Err(ContractError::GameStillActive);
    }
    Ok(())
}

/// The sum of the coins of denomination `denom`.
pub open spec fn denom_total(funds: Seq<CoinView>, denom: Seq<char>) -> int
    decreases funds.len(),
{
    if funds.len() == 0 {
        0
    } else {
        denom_total(funds.drop_last(), denom) + if funds.last().denom == denom {
            funds.last().amount as int
        } else {
            0
        }
    }
}

/// The sum over a prefix is at most the sum over the whole.
pub proof fn lemma_denom_total_prefix(funds: Seq<CoinView>, denom: Seq<char>, i: int)
    requires
        0 <= i <= funds.len(),
    ensures
        0 <= denom_total(funds.take(i), denom) <= denom_total(funds, denom),
    decreases funds.len(),
{
    if i == funds.len() {
        assert(funds.take(i) =~= funds);
        if funds.len() > 0 {
            lemma_denom_total_prefix(funds.drop_last(), denom, i - 1);
        }
    } else {
        assert(funds.drop_last().take(i) =~= funds.take(i));
        lemma_denom_total_prefix(funds.drop_last(), denom, i);
    }
}

/// What `funds` hold of the denomination `denom`, which must be something.
pub open spec fn funds_amount(
    funds: Seq<CoinView>,
    denom: Seq<char>,
) -> Result<u128, ContractError> {
    if denom_total(funds, denom) > u128::MAX {
        Err(ContractError::OverflowError)
    } else if denom_total(funds, denom) == 0 {
        Err(ContractError::InvalidFunds)
    } else {
        Ok(denom_total(funds, denom) as u128)
    }
}

/// Sums the coins of the expected denomination and refuses a sum of zero.
pub fn validate_funds(
    funds: &Vec<Coin>,
    expected_denom: &String,
) -> (r: Result<u128, ContractError>)
    ensures
        r == funds_amount(funds.deep_view(), expected_denom@),
{
    let n: usize = funds.len();
    let mut total_amount: u128 = 0;
    let mut i: usize = 0;
    while i < n
        invariant
            i <= n,
            n == funds@.len(),
            total_amount == denom_total(funds.deep_view().take(i as int), expected_denom@),
        decreases n - i,
    {
        proof {
            assert(funds.deep_view().take(i + 1).drop_last() =~= funds.deep_view().take(i as int));
            lemma_denom_total_prefix(funds.deep_view(), expected_denom@, i + 1);
        }
        if funds[i].denom == *expected_denom {
            total_amount = match total_amount.checked_add(funds[i].amount) {
                Some(t) => t,
                None => {
                    return Err(ContractError::OverflowError);
                },
            };
        }
        i = i + 1;
    }
    assert(funds.deep_view().take(n as int) =~= funds.deep_view());
    if total_amount == 0 {
        return Err(ContractError::InvalidFunds);
    }
    Ok(total_amount)
}

} // verus!
