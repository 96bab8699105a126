//! The entities of the game and their mathematical views.
//!
//! Every entity that carries text (an address, a denomination, a token identifier) has a
//! view in which the text is a sequence of characters; contracts speak of the views.

use vstd::prelude::*;
use crate::math::Decimal;

verus! {

/// The number of pots. Pot identifiers run from 1 to this number.
pub const POT_COUNT: u8 = 5;

/// The parameters of the game, set by the administrator.
#[derive(Clone, Debug, PartialEq, Eq)]
pub struct GameConfig {
    /// Percentage skimmed from every winning pot's payout.
    pub fee: u64,
    /// Percentage skimmed from every reallocated stake.
    pub fee_reallocation: u64,
    /// Where the fees go.
    pub fee_address: String,
    /// The denomination that is wagered.
    pub game_denom: String,
    /// Token collections whose holders deposit at a discount.
    pub game_cw721_addrs: Vec<String>,
    /// Seconds from the start of a round to its end.
    pub game_duration: u64,
    /// Seconds per step of the rising deposit floor.
    pub game_duration_epoch: u64,
    /// Seconds by which a late action prolongs the round.
    pub game_extend: u64,
    /// Seconds after the end during which only the administrator may settle.
    pub game_end_threshold: u64,
    /// The least amount each pot is seeded with.
    pub min_pot_initial_allocation: u128,
    /// The fraction by which floor, discount and prize move per step.
    pub decay_factor: Decimal,
    /// How often a player may reallocate in one round.
    pub reallocations_limit: u64,
}

/// The mathematical view of a [`GameConfig`].
pub struct GameConfigView {
    pub fee: u64,
    pub fee_reallocation: u64,
    pub fee_address: Seq<char>,
    pub game_denom: Seq<char>,
    pub game_cw721_addrs: Seq<Seq<char>>,
    pub game_duration: u64,
    pub game_duration_epoch: u64,
    pub game_extend: u64,
    pub game_end_threshold: u64,
    pub min_pot_initial_allocation: u128,
    pub decay_factor: Decimal,
    pub reallocations_limit: u64,
}

impl View for GameConfig {
    type V = GameConfigView;

    open spec fn view(&self) -> GameConfigView {
        GameConfigView {
            fee: self.fee,
            fee_reallocation: self.fee_reallocation,
            fee_address: self.fee_address@,
            game_denom: self.game_denom@,
            game_cw721_addrs: self.game_cw721_addrs.deep_view(),
            game_duration: self.game_duration,
            game_duration_epoch: self.game_duration_epoch,
            game_extend: self.game_extend,
            game_end_threshold: self.game_end_threshold,
            min_pot_initial_allocation: self.min_pot_initial_allocation,
            decay_factor: self.decay_factor,
            reallocations_limit: self.reallocations_limit,
        }
    }
}

/// The optional bonus prize: a token of a collection, and an amount.
#[derive(Clone, Debug, PartialEq, Eq)]
pub struct Raffle {
    pub cw721_token_id: Option<String>,
    pub cw721_addr: Option<String>,
    pub denom_amount: u128,
}

/// The mathematical view of a [`Raffle`].
pub struct RaffleView {
    pub cw721_token_id: Option<Seq<char>>,
    pub cw721_addr: Option<Seq<char>>,
    pub denom_amount: u128,
}

impl View for Raffle {
    type V = RaffleView;

    open spec fn view(&self) -> RaffleView {
        RaffleView {
            cw721_token_id: self.cw721_token_id.deep_view(),
            cw721_addr: self.cw721_addr.deep_view(),
            denom_amount: self.denom_amount,
        }
    }
}

/// The clock of the current round.
#[derive(Clone, Copy, Debug, PartialEq, Eq, Structural)]
pub struct GameState {
    pub round_count: u64,
    pub extend_count: u32,
    pub start_time: u64,
    pub end_time: u64,
}

impl Default for GameState {
    fn default() -> (r: GameState)
        ensures
            r == (GameState { round_count: 0, extend_count: 0, start_time: 0, end_time: 0 }),
    {
        GameState { round_count: 0, extend_count: 0, start_time: 0, end_time: 0 }
    }
}

/// An amount held in a pot: a pot's total, or one player's stake in it.
#[derive(Clone, Copy, Debug, PartialEq, Eq, Structural)]
pub struct TokenAllocation {
    pub pot_id: u8,
    pub amount: u128,
}

/// The stakes of one player in the current round.
#[derive(Clone, Debug, PartialEq, Eq)]
pub struct PlayerAllocations {
    pub player: String,
    pub allocations: Vec<TokenAllocation>,
}

/// The mathematical view of a [`PlayerAllocations`].
pub struct PlayerAllocationsView {
    pub player: Seq<char>,
    pub allocations: Seq<TokenAllocation>,
}

impl View for PlayerAllocations {
    type V = PlayerAllocationsView;

    open spec fn view(&self) -> PlayerAllocationsView {
        PlayerAllocationsView { player: self.player@, allocations: self.allocations@ }
    }
}

impl DeepView for PlayerAllocations {
    type V = PlayerAllocationsView;

    open spec fn deep_view(&self) -> PlayerAllocationsView {
        self@
    }
}

/// How often one player has reallocated in the current round.
#[derive(Clone, Debug, PartialEq, Eq)]
pub struct PlayerReallocations {
    pub player: String,
    pub count: u64,
}

/// The mathematical view of a [`PlayerReallocations`].
pub struct PlayerReallocationsView {
    pub player: Seq<char>,
    pub count: u64,
}

impl View for PlayerReallocations {
    type V = PlayerReallocationsView;

    open spec fn view(&self) -> PlayerReallocationsView {
        PlayerReallocationsView { player: self.player@, count: self.count }
    }
}

impl DeepView for PlayerReallocations {
    type V = PlayerReallocationsView;

    open spec fn deep_view(&self) -> PlayerReallocationsView {
        self@
    }
}

/// Who deposited first into a pot this round, and when.
#[derive(Clone, Debug, PartialEq, Eq)]
pub struct FirstBidder {
    pub bidder: String,
    pub time: u64,
}

/// The mathematical view of a [`FirstBidder`].
pub struct FirstBidderView {
    pub bidder: Seq<char>,
    pub time: u64,
}

impl View for FirstBidder {
    type V = FirstBidderView;

    open spec fn view(&self) -> FirstBidderView {
        FirstBidderView { bidder: self.bidder@, time: self.time }
    }
}

impl DeepView for FirstBidder {
    type V = FirstBidderView;

    open spec fn deep_view(&self) -> FirstBidderView {
        self@
    }
}

/// An amount of one denomination.
#[derive(Clone, Debug, PartialEq, Eq)]
pub struct Coin {
    pub denom: String,
    pub amount: u128,
}

/// The mathematical view of a [`Coin`].
pub struct CoinView {
    pub denom: Seq<char>,
    pub amount: u128,
}

impl View for Coin {
    type V = CoinView;

    open spec fn view(&self) -> CoinView {
        CoinView { denom: self.denom@, amount: self.amount }
    }
}

impl DeepView for Coin {
    type V = CoinView;

    open spec fn deep_view(&self) -> CoinView {
        self@
    }
}

/// The whole state of the engine between two actions.
#[derive(Clone, Debug, PartialEq, Eq)]
pub struct Game {
    pub config: GameConfig,
    pub state: GameState,
    /// The amount in each pot; pot `i` is at index `i - 1`.
    pub pots: [u128; 5],
    /// The stakes of this round, one entry per player.
    pub players: Vec<PlayerAllocations>,
    /// The reallocation counters of this round, one entry per player.
    pub reallocations: Vec<PlayerReallocations>,
    /// The first depositor of each pot this round; pot `i` is at index `i - 1`.
    pub first_bidders: [Option<FirstBidder>; 5],
    /// Fees skimmed from reallocations, owed to the treasury at the end of the round.
    pub reallocation_fee_pool: u128,
    pub raffle: Raffle,
}

/// The mathematical view of a [`Game`].
pub struct GameView {
    pub config: GameConfigView,
    pub state: GameState,
    pub pots: Seq<u128>,
    pub players: Seq<PlayerAllocationsView>,
    pub reallocations: Seq<PlayerReallocationsView>,
    pub first_bidders: Seq<Option<FirstBidderView>>,
    pub reallocation_fee_pool: u128,
    pub raffle: RaffleView,
}

impl View for Game {
    type V = GameView;

    open spec fn view(&self) -> GameView {
        GameView {
            config: self.config@,
            state: self.state,
            pots: self.pots@,
            players: self.players.deep_view(),
            reallocations: self.reallocations.deep_view(),
            first_bidders: self.first_bidders.deep_view(),
            reallocation_fee_pool: self.reallocation_fee_pool,
            raffle: self.raffle@,
        }
    }
}

/// Whether `pot_id` names one of the five pots.
pub open spec fn valid_pot(pot_id: u8) -> bool {
    1 <= pot_id <= POT_COUNT
}

/// The sum of the amounts in `pots`.
pub open spec fn pots_total(pots: Seq<u128>) -> int
    decreases pots.len(),
{
    if pots.len() == 0 {
        0
    } else {
        pots_total(pots.drop_last()) + pots.last()
    }
}

/// What one player's records hold in pot `pot_id`.
pub open spec fn stake_in(allocations: Seq<TokenAllocation>, pot_id: u8) -> int
    decreases allocations.len(),
{
    if allocations.len() == 0 {
        0
    } else {
        stake_in(allocations.drop_last(), pot_id) + if allocations.last().pot_id == pot_id {
            allocations.last().amount as int
        } else {
            0
        }
    }
}

/// What all players together hold in pot `pot_id`.
pub open spec fn pot_stake(players: Seq<PlayerAllocationsView>, pot_id: u8) -> int
    decreases players.len(),
{
    if players.len() == 0 {
        0
    } else {
        pot_stake(players.drop_last(), pot_id) + stake_in(players.last().allocations, pot_id)
    }
}

/// What the ledger accounts for: the five pots, the pending reallocation fees and the
/// amount reserved for the raffle.
pub open spec fn custody(game: GameView) -> int {
    pots_total(game.pots) + game.reallocation_fee_pool + game.raffle.denom_amount
}

impl GameView {
    /// The data model's invariant.
    ///
    /// There are five pots, the fee percentages are at most 100, each player has one entry
    /// with at most one record per pot, each player has one reallocation counter at most,
    /// and every pot holds at least what the players staked in it.
    pub open spec fn wf(self) -> bool {
        &&& self.pots.len() == 5
        &&& self.first_bidders.len() == 5
        &&& self.config.fee <= 100
        &&& self.config.fee_reallocation <= 100
        &&& names_distinct(self.players)
        &&& counters_distinct(self.reallocations)
        &&& forall|i: int|
            0 <= i < self.players.len() ==> records_wf(#[trigger] self.players[i].allocations)
        &&& forall|p: u8| valid_pot(p) ==> #[trigger] pot_stake(self.players, p) <= self.pots[p - 1]
    }
}

/// No two entries belong to the same player.
pub open spec fn names_distinct(players: Seq<PlayerAllocationsView>) -> bool {
    forall|i: int, j: int|
        0 <= i < j < players.len() ==> (#[trigger] players[i]).player != (
        #[trigger] players[j]).player
}

/// No two counters belong to the same player.
pub open spec fn counters_distinct(reallocations: Seq<PlayerReallocationsView>) -> bool {
    forall|i: int, j: int|
        0 <= i < j < reallocations.len() ==> (#[trigger] reallocations[i]).player != (
        #[trigger] reallocations[j]).player
}

/// One player's records name pots only, and each pot at most once.
pub open spec fn records_wf(allocations: Seq<TokenAllocation>) -> bool {
    &&& forall|k: int| 0 <= k < allocations.len() ==> valid_pot(#[trigger] allocations[k].pot_id)
    &&& forall|k: int, l: int|
        0 <= k < l < allocations.len() ==> (#[trigger] allocations[k]).pot_id != (
        #[trigger] allocations[l]).pot_id
}

impl Game {
    /// The data model's invariant, on the view.
    pub open spec fn wf(&self) -> bool {
        self@.wf()
    }
}

/// The sum over a prefix is at most the sum over the whole.
pub proof fn lemma_pots_total_prefix(pots: Seq<u128>, i: int)
    requires
        0 <= i <= pots.len(),
    ensures
        0 <= pots_total(pots.take(i)) <= pots_total(pots),
    decreases pots.len(),
{
    if i == pots.len() {
        assert(pots.take(i) =~= pots);
        if pots.len() > 0 {
            lemma_pots_total_prefix(pots.drop_last(), i - 1);
        }
    } else {
        assert(pots.drop_last().take(i) =~= pots.take(i));
        lemma_pots_total_prefix(pots.drop_last(), i);
    }
}

/// The sum of five amounts, written out.
pub proof fn lemma_pots_total_five(pots: Seq<u128>)
    requires
        pots.len() == 5,
    ensures
        pots_total(pots) == pots[0] + pots[1] + pots[2] + pots[3] + pots[4],
{
    let four = pots.drop_last();
    let three = four.drop_last();
    let two = three.drop_last();
    let one = two.drop_last();
    let none = one.drop_last();
    assert(none.len() == 0);
    assert(pots_total(none) == 0);
    assert(pots_total(one) == pots_total(none) + one.last());
    assert(pots_total(two) == pots_total(one) + two.last());
    assert(pots_total(three) == pots_total(two) + three.last());
    assert(pots_total(four) == pots_total(three) + four.last());
    assert(pots_total(pots) == pots_total(four) + pots.last());
}

/// What a prefix of the records holds in a pot is at most what all of them hold.
pub proof fn lemma_stake_in_prefix(allocations: Seq<TokenAllocation>, pot_id: u8, i: int)
    requires
        0 <= i <= allocations.len(),
    ensures
        0 <= stake_in(allocations.take(i), pot_id) <= stake_in(allocations, pot_id),
    decreases allocations.len(),
{
    if i == allocations.len() {
        assert(allocations.take(i) =~= allocations);
        if allocations.len() > 0 {
            lemma_stake_in_prefix(allocations.drop_last(), pot_id, i - 1);
        }
    } else {
        assert(allocations.drop_last().take(i) =~= allocations.take(i));
        lemma_stake_in_prefix(allocations.drop_last(), pot_id, i);
    }
}

/// What a prefix of the players holds in a pot is at most what all of them hold.
pub proof fn lemma_pot_stake_prefix(players: Seq<PlayerAllocationsView>, pot_id: u8, i: int)
    requires
        0 <= i <= players.len(),
    ensures
        0 <= pot_stake(players.take(i), pot_id) <= pot_stake(players, pot_id),
    decreases players.len(),
{
    if players.len() > 0 {
        lemma_stake_in_prefix(players.last().allocations, pot_id, 0);
    }
    if i == players.len() {
        assert(players.take(i) =~= players);
        if players.len() > 0 {
            lemma_pot_stake_prefix(players.drop_last(), pot_id, i - 1);
        }
    } else {
        assert(players.drop_last().take(i) =~= players.take(i));
        lemma_pot_stake_prefix(players.drop_last(), pot_id, i);
    }
}

/// A record's amount in a pot is part of what the records hold in the pot.
pub proof fn lemma_record_in_stake(allocations: Seq<TokenAllocation>, pot_id: u8, k: int)
    requires
        0 <= k < allocations.len(),
        allocations[k].pot_id == pot_id,
    ensures
        allocations[k].amount <= stake_in(allocations, pot_id),
    decreases allocations.len(),
{
    lemma_stake_in_prefix(allocations, pot_id, allocations.len() - 1);
    assert(allocations.take(allocations.len() - 1) =~= allocations.drop_last());
    if k < allocations.len() - 1 {
        lemma_record_in_stake(allocations.drop_last(), pot_id, k);
        assert(allocations.drop_last()[k] == allocations[k]);
    }
}

/// What one player holds in a pot is part of what all players hold in it.
pub proof fn lemma_player_in_pot_stake(players: Seq<PlayerAllocationsView>, pot_id: u8, i: int)
    requires
        0 <= i < players.len(),
    ensures
        0 <= stake_in(players[i].allocations, pot_id) <= pot_stake(players, pot_id),
    decreases players.len(),
{
    lemma_pot_stake_prefix(players, pot_id, players.len() - 1);
    assert(players.take(players.len() - 1) =~= players.drop_last());
    lemma_stake_in_prefix(players.last().allocations, pot_id, 0);
    if i < players.len() - 1 {
        lemma_player_in_pot_stake(players.drop_last(), pot_id, i);
        assert(players.drop_last()[i] == players[i]);
    } else {
        lemma_stake_in_prefix(players[i].allocations, pot_id, 0);
    }
}

} // verus!
