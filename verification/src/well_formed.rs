//! The data model's invariant holds of a new game and is kept by every action.

use vstd::prelude::*;
use crate::contract::instantiated;
use crate::execute::{
    accepted_deposit, accepted_reallocation, allocated, config_updated, game_ended,
    next_game_updated, reallocated,
};
use crate::helpers::pot::{
    first_player, first_record, lemma_first_player, lemma_first_record,
    lemma_players_updated_other_pot, players_updated, pots_updated, records_of, records_updated,
};
use crate::helpers::validate::{denom_total, lemma_first_counter, reallocations_increased};
use crate::laws::{Action, Custody};
use crate::msg::{AddressValidation, UpdateGameConfigView};
use crate::state::{
    counters_distinct, lemma_stake_in_prefix, names_distinct, pot_stake, records_wf, stake_in,
    valid_pot, CoinView, GameConfigView, GameView, PlayerAllocationsView, PlayerReallocationsView,
    TokenAllocation,
};

verus! {

/// What a record adds to the stake in pot `pot_id`.
pub open spec fn record_stake(record: TokenAllocation, pot_id: u8) -> int {
    if record.pot_id == pot_id {
        record.amount as int
    } else {
        0
    }
}

/// Replacing a record changes the stake by the difference of the two records.
pub proof fn lemma_stake_in_update(
    allocations: Seq<TokenAllocation>,
    k: int,
    record: TokenAllocation,
    pot_id: u8,
)
    requires
        0 <= k < allocations.len(),
    ensures
        stake_in(allocations.update(k, record), pot_id) == stake_in(allocations, pot_id)
            - record_stake(allocations[k], pot_id) + record_stake(record, pot_id),
    decreases allocations.len(),
{
    let after = allocations.update(k, record);
    if k == allocations.len() - 1 {
        assert(after.drop_last() =~= allocations.drop_last());
    } else {
        assert(after.drop_last() =~= allocations.drop_last().update(k, record));
        assert(allocations.drop_last()[k] == allocations[k]);
        lemma_stake_in_update(allocations.drop_last(), k, record, pot_id);
    }
}

/// Replacing an entry changes the stake of a pot by the difference of the two entries.
pub proof fn lemma_pot_stake_update(
    players: Seq<PlayerAllocationsView>,
    i: int,
    entry: PlayerAllocationsView,
    pot_id: u8,
)
    requires
        0 <= i < players.len(),
    ensures
        pot_stake(players.update(i, entry), pot_id) == pot_stake(players, pot_id) - stake_in(
            players[i].allocations,
            pot_id,
        ) + stake_in(entry.allocations, pot_id),
    decreases players.len(),
{
    let after = players.update(i, entry);
    if i == players.len() - 1 {
        assert(after.drop_last() =~= players.drop_last());
    } else {
        assert(after.drop_last() =~= players.drop_last().update(i, entry));
        assert(players.drop_last()[i] == players[i]);
        lemma_pot_stake_update(players.drop_last(), i, entry, pot_id);
    }
}

/// A change of a player's record changes what the players hold in that pot by the amount,
/// and nothing in the other pots.
pub proof fn lemma_players_updated_stake(
    players: Seq<PlayerAllocationsView>,
    name: Seq<char>,
    pot_id: u8,
    amount: u128,
    increase: bool,
    other: u8,
)
    requires
        players_updated(players, name, pot_id, amount, increase) is Ok,
        increase || first_record(records_of(players, name), pot_id) < records_of(
            players,
            name,
        ).len(),
    ensures
        pot_stake(players_updated(players, name, pot_id, amount, increase)->Ok_0, other)
            == pot_stake(players, other) + if other != pot_id {
            0
        } else if increase {
            amount as int
        } else {
            -(amount as int)
        },
{
    let after = players_updated(players, name, pot_id, amount, increase)->Ok_0;
    let records = records_of(players, name);
    let changed = records_updated(records, pot_id, amount, increase)->Ok_0;
    let i = first_player(players, name);
    let k = first_record(records, pot_id);
    lemma_first_player(players, name);
    lemma_first_record(records, pot_id);
    if k < records.len() {
        lemma_stake_in_update(records, k, changed[k], other);
    } else {
        assert(changed.drop_last() =~= records);
    }
    if i < players.len() {
        lemma_pot_stake_update(
            players,
            i,
            PlayerAllocationsView { player: name, allocations: changed },
            other,
        );
    } else {
        assert(after.drop_last() =~= players);
        assert(records.len() == 0);
    }
}

/// A change of a player's record keeps one entry per player and one record per pot.
pub proof fn lemma_players_updated_shape(
    players: Seq<PlayerAllocationsView>,
    name: Seq<char>,
    pot_id: u8,
    amount: u128,
    increase: bool,
)
    requires
        players_updated(players, name, pot_id, amount, increase) is Ok,
        names_distinct(players),
        forall|i: int| 0 <= i < players.len() ==> records_wf(#[trigger] players[i].allocations),
    ensures
        names_distinct(players_updated(players, name, pot_id, amount, increase)->Ok_0),
        forall|i: int|
            0 <= i < players_updated(players, name, pot_id, amount, increase)->Ok_0.len()
                ==> records_wf(
                #[trigger] players_updated(
                    players,
                    name,
                    pot_id,
                    amount,
                    increase,
                )->Ok_0[i].allocations,
            ),
{
    let after = players_updated(players, name, pot_id, amount, increase)->Ok_0;
    let records = records_of(players, name);
    let changed = records_updated(records, pot_id, amount, increase)->Ok_0;
    let i = first_player(players, name);
    lemma_first_player(players, name);
    lemma_first_record(records, pot_id);
    assert(records_wf(records));
    assert(records_wf(changed)) by {
        let k = first_record(records, pot_id);
        assert forall|a: int| 0 <= a < changed.len() implies valid_pot(
            (#[trigger] changed[a]).pot_id,
        ) by {
            if a < records.len() {
                assert(valid_pot(records[a].pot_id));
            }
        }
        assert forall|a: int, b: int| 0 <= a < b < changed.len() implies (#[trigger] changed[a]).pot_id
            != (#[trigger] changed[b]).pot_id by {
            if b < records.len() {
                assert(records[a].pot_id != records[b].pot_id);
            } else {
                assert(records[a].pot_id != pot_id);
            }
        }
    }
    assert forall|a: int, b: int| 0 <= a < b < after.len() implies (#[trigger] after[a]).player != (
    #[trigger] after[b]).player by {
        if b < players.len() {
            assert(players[a].player != players[b].player);
        } else {
            assert(players[a].player != name);
        }
    }
    assert forall|a: int| 0 <= a < after.len() implies records_wf(
        #[trigger] after[a].allocations,
    ) by {
        if a < players.len() && a != i {
            assert(records_wf(players[a].allocations));
        }
    }
}

/// Counting a reallocation keeps one counter per player.
pub proof fn lemma_reallocations_increased_shape(
    reallocations: Seq<PlayerReallocationsView>,
    limit: u64,
    name: Seq<char>,
)
    requires
        reallocations_increased(reallocations, limit, name) is Ok,
        counters_distinct(reallocations),
    ensures
        counters_distinct(reallocations_increased(reallocations, limit, name)->Ok_0),
{
    let after = reallocations_increased(reallocations, limit, name)->Ok_0;
    lemma_first_counter(reallocations, name);
    assert forall|a: int, b: int| 0 <= a < b < after.len() implies (#[trigger] after[a]).player != (
    #[trigger] after[b]).player by {
        if b < reallocations.len() {
            assert(reallocations[a].player != reallocations[b].player);
        } else {
            assert(reallocations[a].player != name);
        }
    }
}

/// A new game satisfies the data model's invariant.
pub proof fn law_new_game_is_well_formed(
    config: GameConfigView,
    next_game_start: Option<u64>,
    now: u64,
    funds: Seq<CoinView>,
    contract_balance: u128,
)
    requires
        instantiated(config, next_game_start, now, funds, contract_balance) is Ok,
    ensures
        instantiated(config, next_game_start, now, funds, contract_balance)->Ok_0.wf(),
{
    let game = instantiated(config, next_game_start, now, funds, contract_balance)->Ok_0;
    assert forall|p: u8| valid_pot(p) implies #[trigger] pot_stake(game.players, p)
        <= game.pots[p - 1] by {
        assert(game.players.len() == 0);
    }
}

/// A deposit keeps the data model's invariant.
pub proof fn law_deposit_keeps_well_formed(
    game: GameView,
    now: u64,
    sender: Seq<char>,
    funds: Seq<CoinView>,
    holdings: Seq<u64>,
    pot_id: u8,
)
    requires
        game.wf(),
        allocated(game, now, sender, funds, holdings, pot_id) is Ok,
    ensures
        allocated(game, now, sender, funds, holdings, pot_id)->Ok_0.wf(),
{
    let next = allocated(game, now, sender, funds, holdings, pot_id)->Ok_0;
    let amount = accepted_deposit(game, now, sender, funds, holdings, pot_id)->Ok_0;
    let records = records_of(game.players, sender);
    lemma_first_record(records, pot_id);
    lemma_stake_in_prefix(records, pot_id, 0);
    if first_record(records, pot_id) < records.len() {
        crate::state::lemma_record_in_stake(
            records,
            pot_id,
            first_record(records, pot_id),
        );
    }
    assert(players_updated(game.players, sender, pot_id, amount, true) is Ok);
    lemma_players_updated_shape(game.players, sender, pot_id, amount, true);
    assert forall|p: u8| valid_pot(p) implies #[trigger] pot_stake(next.players, p)
        <= next.pots[p - 1] by {
        lemma_players_updated_stake(game.players, sender, pot_id, amount, true, p);
        assert(pot_stake(game.players, p) <= game.pots[p - 1]);
    }
}

/// A reallocation keeps the data model's invariant.
pub proof fn law_reallocation_keeps_well_formed(
    game: GameView,
    now: u64,
    sender: Seq<char>,
    from_pot_id: u8,
    to_pot_id: u8,
)
    requires
        game.wf(),
        reallocated(game, now, sender, from_pot_id, to_pot_id) is Ok,
    ensures
        reallocated(game, now, sender, from_pot_id, to_pot_id)->Ok_0.wf(),
{
    let next = reallocated(game, now, sender, from_pot_id, to_pot_id)->Ok_0;
    let (amount, fee) = accepted_reallocation(game, now, sender, from_pot_id, to_pot_id)->Ok_0;
    let net = (amount - fee) as u128;
    let records = records_of(game.players, sender);
    lemma_first_record(records, from_pot_id);
    lemma_first_record(records, to_pot_id);
    lemma_stake_in_prefix(records, to_pot_id, 0);
    if first_record(records, to_pot_id) < records.len() {
        crate::state::lemma_record_in_stake(
            records,
            to_pot_id,
            first_record(records, to_pot_id),
        );
    }
    assert(players_updated(game.players, sender, from_pot_id, amount, false) is Ok);
    lemma_players_updated_other_pot(game.players, sender, from_pot_id, amount, to_pot_id);
    let without = players_updated(game.players, sender, from_pot_id, amount, false)->Ok_0;
    assert(players_updated(without, sender, to_pot_id, net, true) is Ok);
    lemma_players_updated_shape(game.players, sender, from_pot_id, amount, false);
    lemma_players_updated_shape(without, sender, to_pot_id, net, true);
    lemma_reallocations_increased_shape(
        game.reallocations,
        game.config.reallocations_limit,
        sender,
    );
    let taken = pots_updated(game.pots, from_pot_id, amount, false)->Ok_0;
    assert(pots_updated(taken, to_pot_id, net, true) is Ok);
    assert forall|p: u8| valid_pot(p) implies #[trigger] pot_stake(next.players, p)
        <= next.pots[p - 1] by {
        lemma_players_updated_stake(game.players, sender, from_pot_id, amount, false, p);
        lemma_players_updated_stake(without, sender, to_pot_id, net, true, p);
        assert(pot_stake(game.players, p) <= game.pots[p - 1]);
    }
}

/// A settlement leaves a game that satisfies the data model's invariant, whatever it
/// started from, provided the fee percentages are in order.
pub proof fn law_settlement_leaves_well_formed(
    game: GameView,
    now: u64,
    caller: Seq<char>,
    contract_admin: Option<Seq<char>>,
    contract_address: Seq<char>,
    contract_balance: u128,
    funds: Seq<CoinView>,
    new_raffle_cw721_id: Option<Seq<char>>,
    new_raffle_cw721_addr: Option<Seq<char>>,
    next_game_start: Option<u64>,
)
    requires
        game.config.fee <= 100,
        game.config.fee_reallocation <= 100,
        game_ended(
            game,
            now,
            caller,
            contract_admin,
            contract_address,
            contract_balance,
            funds,
            new_raffle_cw721_id,
            new_raffle_cw721_addr,
            next_game_start,
        ) is Ok,
    ensures
        game_ended(
            game,
            now,
            caller,
            contract_admin,
            contract_address,
            contract_balance,
            funds,
            new_raffle_cw721_id,
            new_raffle_cw721_addr,
            next_game_start,
        )->Ok_0.0.wf(),
{
    let next = game_ended(
        game,
        now,
        caller,
        contract_admin,
        contract_address,
        contract_balance,
        funds,
        new_raffle_cw721_id,
        new_raffle_cw721_addr,
        next_game_start,
    )->Ok_0.0;
    assert forall|p: u8| valid_pot(p) implies #[trigger] pot_stake(next.players, p)
        <= next.pots[p - 1] by {
        assert(next.players.len() == 0);
    }
}

/// A change of the next round keeps the data model's invariant.
pub proof fn law_update_next_game_keeps_well_formed(
    game: GameView,
    now: u64,
    caller: Seq<char>,
    contract_admin: Option<Seq<char>>,
    contract_address: Seq<char>,
    funds: Seq<CoinView>,
    new_raffle_cw721_id: Option<Seq<char>>,
    new_raffle_cw721_addr: Option<Seq<char>>,
    next_game_start: Option<u64>,
)
    requires
        game.wf(),
        next_game_updated(
            game,
            now,
            caller,
            contract_admin,
            contract_address,
            funds,
            new_raffle_cw721_id,
            new_raffle_cw721_addr,
            next_game_start,
        ) is Ok,
    ensures
        next_game_updated(
            game,
            now,
            caller,
            contract_admin,
            contract_address,
            funds,
            new_raffle_cw721_id,
            new_raffle_cw721_addr,
            next_game_start,
        )->Ok_0.0.wf(),
{
}

/// A change of the parameters keeps the data model's invariant: the fee percentages stay at
/// most 100.
pub proof fn law_update_config_keeps_well_formed(
    game: GameView,
    update: UpdateGameConfigView,
    addresses: AddressValidation,
)
    requires
        game.wf(),
        config_updated(game.config, update, addresses) is Ok,
    ensures
        (GameView { config: config_updated(game.config, update, addresses)->Ok_0, ..game }).wf(),
{
}

/// The pending prize token is a hard reservation: neither a settlement without a raffle
/// winner nor a change of the next round replaces a token that is pending.
pub proof fn law_pending_token_is_kept(
    game: GameView,
    now: u64,
    caller: Seq<char>,
    contract_admin: Option<Seq<char>>,
    contract_address: Seq<char>,
    contract_balance: u128,
    funds: Seq<CoinView>,
    new_raffle_cw721_id: Option<Seq<char>>,
    new_raffle_cw721_addr: Option<Seq<char>>,
    next_game_start: Option<u64>,
)
    requires
        game.raffle.cw721_token_id is Some,
    ensures
        ({
            let updated = next_game_updated(
                game,
                now,
                caller,
                contract_admin,
                contract_address,
                funds,
                new_raffle_cw721_id,
                new_raffle_cw721_addr,
                next_game_start,
            );
            updated is Ok ==> updated->Ok_0.0.raffle.cw721_token_id == game.raffle.cw721_token_id
                && updated->Ok_0.0.raffle.cw721_addr == game.raffle.cw721_addr
        }),
        ({
            let ended = game_ended(
                game,
                now,
                caller,
                contract_admin,
                contract_address,
                contract_balance,
                funds,
                new_raffle_cw721_id,
                new_raffle_cw721_addr,
                next_game_start,
            );
            ended is Ok && ended->Ok_0.1.raffle_winner is None
                ==> ended->Ok_0.0.raffle.cw721_token_id == game.raffle.cw721_token_id
                && ended->Ok_0.0.raffle.cw721_addr == game.raffle.cw721_addr
                && ended->Ok_0.0.raffle.denom_amount >= game.raffle.denom_amount
        }),
{
    crate::helpers::validate::lemma_denom_total_prefix(funds, game.config.game_denom, 0);
}

/// An action on a game that satisfies the data model's invariant leaves one that satisfies
/// it.
pub proof fn law_step_keeps_well_formed(c: Custody, action: Action)
    requires
        c.game.wf(),
    ensures
        c.step(action).game.wf(),
{
    match action {
        Action::Deposit { now, sender, funds, holdings, pot_id } => {
            if allocated(c.game, now, sender, funds, holdings, pot_id) is Ok {
                law_deposit_keeps_well_formed(c.game, now, sender, funds, holdings, pot_id);
            }
        },
        Action::Reallocate { now, sender, from_pot_id, to_pot_id } => {
            if reallocated(c.game, now, sender, from_pot_id, to_pot_id) is Ok {
                law_reallocation_keeps_well_formed(c.game, now, sender, from_pot_id, to_pot_id);
            }
        },
        Action::Settle {
            now,
            caller,
            contract_admin,
            contract_address,
            funds,
            new_raffle_cw721_id,
            new_raffle_cw721_addr,
            next_game_start,
        } => {
            let held = c.balance + denom_total(funds, c.game.config.game_denom);
            if 0 <= held <= u128::MAX && game_ended(
                c.game,
                now,
                caller,
                contract_admin,
                contract_address,
                held as u128,
                funds,
                new_raffle_cw721_id,
                new_raffle_cw721_addr,
                next_game_start,
            ) is Ok {
                law_settlement_leaves_well_formed(
                    c.game,
                    now,
                    caller,
                    contract_admin,
                    contract_address,
                    held as u128,
                    funds,
                    new_raffle_cw721_id,
                    new_raffle_cw721_addr,
                    next_game_start,
                );
            }
        },
        Action::UpdateNextGame { .. } => {},
    }
}

/// The data model's invariant holds after any sequence of actions on a game that satisfies
/// it, and so after any sequence of actions on a new game.
pub proof fn law_well_formed_always(c: Custody, actions: Seq<Action>)
    requires
        c.game.wf(),
    ensures
        c.run(actions).game.wf(),
    decreases actions.len(),
{
    if actions.len() > 0 {
        law_well_formed_always(c, actions.drop_last());
        law_step_keeps_well_formed(c.run(actions.drop_last()), actions.last());
    }
}

} // verus!
