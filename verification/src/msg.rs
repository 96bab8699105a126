//! The instructions the engine emits and the answers it gives.

use vstd::prelude::*;
use crate::math::Decimal;
use crate::state::GameConfig;

verus! {

/// An instruction to pay `amount` of `denom` to `to_address`.
#[derive(Clone, Debug, PartialEq, Eq)]
pub struct BankSend {
    pub to_address: String,
    pub denom: String,
    pub amount: u128,
}

/// The mathematical view of a [`BankSend`].
pub struct BankSendView {
    pub to_address: Seq<char>,
    pub denom: Seq<char>,
    pub amount: u128,
}

impl View for BankSend {
    type V = BankSendView;

    open spec fn view(&self) -> BankSendView {
        BankSendView { to_address: self.to_address@, denom: self.denom@, amount: self.amount }
    }
}

impl DeepView for BankSend {
    type V = BankSendView;

    open spec fn deep_view(&self) -> BankSendView {
        self@
    }
}

/// An instruction to hand token `token_id` of collection `contract_addr` to `recipient`.
/// The hand-over must be acknowledged.
#[derive(Clone, Debug, PartialEq, Eq)]
pub struct TransferNft {
    pub contract_addr: String,
    pub recipient: String,
    pub token_id: String,
}

/// The mathematical view of a [`TransferNft`].
pub struct TransferNftView {
    pub contract_addr: Seq<char>,
    pub recipient: Seq<char>,
    pub token_id: Seq<char>,
}

impl View for TransferNft {
    type V = TransferNftView;

    open spec fn view(&self) -> TransferNftView {
        TransferNftView {
            contract_addr: self.contract_addr@,
            recipient: self.recipient@,
            token_id: self.token_id@,
        }
    }
}

impl DeepView for TransferNft {
    type V = TransferNftView;

    open spec fn deep_view(&self) -> TransferNftView {
        self@
    }
}

/// The sum of the amounts that `msgs` pay out.
pub open spec fn sent_total(msgs: Seq<BankSendView>) -> int
    decreases msgs.len(),
{
    if msgs.len() == 0 {
        0
    } else {
        sent_total(msgs.drop_last()) + msgs.last().amount
    }
}

/// A note on what an action did, for whoever watches the engine.
#[derive(Clone, Debug, PartialEq, Eq)]
pub struct Attribute {
    pub key: String,
    pub value: String,
}

/// The mathematical view of an [`Attribute`].
pub struct AttributeView {
    pub key: Seq<char>,
    pub value: Seq<char>,
}

impl View for Attribute {
    type V = AttributeView;

    open spec fn view(&self) -> AttributeView {
        AttributeView { key: self.key@, value: self.value@ }
    }
}

impl DeepView for Attribute {
    type V = AttributeView;

    open spec fn deep_view(&self) -> AttributeView {
        self@
    }
}

/// The note with the given key and value.
pub fn attr(key: &str, value: &String) -> (r: Attribute)
    ensures
        r@ == (AttributeView { key: key@, value: value@ }),
{
    Attribute { key: key.to_owned(), value: value.clone() }
}

/// What settling the raffle yields: the payments and hand-overs to make, the notes on them,
/// who won, and the prize that stands for the next round.
#[derive(Clone, Debug, PartialEq, Eq)]
pub struct ProcessRaffleWinnerResponse {
    pub msgs: Vec<BankSend>,
    pub submsgs: Vec<TransferNft>,
    pub attributes: Vec<Attribute>,
    pub raffle_winner: Option<String>,
    pub new_raffle_denom_amount: u128,
    pub new_raffle_cw721_id: Option<String>,
    pub new_raffle_cw721_addr: Option<String>,
}

/// The mathematical view of a [`ProcessRaffleWinnerResponse`].
pub struct ProcessRaffleWinnerResponseView {
    pub msgs: Seq<BankSendView>,
    pub submsgs: Seq<TransferNftView>,
    pub attributes: Seq<AttributeView>,
    pub raffle_winner: Option<Seq<char>>,
    pub new_raffle_denom_amount: u128,
    pub new_raffle_cw721_id: Option<Seq<char>>,
    pub new_raffle_cw721_addr: Option<Seq<char>>,
}

impl View for ProcessRaffleWinnerResponse {
    type V = ProcessRaffleWinnerResponseView;

    open spec fn view(&self) -> ProcessRaffleWinnerResponseView {
        ProcessRaffleWinnerResponseView {
            msgs: self.msgs.deep_view(),
            submsgs: self.submsgs.deep_view(),
            attributes: self.attributes.deep_view(),
            raffle_winner: self.raffle_winner.deep_view(),
            new_raffle_denom_amount: self.new_raffle_denom_amount,
            new_raffle_cw721_id: self.new_raffle_cw721_id.deep_view(),
            new_raffle_cw721_addr: self.new_raffle_cw721_addr.deep_view(),
        }
    }
}

/// A copy of an optional text.
pub fn clone_text(text: &Option<String>) -> (r: Option<String>)
    ensures
        r.deep_view() == text.deep_view(),
{
    match text {
        Some(t) => Some(t.clone()),
        None => None,
    }
}

/// What a deposit did.
#[derive(Clone, Copy, Debug, PartialEq, Eq, Structural)]
pub struct AllocateTokensResponse {
    /// The round in which the deposit was made.
    pub round_count: u64,
    /// What was deposited.
    pub amount: u128,
}

/// What a reallocation did.
#[derive(Clone, Copy, Debug, PartialEq, Eq, Structural)]
pub struct ReallocateTokensResponse {
    /// The round in which the stake was moved.
    pub round_count: u64,
    /// The stake that left the source pot.
    pub amount: u128,
    /// The part of it that went to the fee pool.
    pub fee: u128,
}

/// What a settlement did and what has to be paid and handed over for it.
#[derive(Clone, Debug, PartialEq, Eq)]
pub struct GameEndResponse {
    /// The payments: those of the raffle, then those to the winners, then those to the
    /// treasury.
    pub msgs: Vec<BankSend>,
    /// The hand-overs of prize tokens.
    pub submsgs: Vec<TransferNft>,
    /// The notes on what the raffle paid and handed over.
    pub raffle_attributes: Vec<Attribute>,
    /// The round that ended.
    pub round_count: u64,
    /// The extensions of the round that ended.
    pub extend_count: u32,
    /// The pots that won.
    pub winning_pots: Vec<u8>,
    /// Who won the raffle.
    pub raffle_winner: Option<String>,
    /// What goes to the players of the winning pots.
    pub winning_outgoing_tokens: u128,
    /// What goes to the treasury as fees.
    pub treasury_outgoing_tokens: u128,
    /// Everything that goes out, the raffle amount included.
    pub total_outgoing_tokens: u128,
}

/// The mathematical view of a [`GameEndResponse`].
pub struct GameEndResponseView {
    pub msgs: Seq<BankSendView>,
    pub submsgs: Seq<TransferNftView>,
    pub raffle_attributes: Seq<AttributeView>,
    pub round_count: u64,
    pub extend_count: u32,
    pub winning_pots: Seq<u8>,
    pub raffle_winner: Option<Seq<char>>,
    pub winning_outgoing_tokens: u128,
    pub treasury_outgoing_tokens: u128,
    pub total_outgoing_tokens: u128,
}

impl View for GameEndResponse {
    type V = GameEndResponseView;

    open spec fn view(&self) -> GameEndResponseView {
        GameEndResponseView {
            msgs: self.msgs.deep_view(),
            submsgs: self.submsgs.deep_view(),
            raffle_attributes: self.raffle_attributes.deep_view(),
            round_count: self.round_count,
            extend_count: self.extend_count,
            winning_pots: self.winning_pots@,
            raffle_winner: self.raffle_winner.deep_view(),
            winning_outgoing_tokens: self.winning_outgoing_tokens,
            treasury_outgoing_tokens: self.treasury_outgoing_tokens,
            total_outgoing_tokens: self.total_outgoing_tokens,
        }
    }
}

/// The sum of two lists of payments is the sum of their sums.
pub proof fn lemma_sent_total_add(a: Seq<BankSendView>, b: Seq<BankSendView>)
    ensures
        sent_total(a + b) == sent_total(a) + sent_total(b),
        0 <= sent_total(a),
        0 <= sent_total(b),
    decreases b.len(),
{
    lemma_sent_total_nonnegative(a);
    lemma_sent_total_nonnegative(b);
    if b.len() == 0 {
        assert(a + b =~= a);
    } else {
        assert((a + b).drop_last() =~= a + b.drop_last());
        assert((a + b).last() == b.last());
        lemma_sent_total_add(a, b.drop_last());
    }
}

/// A sum of payments is not negative.
pub proof fn lemma_sent_total_nonnegative(a: Seq<BankSendView>)
    ensures
        0 <= sent_total(a),
    decreases a.len(),
{
    if a.len() > 0 {
        lemma_sent_total_nonnegative(a.drop_last());
    }
}

/// The sum of the amounts that `msgs` pay out, when it is a 128-bit amount.
pub fn total_sent(msgs: &Vec<BankSend>) -> (r: Option<u128>)
    ensures
        r == if sent_total(msgs.deep_view()) > u128::MAX {
            None
        } else {
            Some(sent_total(msgs.deep_view()) as u128)
        },
{
    let n: usize = msgs.len();
    let mut total: u128 = 0;
    let mut i: usize = 0;
    while i < n
        invariant
            i <= n,
            n == msgs@.len(),
            total == sent_total(msgs.deep_view().take(i as int)),
        decreases n - i,
    {
        proof {
            assert(msgs.deep_view().take(i + 1).drop_last() =~= msgs.deep_view().take(i as int));
            assert(msgs.deep_view() =~= msgs.deep_view().take(i + 1) + msgs.deep_view().skip(i + 1));
            lemma_sent_total_add(msgs.deep_view().take(i + 1), msgs.deep_view().skip(i + 1));
        }
        total = match total.checked_add(msgs[i].amount) {
            Some(t) => t,
            None => {
                return None;
            },
        };
        i = i + 1;
    }
    assert(msgs.deep_view().take(n as int) =~= msgs.deep_view());
    Some(total)
}

/// What an update of the next round did.
#[derive(Clone, Debug, PartialEq, Eq)]
pub struct UpdateNextGameResponse {
    /// The hand-over of the new prize token to the engine, if one was set.
    pub submsgs: Vec<TransferNft>,
    /// The new start of the round, if one was set.
    pub next_game_start: Option<u64>,
    /// The new prize token, if one was set.
    pub raffle_cw721_id: Option<String>,
    /// Its collection.
    pub raffle_cw721_addr: Option<String>,
    /// What was added to the raffle amount.
    pub raffle_denom_amount: u128,
}

/// The mathematical view of an [`UpdateNextGameResponse`].
pub struct UpdateNextGameResponseView {
    pub submsgs: Seq<TransferNftView>,
    pub next_game_start: Option<u64>,
    pub raffle_cw721_id: Option<Seq<char>>,
    pub raffle_cw721_addr: Option<Seq<char>>,
    pub raffle_denom_amount: u128,
}

impl View for UpdateNextGameResponse {
    type V = UpdateNextGameResponseView;

    open spec fn view(&self) -> UpdateNextGameResponseView {
        UpdateNextGameResponseView {
            submsgs: self.submsgs.deep_view(),
            next_game_start: self.next_game_start,
            raffle_cw721_id: self.raffle_cw721_id.deep_view(),
            raffle_cw721_addr: self.raffle_cw721_addr.deep_view(),
            raffle_denom_amount: self.raffle_denom_amount,
        }
    }
}

/// The parameters with which a game is created.
#[derive(Clone, Debug, PartialEq, Eq)]
pub struct InstantiateMsg {
    pub config: GameConfig,
    pub next_game_start: Option<u64>,
}

/// A change of the parameters: every field that is given replaces the one in force.
#[derive(Clone, Debug, PartialEq, Eq)]
pub struct UpdateGameConfig {
    pub fee: Option<u64>,
    pub fee_reallocation: Option<u64>,
    pub fee_address: Option<String>,
    pub game_denom: Option<String>,
    pub game_cw721_addrs: Vec<String>,
    pub game_duration: Option<u64>,
    pub game_duration_epoch: Option<u64>,
    pub game_extend: Option<u64>,
    pub game_end_threshold: Option<u64>,
    pub min_pot_initial_allocation: Option<u128>,
    pub decay_factor: Option<Decimal>,
    pub reallocations_limit: Option<u64>,
}

/// The mathematical view of an [`UpdateGameConfig`].
pub struct UpdateGameConfigView {
    pub fee: Option<u64>,
    pub fee_reallocation: Option<u64>,
    pub fee_address: Option<Seq<char>>,
    pub game_denom: Option<Seq<char>>,
    pub game_cw721_addrs: Seq<Seq<char>>,
    pub game_duration: Option<u64>,
    pub game_duration_epoch: Option<u64>,
    pub game_extend: Option<u64>,
    pub game_end_threshold: Option<u64>,
    pub min_pot_initial_allocation: Option<u128>,
    pub decay_factor: Option<Decimal>,
    pub reallocations_limit: Option<u64>,
}

impl View for UpdateGameConfig {
    type V = UpdateGameConfigView;

    open spec fn view(&self) -> UpdateGameConfigView {
        UpdateGameConfigView {
            fee: self.fee,
            fee_reallocation: self.fee_reallocation,
            fee_address: self.fee_address.deep_view(),
            game_denom: self.game_denom.deep_view(),
            game_cw721_addrs: self.game_cw721_addrs.deep_view(),
            game_duration: self.game_duration,
            game_duration_epoch: self.game_duration_epoch,
            game_extend: self.game_extend,
            game_end_threshold: self.game_end_threshold,
            min_pot_initial_allocation: self.min_pot_initial_allocation,
            decay_factor: self.decay_factor,
            reallocations_limit: self.reallocations_limit,
        }
    }
}

/// What the chain says of the addresses that a change of the parameters names.
#[derive(Clone, Copy, Debug, PartialEq, Eq, Structural)]
pub struct AddressValidation {
    /// Whether the new treasury address, if one is given, is accepted.
    pub fee_address: bool,
    /// Whether every collection address of the change is accepted.
    pub game_cw721_addrs: bool,
}

/// What an acknowledgment refers to.
#[derive(Clone, Copy, Debug, PartialEq, Eq, Structural)]
pub enum ReplyMsg {
    /// The hand-over of a prize token.
    TransferNft,
    /// Anything else.
    Unknown,
}

impl From<u64> for ReplyMsg {
    /// Identifier 1 stands for a token hand-over; every other identifier is unknown.
    fn from(id: u64) -> (r: ReplyMsg) {
        if id == 1 {
            ReplyMsg::TransferNft
        } else {
            ReplyMsg::Unknown
        }
    }
}

impl vstd::std_specs::convert::FromSpecImpl<u64> for ReplyMsg {
    open spec fn obeys_from_spec() -> bool {
        true
    }

    open spec fn from_spec(id: u64) -> ReplyMsg {
        if id == 1 {
            ReplyMsg::TransferNft
        } else {
            ReplyMsg::Unknown
        }
    }
}

impl From<ReplyMsg> for u64 {
    /// A token hand-over has identifier 1, the unknown acknowledgment identifier 2.
    fn from(msg: ReplyMsg) -> (r: u64) {
        match msg {
            ReplyMsg::TransferNft => 1,
            ReplyMsg::Unknown => 2,
        }
    }
}

impl vstd::std_specs::convert::FromSpecImpl<ReplyMsg> for u64 {
    open spec fn obeys_from_spec() -> bool {
        true
    }

    open spec fn from_spec(msg: ReplyMsg) -> u64 {
        match msg {
            ReplyMsg::TransferNft => 1,
            ReplyMsg::Unknown => 2,
        }
    }
}

} // verus!
