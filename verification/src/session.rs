//! The session coordinator: the one authority that seats players, deals to
//! the dealer, gives each seat its turn, consumes bets and resets the table
//! between rounds.
//!
//! The coordinator never waits. Each call of [`Session::step`] makes one
//! move and says whether the caller should pause before the next. The
//! choices that the game leaves open are made as follows:
//! - one waiting player is enough to start promoting;
//! - a round is one bet from each seat, in seat order; the next round starts
//!   at once while anyone is seated;
//! - a player who leaves during their turn is skipped and pays nothing;
//! - a player without money stays seated and can still bet zero.

use crate::bets::{after_submit, text_of, BetIntake};
use crate::card::{Card, CardView};
use crate::deck::{
    distinct_deck_cards, is_deck_card, is_full_deck, ordered_cards, rearranged, valid_picks, Deck,
    DECK_SIZE,
};
use crate::lobby::Lobby;
use crate::notice::{
    arrival_message, arrival_text, bet_message, bet_text, betting_message, betting_text,
    broadcast_all, broadcast_except, dealer_message, dealer_text, notices_view, overbet_message,
    overbet_text, prompt_message, prompt_text, receipt_message, receipt_text, seated_message,
    seated_text, unicast, Notice, NoticeView,
};
use crate::player::{
    find_player, first_index, lemma_first_index_found, newcomer, player_ids, players_view, Dealer,
    Game, GameView, Player, PlayerView,
};
use crate::text::same_text;
use vstd::prelude::*;

verus! {

/// The deck is replaced before a draw once fewer cards than this are left.
pub const LOW_WATER: usize = 10;

/// The number of waiting players that starts a promotion.
pub const QUORUM: usize = 1;

/// Where the coordinator stands in a round.
#[derive(Clone, Copy, Debug, PartialEq, Eq, Structural)]
pub enum Phase {
    /// Nobody is seated; the lobby is watched.
    Waiting,
    /// The lobby is about to be emptied into the seats.
    Promoting,
    /// The dealer is about to receive a card.
    DealerDraw,
    /// The player at `seat` is to bet; past the last seat the round is over.
    Turn { seat: usize },
    /// Bets and hands are about to be cleared.
    RoundReset,
}

/// The game in progress, the phase, and who may bet.
#[derive(Debug)]
pub struct Session {
    pub game: Game,
    pub phase: Phase,
    pub current_turn_holder: Option<String>,
}

/// What a session is, in plain values.
pub struct SessionView {
    pub game: GameView,
    pub phase: Phase,
    pub turn_holder: Option<Seq<char>>,
}

impl View for Session {
    type V = SessionView;

    open spec fn view(&self) -> SessionView {
        SessionView {
            game: self.game@,
            phase: self.phase,
            turn_holder: text_of(self.current_turn_holder),
        }
    }
}

/// What one move of the coordinator asks of its caller.
#[derive(Debug)]
pub struct Outcome {
    /// The messages to deliver, in order.
    pub notices: Vec<Notice>,
    /// Whether nothing can move until a player joins or bets, so that the
    /// caller should pause before the next move.
    pub idle: bool,
}

/// What an outcome is, in plain values.
pub struct OutcomeView {
    pub notices: Seq<NoticeView>,
    pub idle: bool,
}

impl View for Outcome {
    type V = OutcomeView;

    open spec fn view(&self) -> OutcomeView {
        OutcomeView { notices: notices_view(self.notices@), idle: self.idle }
    }
}

/// A draw under the refill rule. From a deck of at least `LOW_WATER` cards
/// the top card leaves and the rest stays. A deck with fewer is first
/// replaced by a full shuffled deck, so the card drawn and the fifty-one
/// left make up a full deck.
pub open spec fn drew(before: Seq<CardView>, card: CardView, after: Seq<CardView>) -> bool {
    if before.len() >= LOW_WATER {
        card == before.last() && after == before.drop_last()
    } else {
        is_full_deck(after.push(card))
    }
}

/// A game after the reset between rounds: no hands, no bets on the seats, an
/// empty dealer; seats, money and deck as they were.
pub open spec fn cleared(game: GameView) -> GameView {
    GameView {
        players: game.players.map_values(
            |p: PlayerView| PlayerView { current_bet: 0, cards: Seq::empty(), ..p },
        ),
        dealer: Seq::empty(),
        ..game
    }
}

/// Draws the top card, after replacing a deck that has run low by a full
/// shuffled one.
pub fn draw_with_refill(deck: &mut Deck) -> (card: Card)
    ensures
        drew(old(deck)@, card@, final(deck)@),
{
    if deck.len() < LOW_WATER {
        *deck = Deck::new();
    }
    deck.deal_card().unwrap()
}

/// Clears the table for the next round: every bet handed in, every player's
/// hand and bet, and the dealer's hand. Seats, money and deck stay.
pub fn reset_game(player_bets: &mut BetIntake, game: &mut Game)
    ensures
        final(player_bets)@ == Map::<Seq<char>, u32>::empty(),
        final(game)@ == cleared(old(game)@),
{
    player_bets.clear();
    let n = game.player_pool.len();
    let mut i: usize = 0;
    while i < n
        invariant
            i <= n,
            n == old(game)@.players.len(),
            game@.players.len() == n,
            game@.deck == old(game)@.deck,
            game@.dealer == old(game)@.dealer,
            game@.in_progress == old(game)@.in_progress,
            forall|k: int| 0 <= k < i ==> #[trigger] game@.players[k] == cleared(old(game)@).players[k],
            forall|k: int| i <= k < n ==> #[trigger] game@.players[k] == old(game)@.players[k],
        decreases n - i,
    {
        let ghost before = game.player_pool@;
        game.player_pool[i].cards.clear();
        game.player_pool[i].current_bet = 0;
        proof {
            let now = game.player_pool@;
            assert(players_view(before)[i as int] == old(game)@.players[i as int]);
            assert(now[i as int]@.cards =~= Seq::<CardView>::empty());
            assert forall|k: int| 0 <= k < i + 1 implies #[trigger] game@.players[k] == cleared(
                old(game)@,
            ).players[k] by {
                if k < i {
                    assert(players_view(before)[k] == cleared(old(game)@).players[k]);
                }
            }
            assert forall|k: int| i + 1 <= k < n implies #[trigger] game@.players[k] == old(
                game,
            )@.players[k] by {
                assert(players_view(before)[k] == old(game)@.players[k]);
            }
        }
        i += 1;
    }
    game.dealer.cards.clear();
    assert(game@.players =~= cleared(old(game)@).players);
    assert(game@.dealer =~= Seq::<CardView>::empty());
}

/// The seats that a group of newcomers takes: each sits down with the
/// starting balance, no bet and no cards, under their name and id.
pub open spec fn seated(newcomers: Seq<PlayerView>) -> Seq<PlayerView> {
    newcomers.map_values(|p: PlayerView| newcomer(p.name, p.id))
}

/// What a promotion announces: for each newcomer in turn, a word to the
/// newcomer, then a word about the newcomer to everyone else.
pub open spec fn promotion_notices(newcomers: Seq<PlayerView>) -> Seq<NoticeView>
    decreases newcomers.len(),
{
    if newcomers.len() == 0 {
        Seq::empty()
    } else {
        let p = newcomers.last();
        promotion_notices(newcomers.drop_last()).push(
            NoticeView::Unicast { to: p.id, text: seated_text(p.name) },
        ).push(NoticeView::Broadcast { excluding: Some(p.id), text: arrival_text(p.name) })
    }
}

/// The session that watches the lobby, once `waiting` players wait there:
/// with a quorum it goes on to promote them.
pub open spec fn after_waiting(s: SessionView, waiting: nat) -> SessionView {
    if waiting >= QUORUM {
        SessionView { phase: Phase::Promoting, ..s }
    } else {
        s
    }
}

/// The session after a promotion: the newcomers sit behind those already
/// seated. With someone seated the round starts; with no one, the session
/// waits.
pub open spec fn after_promotion(s: SessionView, newcomers: Seq<PlayerView>) -> SessionView {
    let players = s.game.players + seated(newcomers);
    SessionView {
        game: GameView { players, ..s.game },
        phase: if players.len() == 0 {
            Phase::Waiting
        } else {
            Phase::DealerDraw
        },
        ..s
    }
}

/// The session after the dealer drew `card` and `rest` stayed in the deck:
/// the round runs and the first seat is next.
pub open spec fn after_dealer_draw(s: SessionView, card: CardView, rest: Seq<CardView>) -> SessionView {
    SessionView {
        game: GameView { deck: rest, dealer: s.game.dealer.push(card), in_progress: true, ..s.game },
        phase: Phase::Turn { seat: 0 },
        turn_holder: None,
    }
}

/// What the table reads after the dealer's hand became `dealer`.
pub open spec fn dealer_notices(dealer: Seq<CardView>) -> Seq<NoticeView> {
    seq![NoticeView::Broadcast { excluding: None, text: dealer_text(dealer) }]
}

/// What the table reads when `p` is given the turn: the others that `p` is
/// betting, then `p` the prompt.
pub open spec fn opening_notices(p: PlayerView) -> Seq<NoticeView> {
    seq![
        NoticeView::Broadcast { excluding: Some(p.id), text: betting_text(p.name) },
        NoticeView::Unicast { to: p.id, text: prompt_text(p.name) },
    ]
}

/// What the table reads when `p` has bet `amount`: `p` the receipt with the
/// money left, then the others the amount.
pub open spec fn bet_notices(p: PlayerView, amount: int) -> Seq<NoticeView> {
    seq![
        NoticeView::Unicast { to: p.id, text: receipt_text(amount, p.money - amount) },
        NoticeView::Broadcast { excluding: Some(p.id), text: bet_text(p.name, amount) },
    ]
}

/// What `p` reads after a bet of more than `p` has.
pub open spec fn overbet_notices(p: PlayerView) -> Seq<NoticeView> {
    seq![NoticeView::Unicast { to: p.id, text: overbet_text(p.money) }]
}

/// A balance after a bet of `amount`: the bet is paid if the balance covers
/// it, and refused otherwise.
pub open spec fn balance_after(money: int, amount: int) -> int {
    if amount <= money {
        money - amount
    } else {
        money
    }
}

/// A balance after a run of bets, each paid or refused as `balance_after`
/// has it.
pub open spec fn balance_after_all(money: int, amounts: Seq<int>) -> int
    decreases amounts.len(),
{
    if amounts.len() == 0 {
        money
    } else {
        balance_after(balance_after_all(money, amounts.drop_last()), amounts.last())
    }
}

/// The session after the player at `seat` paid `amount` and drew `card`,
/// with `rest` left in the deck: the turn is over and the next seat is next.
pub open spec fn after_bet(
    s: SessionView,
    seat: int,
    amount: int,
    card: CardView,
    rest: Seq<CardView>,
) -> SessionView {
    let p = s.game.players[seat];
    let paid = PlayerView {
        money: balance_after(p.money, amount),
        current_bet: amount,
        cards: p.cards.push(card),
        ..p
    };
    SessionView {
        game: GameView { players: s.game.players.update(seat, paid), deck: rest, ..s.game },
        phase: Phase::Turn { seat: (seat + 1) as usize },
        turn_holder: None,
    }
}

/// The session after the reset between rounds. With someone seated the
/// next round starts by promoting whoever waits; with no one, the session
/// waits.
pub open spec fn after_reset(s: SessionView) -> SessionView {
    SessionView {
        game: GameView { in_progress: false, ..cleared(s.game) },
        phase: if s.game.players.len() == 0 {
            Phase::Waiting
        } else {
            Phase::Promoting
        },
        turn_holder: None,
    }
}

/// The session after the player with this id left. The first seat with the
/// id is given up and the seats behind it move up; the turn marker follows
/// the seats, and a turn that the leaver held is abandoned.
pub open spec fn after_departure(s: SessionView, id: Seq<char>) -> SessionView {
    let seat = first_index(player_ids(s.game.players), id);
    if seat >= s.game.players.len() {
        s
    } else {
        SessionView {
            game: GameView { players: s.game.players.remove(seat), ..s.game },
            phase: match s.phase {
                Phase::Turn { seat: at } => if seat < at {
                    Phase::Turn { seat: (at - 1) as usize }
                } else {
                    s.phase
                },
                _ => s.phase,
            },
            turn_holder: if s.turn_holder == Some(id) {
                None
            } else {
                s.turn_holder
            },
        }
    }
}

/// One move in the phase `Waiting`.
pub open spec fn waited(
    pre: SessionView,
    waiting: nat,
    post: SessionView,
    out: OutcomeView,
) -> bool {
    &&& post == after_waiting(pre, waiting)
    &&& out == (OutcomeView { notices: Seq::empty(), idle: waiting < QUORUM })
}

/// One move in the phase `Promoting`, with `newcomers` taken from the lobby.
pub open spec fn promoted(
    pre: SessionView,
    newcomers: Seq<PlayerView>,
    post: SessionView,
    out: OutcomeView,
) -> bool {
    &&& post == after_promotion(pre, newcomers)
    &&& out == (OutcomeView { notices: promotion_notices(newcomers), idle: false })
}

/// One move in the phase `DealerDraw`: the card that now ends the dealer's
/// hand was drawn under the refill rule.
pub open spec fn dealer_drawn(pre: SessionView, post: SessionView, out: OutcomeView) -> bool {
    &&& post.game.dealer.len() > 0
    &&& drew(pre.game.deck, post.game.dealer.last(), post.game.deck)
    &&& post == after_dealer_draw(pre, post.game.dealer.last(), post.game.deck)
    &&& out == (OutcomeView { notices: dealer_notices(post.game.dealer), idle: false })
}

/// One move in the phase `Turn` at `seat`.
/// - Past the last seat the round is over.
/// - A seat whose player does not hold the turn is given it and prompted.
/// - The turn holder without a bet in the intake is waited for.
/// - A bet is taken out of the intake. One beyond the player's money is
///   refused and the turn stays; any other is paid, a card is drawn under
///   the refill rule into the player's hand, and the turn ends.
pub open spec fn turn_taken(
    pre: SessionView,
    bets: Map<Seq<char>, u32>,
    seat: int,
    post: SessionView,
    bets_after: Map<Seq<char>, u32>,
    out: OutcomeView,
) -> bool {
    let players = pre.game.players;
    if seat >= players.len() {
        &&& post == (SessionView { phase: Phase::RoundReset, turn_holder: None, ..pre })
        &&& bets_after == bets
        &&& out == (OutcomeView { notices: Seq::empty(), idle: false })
    } else {
        let p = players[seat];
        if pre.turn_holder != Some(p.id) {
            &&& post == (SessionView { turn_holder: Some(p.id), ..pre })
            &&& bets_after == bets
            &&& out == (OutcomeView { notices: opening_notices(p), idle: false })
        } else if !bets.contains_key(p.id) {
            &&& post == pre
            &&& bets_after == bets
            &&& out == (OutcomeView { notices: Seq::empty(), idle: true })
        } else if bets[p.id] > p.money {
            &&& post == pre
            &&& bets_after == bets.remove(p.id)
            &&& out == (OutcomeView { notices: overbet_notices(p), idle: false })
        } else {
            let hand = post.game.players[seat].cards;
            &&& post.game.players.len() == players.len()
            &&& hand.len() > 0
            &&& drew(pre.game.deck, hand.last(), post.game.deck)
            &&& post == after_bet(pre, seat, bets[p.id] as int, hand.last(), post.game.deck)
            &&& bets_after == bets.remove(p.id)
            &&& out == (OutcomeView { notices: bet_notices(p, bets[p.id] as int), idle: false })
        }
    }
}

/// One move in the phase `RoundReset`.
pub open spec fn round_reset(
    pre: SessionView,
    post: SessionView,
    bets_after: Map<Seq<char>, u32>,
    out: OutcomeView,
) -> bool {
    &&& post == after_reset(pre)
    &&& bets_after == Map::<Seq<char>, u32>::empty()
    &&& out == (OutcomeView { notices: Seq::empty(), idle: false })
}

/// One move of the coordinator, whatever the phase: the session, the lobby
/// and the bet intake before and after it, and what it asks of the caller.
pub open spec fn stepped(
    pre: SessionView,
    lobby: Seq<PlayerView>,
    bets: Map<Seq<char>, u32>,
    post: SessionView,
    lobby_after: Seq<PlayerView>,
    bets_after: Map<Seq<char>, u32>,
    out: OutcomeView,
) -> bool {
    match pre.phase {
        Phase::Waiting => waited(pre, lobby.len(), post, out) && lobby_after == lobby && bets_after
            == bets,
        Phase::Promoting => promoted(pre, lobby, post, out) && lobby_after == Seq::<
            PlayerView,
        >::empty() && bets_after == bets,
        Phase::DealerDraw => dealer_drawn(pre, post, out) && lobby_after == lobby && bets_after
            == bets,
        Phase::Turn { seat } => turn_taken(pre, bets, seat as int, post, bets_after, out)
            && lobby_after == lobby,
        Phase::RoundReset => round_reset(pre, post, bets_after, out) && lobby_after == lobby,
    }
}

/// A draw never comes from a deck that has run low: such a deck is replaced
/// by a full one first, exactly once, so that fifty-one cards are left. A
/// draw from any other deck takes one card off it.
pub proof fn lemma_draw_refills_low_deck(before: Seq<CardView>, card: CardView, after: Seq<CardView>)
    requires
        drew(before, card, after),
    ensures
        before.len() < LOW_WATER ==> after.len() == DECK_SIZE - 1 && is_full_deck(after.push(card)),
        before.len() >= LOW_WATER ==> after.len() == before.len() - 1 && after.push(card) == before,
        after.len() >= LOW_WATER - 1,
{
    if before.len() >= LOW_WATER {
        assert(after.push(card) =~= before);
    }
}

/// A draw keeps the deck sound: from a deck of distinct deck cards, the card
/// drawn is a deck card that is no longer in the deck, and what is left are
/// distinct deck cards.
pub proof fn lemma_draw_keeps_deck_sound(before: Seq<CardView>, card: CardView, after: Seq<CardView>)
    requires
        drew(before, card, after),
        distinct_deck_cards(before),
    ensures
        distinct_deck_cards(after),
        is_deck_card(card),
        !after.contains(card),
{
    let source = after.push(card);
    assert(distinct_deck_cards(source)) by {
        if before.len() >= LOW_WATER {
            assert(source =~= before);
        }
    }
    assert(source[after.len() as int] == card);
    assert forall|i: int, j: int| 0 <= i < after.len() && 0 <= j < after.len() && i != j implies
        after[i] != after[j] by {
        assert(source[i] == after[i] && source[j] == after[j]);
    }
    assert forall|i: int| 0 <= i < after.len() implies is_deck_card(#[trigger] after[i]) by {
        assert(source[i] == after[i]);
    }
    if after.contains(card) {
        let i = choose|i: int| 0 <= i < after.len() && after[i] == card;
        assert(source[i] == source[after.len() as int]);
    }
}

/// After the reset nobody holds a card or has a bet on their seat, however
/// many cards and bets there were, while names, ids, money and deck are
/// untouched.
pub proof fn lemma_cleared_is_empty(game: GameView)
    ensures
        cleared(game).dealer.len() == 0,
        cleared(game).players.len() == game.players.len(),
        cleared(game).deck == game.deck,
        forall|i: int|
            0 <= i < game.players.len() ==> {
                &&& (#[trigger] cleared(game).players[i]).cards.len() == 0
                &&& cleared(game).players[i].current_bet == 0
                &&& cleared(game).players[i].money == game.players[i].money
                &&& cleared(game).players[i].name == game.players[i].name
                &&& cleared(game).players[i].id == game.players[i].id
            },
{
}

/// Resetting a table that has been reset changes nothing.
pub proof fn lemma_cleared_twice(game: GameView)
    ensures
        cleared(cleared(game)) == cleared(game),
{
    assert(cleared(cleared(game)).players =~= cleared(game).players);
}

/// No run of bets takes a balance below zero, however large the bets; and
/// where no bet is negative, none takes it above where it started.
pub proof fn lemma_balance_never_negative(money: int, amounts: Seq<int>)
    requires
        money >= 0,
    ensures
        balance_after_all(money, amounts) >= 0,
        (forall|i: int| 0 <= i < amounts.len() ==> #[trigger] amounts[i] >= 0)
            ==> balance_after_all(money, amounts) <= money,
    decreases amounts.len(),
{
    if amounts.len() > 0 {
        let earlier = amounts.drop_last();
        lemma_balance_never_negative(money, earlier);
        if forall|i: int| 0 <= i < amounts.len() ==> #[trigger] amounts[i] >= 0 {
            assert forall|i: int| 0 <= i < earlier.len() implies #[trigger] earlier[i] >= 0 by {
                assert(earlier[i] == amounts[i]);
            }
            assert(amounts.last() >= 0);
        }
    }
}

/// A departure leaves everyone else where they sat, in the same order, and
/// keeps the turn marker on the same player unless that player left.
pub proof fn lemma_departure_keeps_turn(s: SessionView, id: Seq<char>, at: int)
    requires
        s.phase == (Phase::Turn { seat: at as usize }),
        0 <= at < s.game.players.len(),
        at <= usize::MAX,
        s.game.players[at].id != id,
    ensures
        after_departure(s, id).phase is Turn,
        0 <= after_departure(s, id).phase->seat < after_departure(s, id).game.players.len(),
        after_departure(s, id).game.players[after_departure(s, id).phase->seat as int]
            == s.game.players[at],
{
    lemma_first_index_found(player_ids(s.game.players), id);
}

/// A turn holder who leaves is not waited for: their turn is abandoned, and
/// the next move for any seat either gives the turn to whoever sits there or
/// ends the round.
pub proof fn lemma_departed_holder_is_not_waited_for(
    s: SessionView,
    id: Seq<char>,
    bets: Map<Seq<char>, u32>,
    seat: int,
    post: SessionView,
    bets_after: Map<Seq<char>, u32>,
    out: OutcomeView,
)
    requires
        s.turn_holder == Some(id),
        first_index(player_ids(s.game.players), id) < s.game.players.len(),
        turn_taken(after_departure(s, id), bets, seat, post, bets_after, out),
    ensures
        after_departure(s, id).turn_holder is None,
        !out.idle,
        bets_after == bets,
        post.game == after_departure(s, id).game,
{
}

/// Whether the turn marker agrees with the seats: during a turn it is either
/// unset or names the player at the seat whose turn it is, and outside a
/// turn it is unset.
pub open spec fn marker_coherent(s: SessionView) -> bool {
    match s.phase {
        Phase::Turn { seat } => s.turn_holder is Some ==> seat < s.game.players.len()
            && s.turn_holder == Some(s.game.players[seat as int].id),
        _ => s.turn_holder is None,
    }
}

/// Whether every bet in the intake is the turn holder's.
pub open spec fn bets_coherent(s: SessionView, bets: Map<Seq<char>, u32>) -> bool {
    forall|id: Seq<char>| #[trigger] bets.contains_key(id) ==> s.turn_holder == Some(id)
}

/// Whether session and bet intake fit together: the turn marker agrees with
/// the seats, the intake holds nothing but the turn holder's bet, and the
/// deck holds distinct deck cards.
pub open spec fn table_sound(s: SessionView, bets: Map<Seq<char>, u32>) -> bool {
    &&& marker_coherent(s)
    &&& bets_coherent(s, bets)
    &&& distinct_deck_cards(s.game.deck)
}

/// A session as `Session::new` makes it, with an empty intake, is sound.
pub proof fn lemma_new_table_is_sound(s: SessionView)
    requires
        is_full_deck(s.game.deck),
        s.phase == Phase::Waiting,
        s.turn_holder is None,
    ensures
        table_sound(s, Map::<Seq<char>, u32>::empty()),
{
}

/// No move of the coordinator breaks a sound table. In particular no bet
/// outlives the turn it was made in, and nobody is waited for who does not
/// sit at the seat whose turn it is.
pub proof fn lemma_step_keeps_table_sound(
    pre: SessionView,
    lobby: Seq<PlayerView>,
    bets: Map<Seq<char>, u32>,
    post: SessionView,
    lobby_after: Seq<PlayerView>,
    bets_after: Map<Seq<char>, u32>,
    out: OutcomeView,
)
    requires
        table_sound(pre, bets),
        stepped(pre, lobby, bets, post, lobby_after, bets_after, out),
    ensures
        table_sound(post, bets_after),
{
    match pre.phase {
        Phase::DealerDraw => {
            lemma_draw_keeps_deck_sound(pre.game.deck, post.game.dealer.last(), post.game.deck);
        },
        Phase::Turn { seat } => {
            if seat < pre.game.players.len() {
                let p = pre.game.players[seat as int];
                if pre.turn_holder == Some(p.id) && bets.contains_key(p.id) && bets[p.id]
                    <= p.money {
                    lemma_draw_keeps_deck_sound(
                        pre.game.deck,
                        post.game.players[seat as int].cards.last(),
                        post.game.deck,
                    );
                }
            }
        },
        _ => {},
    }
}

/// No submission breaks a sound table, whoever makes it.
pub proof fn lemma_submit_keeps_table_sound(
    s: SessionView,
    bets: Map<Seq<char>, u32>,
    id: Seq<char>,
    amount: u32,
)
    requires
        table_sound(s, bets),
    ensures
        table_sound(s, after_submit(bets, s.turn_holder, id, amount)),
{
}

/// No departure breaks a sound table, once the leaver's bet is taken out of
/// the intake.
pub proof fn lemma_departure_keeps_table_sound(
    s: SessionView,
    bets: Map<Seq<char>, u32>,
    id: Seq<char>,
)
    requires
        table_sound(s, bets),
    ensures
        table_sound(after_departure(s, id), bets.remove(id)),
{
    lemma_first_index_found(player_ids(s.game.players), id);
}

/// An outcome without notices.
fn silent(idle: bool) -> (out: Outcome)
    ensures
        out@ == (OutcomeView { notices: Seq::empty(), idle }),
{
    let out = Outcome { notices: Vec::new(), idle };
    assert(out@.notices =~= Seq::<NoticeView>::empty());
    out
}

impl Session {
    /// A session with nobody seated, a full shuffled deck and an empty
    /// dealer, watching the lobby. The deck is the unshuffled deck after one
    /// shuffle: each of its cards in turn has changed places with the card at
    /// a picked position.
    pub fn new() -> (session: Session)
        ensures
            session@.game.players == Seq::<PlayerView>::empty(),
            is_full_deck(session@.game.deck),
            exists|picks: Seq<usize>|
                valid_picks(picks, DECK_SIZE as nat) && session@.game.deck == #[trigger] rearranged(
                    ordered_cards(),
                    picks,
                    DECK_SIZE as nat,
                ),
            session@.game.dealer == Seq::<CardView>::empty(),
            !session@.game.in_progress,
            session@.phase == Phase::Waiting,
            session@.turn_holder == None::<Seq<char>>,
    {
        let session = Session {
            game: Game {
                player_pool: Vec::new(),
                deck: Deck::new(),
                dealer: Dealer { cards: Vec::new() },
                in_progress: false,
            },
            phase: Phase::Waiting,
            current_turn_holder: None,
        };
        session
    }

    /// Looks at the number of players in the lobby while nobody is seated,
    /// and goes on to promote them if they are enough.
    pub fn watch_lobby(&mut self, waiting: usize) -> (out: Outcome)
        ensures
            waited(old(self)@, waiting as nat, final(self)@, out@),
    {
        if waiting >= QUORUM {
            self.phase = Phase::Promoting;
            silent(false)
        } else {
            silent(true)
        }
    }

    /// Seats the newcomers behind those already seated, in the order given,
    /// and announces each of them.
    pub fn seat_players(&mut self, newcomers: &Vec<Player>) -> (out: Outcome)
        ensures
            promoted(old(self)@, players_view(newcomers@), final(self)@, out@),
    {
        let ghost arrivals = players_view(newcomers@);
        let mut notices: Vec<Notice> = Vec::new();
        let mut i: usize = 0;
        while i < newcomers.len()
            invariant
                i <= newcomers@.len(),
                arrivals == players_view(newcomers@),
                notices_view(notices@) == promotion_notices(arrivals.subrange(0, i as int)),
                self@.game.players == old(self)@.game.players + seated(
                    arrivals.subrange(0, i as int),
                ),
                self@.game.deck == old(self)@.game.deck,
                self@.game.dealer == old(self)@.game.dealer,
                self@.game.in_progress == old(self)@.game.in_progress,
                self@.phase == old(self)@.phase,
                self@.turn_holder == old(self)@.turn_holder,
            decreases newcomers@.len() - i,
        {
            let player = &newcomers[i];
            let ghost p = arrivals[i as int];
            let ghost said = notices_view(notices@);
            self.game.add_player(player.name.as_str(), player.id.as_str());
            notices.push(unicast(player.id.as_str(), seated_message(player.name.as_str())));
            notices.push(
                broadcast_except(player.id.as_str(), arrival_message(player.name.as_str())),
            );
            proof {
                let shorter = arrivals.subrange(0, i as int);
                let longer = arrivals.subrange(0, i + 1);
                assert(longer.drop_last() =~= shorter);
                assert(notices_view(notices@) =~= said.push(
                    NoticeView::Unicast { to: p.id, text: seated_text(p.name) },
                ).push(NoticeView::Broadcast { excluding: Some(p.id), text: arrival_text(p.name) }));
            }
            i += 1;
        }
        assert(arrivals.subrange(0, i as int) =~= arrivals);
        if self.game.player_pool.len() == 0 {
            self.phase = Phase::Waiting;
        } else {
            self.phase = Phase::DealerDraw;
        }
        Outcome { notices, idle: false }
    }

    /// Deals one card to the dealer, from a deck that is replaced first if it
    /// has run low, shows the dealer's hand to the table and turns to the
    /// first seat.
    pub fn dealer_draw(&mut self) -> (out: Outcome)
        ensures
            dealer_drawn(old(self)@, final(self)@, out@),
    {
        let card = draw_with_refill(&mut self.game.deck);
        self.game.dealer.cards.push(card);
        assert(self@.game.dealer =~= old(self)@.game.dealer.push(card@));
        self.game.in_progress = true;
        self.phase = Phase::Turn { seat: 0 };
        self.current_turn_holder = None;
        let mut notices: Vec<Notice> = Vec::new();
        notices.push(broadcast_all(dealer_message(&self.game.dealer)));
        assert(notices_view(notices@) =~= dealer_notices(self@.game.dealer));
        Outcome { notices, idle: false }
    }

    /// Makes one move for the turn at `seat`: ends the round past the last
    /// seat, gives the turn to a seat that does not hold it, waits for the
    /// holder's bet, or consumes it.
    pub fn take_turn(&mut self, bets: &mut BetIntake, seat: usize) -> (out: Outcome)
        ensures
            turn_taken(old(self)@, old(bets)@, seat as int, final(self)@, final(bets)@, out@),
    {
        if seat >= self.game.player_pool.len() {
            self.phase = Phase::RoundReset;
            self.current_turn_holder = None;
            return silent(false);
        }
        let ghost p = old(self)@.game.players[seat as int];
        let name = self.game.player_pool[seat].name.clone();
        let id = self.game.player_pool[seat].id.clone();
        let money = self.game.player_pool[seat].money;
        let holds = match &self.current_turn_holder {
            Some(holder) => same_text(holder.as_str(), id.as_str()),
            None => false,
        };
        if !holds {
            let mut notices: Vec<Notice> = Vec::new();
            notices.push(broadcast_except(id.as_str(), betting_message(name.as_str())));
            notices.push(unicast(id.as_str(), prompt_message(name.as_str())));
            assert(notices_view(notices@) =~= opening_notices(p));
            self.current_turn_holder = Some(id);
            return Outcome { notices, idle: false };
        }
        match bets.take(id.as_str()) {
            None => {
                assert(bets@ =~= old(bets)@);
                silent(true)
            },
            Some(amount) => {
                let mut notices: Vec<Notice> = Vec::new();
                if amount > money {
                    notices.push(unicast(id.as_str(), overbet_message(money)));
                    assert(notices_view(notices@) =~= overbet_notices(p));
                    return Outcome { notices, idle: false };
                }
                let card = draw_with_refill(&mut self.game.deck);
                self.game.player_pool[seat].money = money - amount;
                self.game.player_pool[seat].current_bet = amount;
                self.game.player_pool[seat].cards.push(card);
                self.current_turn_holder = None;
                self.phase = Phase::Turn { seat: seat + 1 };
                notices.push(unicast(id.as_str(), receipt_message(amount, money - amount)));
                notices.push(broadcast_except(id.as_str(), bet_message(name.as_str(), amount)));
                proof {
                    assert(self.game.player_pool@[seat as int]@.cards =~= p.cards.push(card@));
                    assert(self@.game.players =~= old(self)@.game.players.update(
                        seat as int,
                        PlayerView {
                            money: balance_after(p.money, amount as int),
                            current_bet: amount as int,
                            cards: p.cards.push(card@),
                            ..p
                        },
                    ));
                    assert(notices_view(notices@) =~= bet_notices(p, amount as int));
                }
                Outcome { notices, idle: false }
            },
        }
    }

    /// Clears bets and hands after a round and turns to the next one.
    pub fn finish_round(&mut self, bets: &mut BetIntake) -> (out: Outcome)
        ensures
            round_reset(old(self)@, final(self)@, final(bets)@, out@),
    {
        reset_game(bets, &mut self.game);
        assert(self@.game.players.len() == old(self)@.game.players.len());
        self.game.in_progress = false;
        self.current_turn_holder = None;
        if self.game.player_pool.len() == 0 {
            self.phase = Phase::Waiting;
        } else {
            self.phase = Phase::Promoting;
        }
        silent(false)
    }

    /// Makes the one move that the phase calls for. The lobby is emptied only
    /// when promoting, and the bet intake is touched only during a turn and
    /// at the reset.
    pub fn step(&mut self, lobby: &mut Lobby, bets: &mut BetIntake) -> (out: Outcome)
        ensures
            stepped(
                old(self)@,
                old(lobby)@,
                old(bets)@,
                final(self)@,
                final(lobby)@,
                final(bets)@,
                out@,
            ),
    {
        match self.phase {
            Phase::Waiting => self.watch_lobby(lobby.len()),
            Phase::Promoting => {
                let newcomers = lobby.drain();
                self.seat_players(&newcomers)
            },
            Phase::DealerDraw => self.dealer_draw(),
            Phase::Turn { seat } => self.take_turn(bets, seat),
            Phase::RoundReset => self.finish_round(bets),
        }
    }

    /// Gives up the seat of the player with this id, if they have one, and
    /// says whether they had. A turn that they held is abandoned, so that
    /// the next move turns to whoever sits there now.
    pub fn remove_player(&mut self, id: &str) -> (removed: bool)
        ensures
            removed == (first_index(player_ids(old(self)@.game.players), id@) < old(
                self,
            )@.game.players.len()),
            final(self)@ == after_departure(old(self)@, id@),
    {
        let seat = find_player(&self.game.player_pool, id);
        if seat >= self.game.player_pool.len() {
            return false;
        }
        self.game.player_pool.remove(seat);
        assert(self@.game.players =~= old(self)@.game.players.remove(seat as int));
        match self.phase {
            Phase::Turn { seat: at } => {
                if seat < at {
                    self.phase = Phase::Turn { seat: at - 1 };
                }
            },
            _ => {},
        }
        let held = match &self.current_turn_holder {
            Some(holder) => same_text(holder.as_str(), id),
            None => false,
        };
        if held {
            self.current_turn_holder = None;
        }
        true
    }
}

} // verus!
