//! The people at the table: players, the dealer, and the game that seats
//! them.

use crate::card::{cards_view, Card, CardView};
use crate::deck::Deck;
use crate::text::{decimal_text, push_decimal, same_text};
use vstd::prelude::*;

verus! {

/// The balance that every player starts with.
pub const STARTING_MONEY: u32 = 100;

/// A connected player: who they are, what they own and what they hold.
#[derive(Clone, Debug)]
pub struct Player {
    pub name: String,
    pub money: u32,
    pub current_bet: u32,
    pub id: String,
    pub cards: Vec<Card>,
}

/// What a player is, in plain values.
pub struct PlayerView {
    pub name: Seq<char>,
    pub money: int,
    pub current_bet: int,
    pub id: Seq<char>,
    pub cards: Seq<CardView>,
}

impl View for Player {
    type V = PlayerView;

    open spec fn view(&self) -> PlayerView {
        PlayerView {
            name: self.name@,
            money: self.money as int,
            current_bet: self.current_bet as int,
            id: self.id@,
            cards: cards_view(self.cards@),
        }
    }
}

/// The players of a sequence, each by what they are.
pub open spec fn players_view(players: Seq<Player>) -> Seq<PlayerView> {
    players.map_values(|p: Player| p@)
}

/// A player who has just sat down: the starting balance, no bet, no cards.
pub open spec fn newcomer(name: Seq<char>, id: Seq<char>) -> PlayerView {
    PlayerView { name, money: STARTING_MONEY as int, current_bet: 0, id, cards: Seq::empty() }
}

/// The ids of a sequence of players.
pub open spec fn player_ids(players: Seq<PlayerView>) -> Seq<Seq<char>> {
    players.map_values(|p: PlayerView| p.id)
}

/// The position of the first of `ids` that is `id`; the length of `ids` if
/// none is.
pub open spec fn first_index(ids: Seq<Seq<char>>, id: Seq<char>) -> int
    decreases ids.len(),
{
    if ids.len() == 0 {
        0
    } else if ids[0] == id {
        0
    } else {
        1 + first_index(ids.drop_first(), id)
    }
}

/// `first_index` is the one position that holds `id` with no `id` before it,
/// or the length where there is none.
pub proof fn lemma_first_index(ids: Seq<Seq<char>>, id: Seq<char>, k: int)
    requires
        0 <= k <= ids.len(),
        forall|j: int| 0 <= j < k ==> #[trigger] ids[j] != id,
        k == ids.len() || ids[k] == id,
    ensures
        first_index(ids, id) == k,
    decreases ids.len(),
{
    if ids.len() > 0 && k > 0 {
        let rest = ids.drop_first();
        assert forall|j: int| 0 <= j < k - 1 implies #[trigger] rest[j] != id by {
            assert(rest[j] == ids[j + 1]);
        }
        lemma_first_index(rest, id, k - 1);
    }
}

/// `first_index` lies within the sequence or at its end, points at `id` where
/// it lies within, and has no `id` before it.
pub proof fn lemma_first_index_found(ids: Seq<Seq<char>>, id: Seq<char>)
    ensures
        0 <= first_index(ids, id) <= ids.len(),
        first_index(ids, id) < ids.len() ==> ids[first_index(ids, id)] == id,
        forall|j: int| 0 <= j < first_index(ids, id) ==> #[trigger] ids[j] != id,
    decreases ids.len(),
{
    if ids.len() > 0 && ids[0] != id {
        let rest = ids.drop_first();
        lemma_first_index_found(rest, id);
        assert forall|j: int| 0 <= j < first_index(ids, id) implies #[trigger] ids[j] != id by {
            if j > 0 {
                assert(ids[j] == rest[j - 1]);
            }
        }
    }
}

/// The seat of the first player with this id; the number of players if no
/// one has it.
pub fn find_player(players: &Vec<Player>, id: &str) -> (seat: usize)
    ensures
        seat == first_index(player_ids(players_view(players@)), id@),
        seat <= players@.len(),
{
    let ghost ids = player_ids(players_view(players@));
    let mut k: usize = 0;
    while k < players.len()
        invariant
            k <= players@.len(),
            ids == player_ids(players_view(players@)),
            forall|j: int| 0 <= j < k ==> #[trigger] ids[j] != id@,
        decreases players@.len() - k,
    {
        if same_text(players[k].id.as_str(), id) {
            proof {
                lemma_first_index(ids, id@, k as int);
            }
            return k;
        }
        k += 1;
    }
    proof {
        lemma_first_index(ids, id@, k as int);
    }
    k
}

/// The dealer: a hand and nothing else.
#[derive(Clone, Debug)]
pub struct Dealer {
    pub cards: Vec<Card>,
}

impl View for Dealer {
    type V = Seq<CardView>;

    open spec fn view(&self) -> Seq<CardView> {
        cards_view(self.cards@)
    }
}

/// How one card of a hand is listed: its rank as a number, its suit, and a
/// comma.
pub open spec fn hand_item_text(card: CardView) -> Seq<char> {
    decimal_text(card.value) + " of "@ + card.suit + ", "@
}

/// How a hand is listed: its cards in order, each as `hand_item_text` has it.
pub open spec fn hand_text(cards: Seq<CardView>) -> Seq<char>
    decreases cards.len(),
{
    if cards.len() == 0 {
        Seq::empty()
    } else {
        hand_text(cards.drop_last()) + hand_item_text(cards.last())
    }
}

/// Appends the listing of `cards` to `out`.
fn push_hand(out: &mut String, cards: &Vec<Card>)
    ensures
        final(out)@ == old(out)@ + hand_text(cards_view(cards@)),
{
    let ghost hand = cards_view(cards@);
    let mut i: usize = 0;
    while i < cards.len()
        invariant
            i <= cards@.len(),
            hand == cards_view(cards@),
            out@ == old(out)@ + hand_text(hand.subrange(0, i as int)),
        decreases cards@.len() - i,
    {
        let card = &cards[i];
        push_decimal(out, card.value as i64);
        out.append(" of ");
        out.append(card.suit.as_str());
        out.append(", ");
        assert(hand.subrange(0, i + 1).drop_last() =~= hand.subrange(0, i as int));
        i += 1;
    }
    assert(hand.subrange(0, i as int) =~= hand);
}

/// Anything that holds a hand and can list it.
pub trait DisplayCards {
    /// The listing of the hand.
    spec fn cards_text(&self) -> Seq<char>;

    /// Lists the hand.
    fn display_cards(&self) -> (text: String)
        ensures
            text@ == self.cards_text(),
    ;
}

/// Lists the hand that `obj` holds.
pub fn display_cards<T: DisplayCards>(obj: &T) -> (text: String)
    ensures
        text@ == obj.cards_text(),
{
    obj.display_cards()
}

impl Player {
    /// A player who has just connected: the starting balance, no bet, no
    /// cards.
    pub fn new(name: &str, id: &str) -> (player: Player)
        ensures
            player@ == newcomer(name@, id@),
    {
        let player = Player {
            name: name.to_owned(),
            money: STARTING_MONEY,
            current_bet: 0,
            id: id.to_owned(),
            cards: Vec::new(),
        };
        assert(player@.cards =~= Seq::<CardView>::empty());
        player
    }
}

impl DisplayCards for Player {
    open spec fn cards_text(&self) -> Seq<char> {
        "Your cards: "@ + hand_text(self@.cards)
    }

    fn display_cards(&self) -> (text: String) {
        let mut target = "Your cards: ".to_owned();
        push_hand(&mut target, &self.cards);
        target
    }
}

impl DisplayCards for Dealer {
    open spec fn cards_text(&self) -> Seq<char> {
        "Dealer's Cards: "@ + hand_text(self@)
    }

    fn display_cards(&self) -> (text: String) {
        let mut target = "Dealer's Cards: ".to_owned();
        push_hand(&mut target, &self.cards);
        target
    }
}

/// The table's state: who is seated, the deck, and the dealer.
#[derive(Clone, Debug)]
pub struct Game {
    pub player_pool: Vec<Player>,
    pub deck: Deck,
    pub dealer: Dealer,
    pub in_progress: bool,
}

/// What a game is, in plain values. The order of `players` is the order of
/// the seats, and so of the turns.
pub struct GameView {
    pub players: Seq<PlayerView>,
    pub deck: Seq<CardView>,
    pub dealer: Seq<CardView>,
    pub in_progress: bool,
}

impl View for Game {
    type V = GameView;

    open spec fn view(&self) -> GameView {
        GameView {
            players: players_view(self.player_pool@),
            deck: self.deck@,
            dealer: self.dealer@,
            in_progress: self.in_progress,
        }
    }
}

impl Game {
    /// Seats a new player behind those already seated.
    pub fn add_player(&mut self, name: &str, id: &str)
        ensures
            final(self)@ == (GameView {
                players: old(self)@.players.push(newcomer(name@, id@)),
                ..old(self)@
            }),
    {
        self.player_pool.push(Player::new(name, id));
        assert(self@.players =~= old(self)@.players.push(newcomer(name@, id@)));
    }
}

} // verus!
