//! The deck: fifty-two distinct cards, shuffled by random swaps and dealt
//! from the top.

use crate::card::{cards_view, Card, CardView};
use rand::Rng;
use vstd::prelude::*;

verus! {

/// The number of cards in a full deck.
pub const DECK_SIZE: usize = 52;

/// An ordered pile of cards; the last one is the top.
#[derive(Clone, Debug)]
pub struct Deck(pub Vec<Card>);

impl View for Deck {
    type V = Seq<CardView>;

    open spec fn view(&self) -> Seq<CardView> {
        cards_view(self.0@)
    }
}

/// The four suit symbols, in the order in which a new deck holds them.
pub open spec fn suit_text(k: int) -> Seq<char> {
    if k == 0 {
        "♠"@
    } else if k == 1 {
        "♥"@
    } else if k == 2 {
        "♦"@
    } else {
        "♣"@
    }
}

/// The card at position `i` of an unshuffled deck: ranks ascend from 2 to 14,
/// and each rank comes in the four suits in turn.
pub open spec fn ordered_card(i: int) -> CardView {
    CardView { suit: suit_text(i % 4), value: 2 + i / 4 }
}

/// The unshuffled deck.
pub open spec fn ordered_cards() -> Seq<CardView> {
    Seq::new(DECK_SIZE as nat, |i: int| ordered_card(i))
}

/// Whether `card` is one of the fifty-two cards of a deck.
pub open spec fn is_deck_card(card: CardView) -> bool {
    exists|i: int| 0 <= i < DECK_SIZE && card == #[trigger] ordered_card(i)
}

/// Whether `cards` holds cards of a deck only, and none of them twice.
pub open spec fn distinct_deck_cards(cards: Seq<CardView>) -> bool {
    &&& cards.no_duplicates()
    &&& forall|i: int| 0 <= i < cards.len() ==> is_deck_card(#[trigger] cards[i])
}

/// Whether `cards` is a full deck in some order: fifty-two cards, each card
/// of a deck once.
pub open spec fn is_full_deck(cards: Seq<CardView>) -> bool {
    cards.len() == DECK_SIZE && distinct_deck_cards(cards)
}

/// `s` with the cards at `i` and `j` exchanged.
pub open spec fn swapped(s: Seq<CardView>, i: int, j: int) -> Seq<CardView> {
    s.update(i, s[j]).update(j, s[i])
}

/// Whether `picks` names one position of a pile of `n` cards for each of its
/// positions.
pub open spec fn valid_picks(picks: Seq<usize>, n: nat) -> bool {
    &&& picks.len() == n
    &&& forall|i: int| 0 <= i < n ==> (#[trigger] picks[i]) < n
}

/// `s` after the first `steps` swaps of a shuffle: step `i` exchanges the
/// card at position `i` with the one at `picks[i]`.
pub open spec fn rearranged(s: Seq<CardView>, picks: Seq<usize>, steps: nat) -> Seq<CardView>
    decreases steps,
{
    if steps == 0 {
        s
    } else {
        swapped(rearranged(s, picks, (steps - 1) as nat), steps - 1, picks[steps - 1] as int)
    }
}

/// The four suit symbols differ from one another.
pub proof fn lemma_suits_differ()
    ensures
        forall|a: int, b: int|
            0 <= a < 4 && 0 <= b < 4 && a != b ==> #[trigger] suit_text(a) != #[trigger] suit_text(
                b,
            ),
{
    reveal_strlit("♠");
    reveal_strlit("♥");
    reveal_strlit("♦");
    reveal_strlit("♣");
    assert forall|a: int, b: int| 0 <= a < 4 && 0 <= b < 4 && a != b implies #[trigger] suit_text(
        a,
    ) != #[trigger] suit_text(b) by {
        assert(suit_text(a)[0] != suit_text(b)[0]);
    }
}

/// The unshuffled deck is a full deck.
pub proof fn lemma_ordered_is_full()
    ensures
        is_full_deck(ordered_cards()),
{
    let cards = ordered_cards();
    lemma_suits_differ();
    assert forall|i: int| 0 <= i < cards.len() implies is_deck_card(#[trigger] cards[i]) by {
        assert(cards[i] == ordered_card(i));
    }
}

/// Exchanging two cards keeps the length, the cards and their distinctness.
pub proof fn lemma_swapped_keeps_cards(s: Seq<CardView>, i: int, j: int)
    requires
        0 <= i < s.len(),
        0 <= j < s.len(),
    ensures
        swapped(s, i, j).len() == s.len(),
        swapped(s, i, j).to_multiset() == s.to_multiset(),
        distinct_deck_cards(s) ==> distinct_deck_cards(swapped(s, i, j)),
{
    let t = swapped(s, i, j);
    vstd::seq_lib::to_multiset_update(s, i, s[j]);
    vstd::seq_lib::to_multiset_update(s.update(i, s[j]), j, s[i]);
    broadcast use vstd::multiset::group_multiset_axioms;
    broadcast use vstd::seq_lib::to_multiset_contains;

    assert(s.contains(s[i]) && s.contains(s[j]));
    assert(t.to_multiset() =~= s.to_multiset());
    if distinct_deck_cards(s) {
        assert forall|a: int| 0 <= a < t.len() implies is_deck_card(#[trigger] t[a]) by {
            assert(t[a] == s[a] || t[a] == s[i] || t[a] == s[j]);
        }
    }
}

/// A shuffle keeps the length, the cards and their distinctness, whatever
/// positions were picked.
pub proof fn lemma_rearranged_keeps_cards(s: Seq<CardView>, picks: Seq<usize>, steps: nat)
    requires
        valid_picks(picks, s.len()),
        steps <= s.len(),
    ensures
        rearranged(s, picks, steps).len() == s.len(),
        rearranged(s, picks, steps).to_multiset() == s.to_multiset(),
        distinct_deck_cards(s) ==> distinct_deck_cards(rearranged(s, picks, steps)),
    decreases steps,
{
    if steps > 0 {
        lemma_rearranged_keeps_cards(s, picks, (steps - 1) as nat);
        lemma_swapped_keeps_cards(
            rearranged(s, picks, (steps - 1) as nat),
            steps - 1,
            picks[steps - 1] as int,
        );
    }
}

/// `rand::Rng::gen_range` over `0..bound`, on the generator that
/// `rand::thread_rng` hands out: some position below `bound`. Which one is
/// left open; an empty range, on which the call panics, is excluded.
#[verifier::external_body]
fn random_below(bound: usize) -> (pick: usize)
    requires
        bound > 0,
    ensures
        pick < bound,
{
    rand::thread_rng().gen_range(0..bound)
}

/// Picks one random position of a pile of `n` cards for each of its
/// positions.
pub fn random_picks(n: usize) -> (picks: Vec<usize>)
    ensures
        valid_picks(picks@, n as nat),
{
    let mut picks: Vec<usize> = Vec::new();
    let mut i: usize = 0;
    while i < n
        invariant
            i <= n,
            picks@.len() == i,
            forall|k: int| 0 <= k < i ==> (#[trigger] picks@[k]) < n,
        decreases n - i,
    {
        let pick = random_below(n);
        picks.push(pick);
        i += 1;
    }
    picks
}

/// Exchanges the cards at positions `i` and `j`.
fn swap_cards(cards: &mut Vec<Card>, i: usize, j: usize)
    requires
        i < old(cards)@.len(),
        j < old(cards)@.len(),
    ensures
        cards_view(final(cards)@) == swapped(cards_view(old(cards)@), i as int, j as int),
{
    if i != j {
        let (lo, hi) = if i < j {
            (i, j)
        } else {
            (j, i)
        };
        let mut held = cards.remove(hi);
        cards.set_and_swap(lo, &mut held);
        cards.insert(hi, held);
    }
}

impl Deck {
    /// A full deck in its unshuffled order.
    pub fn ordered() -> (deck: Deck)
        ensures
            deck@ == ordered_cards(),
    {
        let mut cards: Vec<Card> = Vec::new();
        let mut i: usize = 0;
        while i < DECK_SIZE
            invariant
                i <= DECK_SIZE,
                cards@.len() == i,
                forall|k: int| 0 <= k < i ==> (#[trigger] cards@[k])@ == ordered_card(k),
            decreases DECK_SIZE - i,
        {
            let symbol = if i % 4 == 0 {
                "♠"
            } else if i % 4 == 1 {
                "♥"
            } else if i % 4 == 2 {
                "♦"
            } else {
                "♣"
            };
            cards.push(Card { suit: symbol.to_owned(), value: (2 + i / 4) as i32 });
            i += 1;
        }
        let deck = Deck(cards);
        deck
    }

    /// A full deck, shuffled.
    pub fn new() -> (deck: Deck)
        ensures
            is_full_deck(deck@),
            exists|picks: Seq<usize>|
                valid_picks(picks, DECK_SIZE as nat) && deck@ == #[trigger] rearranged(
                    ordered_cards(),
                    picks,
                    DECK_SIZE as nat,
                ),
    {
        let mut deck = Deck::ordered();
        proof {
            lemma_ordered_is_full();
        }
        deck.shuffle();
        deck
    }

    /// The number of cards left.
    pub fn len(&self) -> (n: usize)
        ensures
            n == self@.len(),
    {
        self.0.len()
    }

    /// Walks the deck from the bottom and exchanges each card with the one at
    /// the position picked for it. Does nothing, and says so, unless `picks`
    /// names one position of the deck for each card.
    pub fn rearrange(&mut self, picks: &Vec<usize>) -> (done: bool)
        ensures
            done == valid_picks(picks@, old(self)@.len()),
            done ==> final(self)@ == rearranged(old(self)@, picks@, old(self)@.len()),
            !done ==> final(self)@ == old(self)@,
    {
        let n = self.0.len();
        if picks.len() != n {
            return false;
        }
        let mut k: usize = 0;
        while k < n
            invariant
                k <= n,
                n == picks@.len(),
                forall|m: int| 0 <= m < k ==> (#[trigger] picks@[m]) < n,
            decreases n - k,
        {
            if picks[k] >= n {
                return false;
            }
            k += 1;
        }
        let mut i: usize = 0;
        while i < n
            invariant
                i <= n,
                n == old(self)@.len(),
                valid_picks(picks@, n as nat),
                self@.len() == n,
                self@ == rearranged(old(self)@, picks@, i as nat),
            decreases n - i,
        {
            swap_cards(&mut self.0, i, picks[i]);
            i += 1;
        }
        true
    }

    /// Shuffles the deck: each card in turn, from the bottom, changes places
    /// with the card at a random position.
    pub fn shuffle(&mut self)
        ensures
            final(self)@.len() == old(self)@.len(),
            final(self)@.to_multiset() == old(self)@.to_multiset(),
            distinct_deck_cards(old(self)@) ==> distinct_deck_cards(final(self)@),
            exists|picks: Seq<usize>|
                valid_picks(picks, old(self)@.len()) && final(self)@ == #[trigger] rearranged(
                    old(self)@,
                    picks,
                    old(self)@.len(),
                ),
    {
        let picks = random_picks(self.0.len());
        self.rearrange(&picks);
        proof {
            lemma_rearranged_keeps_cards(old(self)@, picks@, old(self)@.len());
        }
    }

    /// Takes the top card, if there is one.
    pub fn deal_card(&mut self) -> (card: Option<Card>)
        ensures
            old(self)@.len() == 0 ==> card is None && final(self)@ == old(self)@,
            old(self)@.len() > 0 ==> card is Some && card->0@ == old(self)@.last() && final(self)@
                == old(self)@.drop_last(),
    {
        let card = self.0.pop();
        assert(self@ =~= if old(self)@.len() == 0 {
            old(self)@
        } else {
            old(self)@.drop_last()
        });
        card
    }
}

} // verus!
