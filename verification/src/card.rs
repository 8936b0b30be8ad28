//! Playing cards and how one is written.

use crate::text::{decimal_text, push_decimal};
use vstd::prelude::*;

verus! {

/// A playing card: a suit symbol and a rank from 2 to 14, where 11 to 14 are
/// jack, queen, king and ace.
#[derive(Clone, Debug)]
pub struct Card {
    pub suit: String,
    pub value: i32,
}

/// What a card is: the characters of its suit and its rank.
pub struct CardView {
    pub suit: Seq<char>,
    pub value: int,
}

impl View for Card {
    type V = CardView;

    open spec fn view(&self) -> CardView {
        CardView { suit: self.suit@, value: self.value as int }
    }
}

/// The cards of a sequence, each by what it is.
pub open spec fn cards_view(cards: Seq<Card>) -> Seq<CardView> {
    cards.map_values(|c: Card| c@)
}

/// How a rank is written: a letter for the court cards and the ace, the
/// decimal number for every other rank.
pub open spec fn rank_text(value: int) -> Seq<char> {
    if value == 11 {
        seq!['J']
    } else if value == 12 {
        seq!['Q']
    } else if value == 13 {
        seq!['K']
    } else if value == 14 {
        seq!['A']
    } else {
        decimal_text(value)
    }
}

/// How a card is written: its rank, then its suit.
pub open spec fn card_text(card: CardView) -> Seq<char> {
    rank_text(card.value) + card.suit
}

/// Writes a card as its rank followed by its suit, such as `10♠` or `K♦`.
pub fn format_card(card: &Card) -> (text: String)
    ensures
        text@ == card_text(card@),
{
    let mut card_str = String::new();
    proof {
        reveal_strlit("J");
        reveal_strlit("Q");
        reveal_strlit("K");
        reveal_strlit("A");
    }
    if card.value == 11 {
        card_str.append("J");
    } else if card.value == 12 {
        card_str.append("Q");
    } else if card.value == 13 {
        card_str.append("K");
    } else if card.value == 14 {
        card_str.append("A");
    } else {
        push_decimal(&mut card_str, card.value as i64);
    }
    card_str.append(card.suit.as_str());
    card_str
}

} // verus!
