//! What the table tells its players: the wording of each message, and the
//! notices that carry a message to one mailbox or to all but one.

use crate::bets::text_of;
use crate::card::CardView;
use crate::player::{hand_text, Dealer, DisplayCards};
use crate::text::{decimal_text, push_decimal};
use vstd::prelude::*;

verus! {

/// A message on its way to the players.
#[derive(Debug)]
pub enum Notice {
    /// For the mailbox of one player.
    Unicast { to: String, text: String },
    /// For every mailbox but that of `excluding`; for every mailbox if no one
    /// is excluded.
    Broadcast { excluding: Option<String>, text: String },
}

/// What a notice is, in plain values.
pub enum NoticeView {
    Unicast { to: Seq<char>, text: Seq<char> },
    Broadcast { excluding: Option<Seq<char>>, text: Seq<char> },
}

impl View for Notice {
    type V = NoticeView;

    open spec fn view(&self) -> NoticeView {
        match self {
            Notice::Unicast { to, text } => NoticeView::Unicast { to: to@, text: text@ },
            Notice::Broadcast { excluding, text } => NoticeView::Broadcast {
                excluding: text_of(*excluding),
                text: text@,
            },
        }
    }
}

/// The notices of a sequence, each by what it is.
pub open spec fn notices_view(notices: Seq<Notice>) -> Seq<NoticeView> {
    notices.map_values(|n: Notice| n@)
}

/// The greeting that asks a new connection for a name.
pub open spec fn welcome_text() -> Seq<char> {
    "Welcome to blackjack. Please type your name to proceed \n"@
}

/// The acknowledgment that a player waits in the lobby.
pub open spec fn lobby_text() -> Seq<char> {
    "You have joined the lobby. Waiting for other players to join... \n"@
}

/// What a player reads on being seated.
pub open spec fn seated_text(name: Seq<char>) -> Seq<char> {
    "You have joined the game, "@ + name + "!\n"@
}

/// What the others read when a player is seated.
pub open spec fn arrival_text(name: Seq<char>) -> Seq<char> {
    name + " joined the game\n"@
}

/// The dealer's hand, as shown to the table.
pub open spec fn dealer_text(dealer: Seq<CardView>) -> Seq<char> {
    "Dealer's Cards: "@ + hand_text(dealer) + "\n"@
}

/// What the others read while a player is to bet.
pub open spec fn betting_text(name: Seq<char>) -> Seq<char> {
    name + " is betting\n"@
}

/// The prompt to the player whose turn it is.
pub open spec fn prompt_text(name: Seq<char>) -> Seq<char> {
    "Ok, "@ + name + ", it's your turn. Place a bet\n"@
}

/// The confirmation of a bet, with what is left of the player's money.
pub open spec fn receipt_text(amount: int, left: int) -> Seq<char> {
    "You have bet $"@ + decimal_text(amount) + ". You have $"@ + decimal_text(left) + " left\n"@
}

/// What the others read when a player has bet.
pub open spec fn bet_text(name: Seq<char>, amount: int) -> Seq<char> {
    name + " has bet $"@ + decimal_text(amount) + "\n"@
}

/// The answer to a bet that is more than the player has.
pub open spec fn overbet_text(money: int) -> Seq<char> {
    "You only have $"@ + decimal_text(money) + ". Place a bet\n"@
}

/// The answer to a line that is not a bet.
pub open spec fn malformed_text() -> Seq<char> {
    "That is not a bet. Type a whole number\n"@
}

/// Writes `welcome_text`.
pub fn welcome_message() -> (text: String)
    ensures
        text@ == welcome_text(),
{
    "Welcome to blackjack. Please type your name to proceed \n".to_owned()
}

/// Writes `lobby_text`.
pub fn lobby_message() -> (text: String)
    ensures
        text@ == lobby_text(),
{
    "You have joined the lobby. Waiting for other players to join... \n".to_owned()
}

/// Writes `seated_text`.
pub fn seated_message(name: &str) -> (text: String)
    ensures
        text@ == seated_text(name@),
{
    let mut text = "You have joined the game, ".to_owned();
    text.append(name);
    text.append("!\n");
    text
}

/// Writes `arrival_text`.
pub fn arrival_message(name: &str) -> (text: String)
    ensures
        text@ == arrival_text(name@),
{
    let mut text = name.to_owned();
    text.append(" joined the game\n");
    text
}

/// Writes `dealer_text`.
pub fn dealer_message(dealer: &Dealer) -> (text: String)
    ensures
        text@ == dealer_text(dealer@),
{
    let mut text = dealer.display_cards();
    text.append("\n");
    text
}

/// Writes `betting_text`.
pub fn betting_message(name: &str) -> (text: String)
    ensures
        text@ == betting_text(name@),
{
    let mut text = name.to_owned();
    text.append(" is betting\n");
    text
}

/// Writes `prompt_text`.
pub fn prompt_message(name: &str) -> (text: String)
    ensures
        text@ == prompt_text(name@),
{
    let mut text = "Ok, ".to_owned();
    text.append(name);
    text.append(", it's your turn. Place a bet\n");
    text
}

/// Writes `receipt_text`.
pub fn receipt_message(amount: u32, left: u32) -> (text: String)
    ensures
        text@ == receipt_text(amount as int, left as int),
{
    let mut text = "You have bet $".to_owned();
    push_decimal(&mut text, amount as i64);
    text.append(". You have $");
    push_decimal(&mut text, left as i64);
    text.append(" left\n");
    text
}

/// Writes `bet_text`.
pub fn bet_message(name: &str, amount: u32) -> (text: String)
    ensures
        text@ == bet_text(name@, amount as int),
{
    let mut text = name.to_owned();
    text.append(" has bet $");
    push_decimal(&mut text, amount as i64);
    text.append("\n");
    text
}

/// Writes `overbet_text`.
pub fn overbet_message(money: u32) -> (text: String)
    ensures
        text@ == overbet_text(money as int),
{
    let mut text = "You only have $".to_owned();
    push_decimal(&mut text, money as i64);
    text.append(". Place a bet\n");
    text
}

/// Writes `malformed_text`.
pub fn malformed_message() -> (text: String)
    ensures
        text@ == malformed_text(),
{
    "That is not a bet. Type a whole number\n".to_owned()
}

/// A notice for one player.
pub fn unicast(to: &str, text: String) -> (notice: Notice)
    ensures
        notice@ == (NoticeView::Unicast { to: to@, text: text@ }),
{
    Notice::Unicast { to: to.to_owned(), text }
}

/// A notice for everyone but one player.
pub fn broadcast_except(excluding: &str, text: String) -> (notice: Notice)
    ensures
        notice@ == (NoticeView::Broadcast { excluding: Some(excluding@), text: text@ }),
{
    Notice::Broadcast { excluding: Some(excluding.to_owned()), text }
}

/// A notice for everyone.
pub fn broadcast_all(text: String) -> (notice: Notice)
    ensures
        notice@ == (NoticeView::Broadcast { excluding: None, text: text@ }),
{
    Notice::Broadcast { excluding: None, text }
}

} // verus!
