//! The lobby: players who have joined and wait for a seat.

use crate::player::{find_player, first_index, player_ids, players_view, Player, PlayerView};
use vstd::prelude::*;

verus! {

/// The waiting players, in the order in which they joined.
pub struct Lobby {
    players: Vec<Player>,
}

impl View for Lobby {
    type V = Seq<PlayerView>;

    closed spec fn view(&self) -> Seq<PlayerView> {
        players_view(self.players@)
    }
}

/// `players` without the first player that has this id; `players` itself if
/// no one has it.
pub open spec fn without_player(players: Seq<PlayerView>, id: Seq<char>) -> Seq<PlayerView> {
    let seat = first_index(player_ids(players), id);
    if seat < players.len() {
        players.remove(seat)
    } else {
        players
    }
}

impl Lobby {
    /// An empty lobby.
    pub fn new() -> (lobby: Lobby)
        ensures
            lobby@ == Seq::<PlayerView>::empty(),
    {
        let lobby = Lobby { players: Vec::new() };
        lobby
    }

    /// Lets a player in behind those who already wait.
    pub fn join(&mut self, player: Player)
        ensures
            final(self)@ == old(self)@.push(player@),
    {
        self.players.push(player);
    }

    /// The number of waiting players.
    pub fn len(&self) -> (n: usize)
        ensures
            n == self@.len(),
    {
        self.players.len()
    }

    /// Whether no one waits.
    pub fn is_empty(&self) -> (empty: bool)
        ensures
            empty == (self@.len() == 0),
    {
        self.players.len() == 0
    }

    /// Empties the lobby and hands out everyone who waited, in the order in
    /// which they joined.
    pub fn drain(&mut self) -> (waiting: Vec<Player>)
        ensures
            players_view(waiting@) == old(self)@,
            final(self)@ == Seq::<PlayerView>::empty(),
    {
        let mut waiting: Vec<Player> = Vec::new();
        waiting.append(&mut self.players);
        waiting
    }

    /// Takes the player with this id out of the lobby. Says whether there
    /// was one.
    pub fn leave(&mut self, id: &str) -> (left: bool)
        ensures
            left == (first_index(player_ids(old(self)@), id@) < old(self)@.len()),
            final(self)@ == without_player(old(self)@, id@),
    {
        let seat = find_player(&self.players, id);
        if seat < self.players.len() {
            self.players.remove(seat);
            true
        } else {
            false
        }
    }
}

} // verus!
