use blackjack_table::lobby::Lobby;
use blackjack_table::player::{find_player, Player};

#[test]
fn new_lobby_is_empty() {
    let lobby = Lobby::new();
    assert!(lobby.is_empty());
    assert_eq!(lobby.len(), 0);
}

#[test]
fn drain_hands_out_everyone_in_join_order() {
    let mut lobby = Lobby::new();
    lobby.join(Player::new("Alice", "a"));
    lobby.join(Player::new("Bob", "b"));
    lobby.join(Player::new("Carol", "c"));
    assert_eq!(lobby.len(), 3);
    assert!(!lobby.is_empty());
    let waiting = lobby.drain();
    let names: Vec<&str> = waiting.iter().map(|p| p.name.as_str()).collect();
    assert_eq!(names, vec!["Alice", "Bob", "Carol"]);
    assert!(lobby.is_empty());
    assert!(lobby.drain().is_empty());
}

#[test]
fn leave_takes_out_one_player() {
    let mut lobby = Lobby::new();
    lobby.join(Player::new("Alice", "a"));
    lobby.join(Player::new("Bob", "b"));
    lobby.join(Player::new("Carol", "c"));
    assert!(lobby.leave("b"));
    assert!(!lobby.leave("b"));
    assert!(!lobby.leave("zed"));
    let left: Vec<String> = lobby.drain().into_iter().map(|p| p.id).collect();
    assert_eq!(left, vec!["a", "c"]);
}

#[test]
fn leave_takes_out_the_first_of_two_with_one_id() {
    let mut lobby = Lobby::new();
    lobby.join(Player::new("First", "x"));
    lobby.join(Player::new("Second", "x"));
    assert!(lobby.leave("x"));
    let left: Vec<String> = lobby.drain().into_iter().map(|p| p.name).collect();
    assert_eq!(left, vec!["Second"]);
}

#[test]
fn find_player_gives_first_seat_or_length() {
    let players = vec![Player::new("A", "a"), Player::new("B", "b"), Player::new("B2", "b")];
    assert_eq!(find_player(&players, "a"), 0);
    assert_eq!(find_player(&players, "b"), 1);
    assert_eq!(find_player(&players, "c"), 3);
    assert_eq!(find_player(&Vec::new(), "a"), 0);
}
