use blackjack_table::bets::BetIntake;
use blackjack_table::card::Card;
use blackjack_table::connection::{connect, depart, handle_line, LineOutcome};
use blackjack_table::deck::Deck;
use blackjack_table::hub::MessageHub;
use blackjack_table::lobby::Lobby;
use blackjack_table::notice::Notice;
use blackjack_table::player::{Dealer, Game, Player};
use blackjack_table::session::{draw_with_refill, reset_game, Phase, Session, LOW_WATER, QUORUM};
use std::collections::HashSet;
use tokio::sync::mpsc::Receiver;

fn drain(rx: &mut Receiver<String>) -> Vec<String> {
    let mut got = Vec::new();
    while let Ok(text) = rx.try_recv() {
        got.push(text);
    }
    got
}

fn unicast_of(notice: &Notice) -> (String, String) {
    match notice {
        Notice::Unicast { to, text } => (to.clone(), text.clone()),
        Notice::Broadcast { .. } => panic!("expected a unicast"),
    }
}

fn broadcast_of(notice: &Notice) -> (Option<String>, String) {
    match notice {
        Notice::Broadcast { excluding, text } => (excluding.clone(), text.clone()),
        Notice::Unicast { .. } => panic!("expected a broadcast"),
    }
}

fn small_deck(n: usize) -> Deck {
    let mut deck = Deck::ordered();
    deck.0.truncate(n);
    deck
}

fn seated_session(names: &[(&str, &str)]) -> Session {
    let mut session = Session::new();
    let players: Vec<Player> = names.iter().map(|(n, i)| Player::new(n, i)).collect();
    session.seat_players(&players);
    session
}

#[test]
fn new_session_waits_with_a_full_deck() {
    let session = Session::new();
    assert_eq!(session.phase, Phase::Waiting);
    assert_eq!(session.current_turn_holder, None);
    assert!(session.game.player_pool.is_empty());
    assert!(session.game.dealer.cards.is_empty());
    assert!(!session.game.in_progress);
    assert_eq!(session.game.deck.len(), 52);
}

#[test]
fn waiting_session_idles_until_someone_waits() {
    let mut session = Session::new();
    let mut lobby = Lobby::new();
    let mut bets = BetIntake::new();
    for _ in 0..3 {
        let out = session.step(&mut lobby, &mut bets);
        assert!(out.idle);
        assert!(out.notices.is_empty());
        assert_eq!(session.phase, Phase::Waiting);
    }
    assert_eq!(QUORUM, 1);
    lobby.join(Player::new("Alice", "a"));
    let out = session.step(&mut lobby, &mut bets);
    assert!(!out.idle);
    assert!(out.notices.is_empty());
    assert_eq!(session.phase, Phase::Promoting);
    assert_eq!(lobby.len(), 1);
}

#[test]
fn promotion_seats_everyone_and_announces_them() {
    let mut session = Session::new();
    let mut lobby = Lobby::new();
    let mut bets = BetIntake::new();
    lobby.join(Player::new("Alice", "a"));
    lobby.join(Player::new("Bob", "b"));
    session.step(&mut lobby, &mut bets);
    let out = session.step(&mut lobby, &mut bets);
    assert!(lobby.is_empty());
    assert!(!out.idle);
    assert_eq!(session.phase, Phase::DealerDraw);
    let names: Vec<&str> = session.game.player_pool.iter().map(|p| p.name.as_str()).collect();
    assert_eq!(names, vec!["Alice", "Bob"]);
    assert!(session.game.player_pool.iter().all(|p| p.money == 100 && p.cards.is_empty()));
    assert_eq!(out.notices.len(), 4);
    assert_eq!(
        unicast_of(&out.notices[0]),
        ("a".to_string(), "You have joined the game, Alice!\n".to_string())
    );
    assert_eq!(
        broadcast_of(&out.notices[1]),
        (Some("a".to_string()), "Alice joined the game\n".to_string())
    );
    assert_eq!(
        unicast_of(&out.notices[2]),
        ("b".to_string(), "You have joined the game, Bob!\n".to_string())
    );
    assert_eq!(
        broadcast_of(&out.notices[3]),
        (Some("b".to_string()), "Bob joined the game\n".to_string())
    );
}

#[test]
fn promotion_of_nobody_with_nobody_seated_goes_back_to_waiting() {
    let mut session = Session::new();
    let out = session.seat_players(&Vec::new());
    assert!(out.notices.is_empty());
    assert!(!out.idle);
    assert_eq!(session.phase, Phase::Waiting);
}

#[test]
fn promotion_keeps_those_already_seated() {
    let mut session = seated_session(&[("Alice", "a")]);
    session.game.player_pool[0].money = 40;
    session.seat_players(&vec![Player::new("Bob", "b")]);
    assert_eq!(session.game.player_pool.len(), 2);
    assert_eq!(session.game.player_pool[0].name, "Alice");
    assert_eq!(session.game.player_pool[0].money, 40);
    assert_eq!(session.game.player_pool[1].name, "Bob");
    assert_eq!(session.game.player_pool[1].money, 100);
}

#[test]
fn dealer_draw_takes_the_top_card_and_shows_the_hand() {
    let mut session = seated_session(&[("Alice", "a")]);
    session.game.deck = Deck::ordered();
    let out = session.dealer_draw();
    assert_eq!(session.game.deck.len(), 51);
    assert_eq!(session.game.dealer.cards.len(), 1);
    assert_eq!(session.game.dealer.cards[0].value, 14);
    assert_eq!(session.game.dealer.cards[0].suit, "♣");
    assert_eq!(session.phase, Phase::Turn { seat: 0 });
    assert_eq!(session.current_turn_holder, None);
    assert!(session.game.in_progress);
    assert!(!out.idle);
    assert_eq!(out.notices.len(), 1);
    assert_eq!(broadcast_of(&out.notices[0]), (None, "Dealer's Cards: 14 of ♣, \n".to_string()));
}

#[test]
fn low_deck_is_replaced_before_the_dealer_draws() {
    let mut session = seated_session(&[("Alice", "a")]);
    session.game.deck = small_deck(8);
    session.phase = Phase::DealerDraw;
    let mut lobby = Lobby::new();
    let mut bets = BetIntake::new();
    session.step(&mut lobby, &mut bets);
    assert_eq!(session.game.deck.len(), 51);
    assert_eq!(session.game.dealer.cards.len(), 1);
    let mut seen: HashSet<(String, i32)> =
        session.game.deck.0.iter().map(|c| (c.suit.clone(), c.value)).collect();
    let drawn = &session.game.dealer.cards[0];
    seen.insert((drawn.suit.clone(), drawn.value));
    assert_eq!(seen.len(), 52);
}

#[test]
fn draw_with_refill_replaces_only_a_low_deck() {
    assert_eq!(LOW_WATER, 10);
    let mut at_mark = small_deck(10);
    let card = draw_with_refill(&mut at_mark);
    assert_eq!((card.suit.as_str(), card.value), ("♥", 4));
    assert_eq!(at_mark.len(), 9);
    let card = draw_with_refill(&mut at_mark);
    assert_eq!(at_mark.len(), 51);
    assert!(!at_mark.0.iter().any(|c| c.suit == card.suit && c.value == card.value));
    let mut empty = Deck(Vec::new());
    draw_with_refill(&mut empty);
    assert_eq!(empty.len(), 51);
}

#[test]
fn drawing_through_a_deck_refills_once_per_pass() {
    let mut deck = Deck::ordered();
    let mut refills = 0;
    for _ in 0..200 {
        let before = deck.len();
        draw_with_refill(&mut deck);
        if before < 10 {
            refills += 1;
            assert_eq!(before, 9);
            assert_eq!(deck.len(), 51);
        } else {
            assert_eq!(deck.len(), before - 1);
        }
        assert!(deck.len() >= 9);
    }
    // 43 draws take a full deck down to 9; from then on a pass is 43 draws.
    assert_eq!(refills, 4);
}

#[test]
fn turn_is_opened_with_a_prompt_and_a_word_to_the_others() {
    let mut session = seated_session(&[("Alice", "a"), ("Bob", "b")]);
    let mut bets = BetIntake::new();
    let out = session.take_turn(&mut bets, 0);
    assert_eq!(session.current_turn_holder, Some("a".to_string()));
    assert!(!out.idle);
    assert_eq!(out.notices.len(), 2);
    assert_eq!(
        broadcast_of(&out.notices[0]),
        (Some("a".to_string()), "Alice is betting\n".to_string())
    );
    assert_eq!(
        unicast_of(&out.notices[1]),
        ("a".to_string(), "Ok, Alice, it's your turn. Place a bet\n".to_string())
    );
}

#[test]
fn open_turn_idles_until_the_bet_arrives() {
    let mut session = seated_session(&[("Alice", "a")]);
    session.phase = Phase::Turn { seat: 0 };
    let mut lobby = Lobby::new();
    let mut bets = BetIntake::new();
    session.step(&mut lobby, &mut bets);
    for _ in 0..3 {
        let out = session.step(&mut lobby, &mut bets);
        assert!(out.idle);
        assert!(out.notices.is_empty());
        assert_eq!(session.phase, Phase::Turn { seat: 0 });
        assert_eq!(session.current_turn_holder, Some("a".to_string()));
    }
}

#[test]
fn bet_is_paid_and_a_card_is_drawn() {
    let mut session = seated_session(&[("Alice", "a"), ("Bob", "b")]);
    session.game.deck = Deck::ordered();
    let mut bets = BetIntake::new();
    session.take_turn(&mut bets, 0);
    assert!(bets.submit(&session.current_turn_holder, "a", 20));
    let out = session.take_turn(&mut bets, 0);
    assert!(!out.idle);
    let alice = &session.game.player_pool[0];
    assert_eq!(alice.money, 80);
    assert_eq!(alice.current_bet, 20);
    assert_eq!(alice.cards.len(), 1);
    assert_eq!((alice.cards[0].suit.as_str(), alice.cards[0].value), ("♣", 14));
    assert_eq!(session.game.deck.len(), 51);
    assert_eq!(session.game.player_pool[1].money, 100);
    assert!(session.game.player_pool[1].cards.is_empty());
    assert!(bets.is_empty());
    assert_eq!(session.current_turn_holder, None);
    assert_eq!(session.phase, Phase::Turn { seat: 1 });
    assert_eq!(out.notices.len(), 2);
    assert_eq!(
        unicast_of(&out.notices[0]),
        ("a".to_string(), "You have bet $20. You have $80 left\n".to_string())
    );
    assert_eq!(
        broadcast_of(&out.notices[1]),
        (Some("a".to_string()), "Alice has bet $20\n".to_string())
    );
}

#[test]
fn bet_of_everything_leaves_zero() {
    let mut session = seated_session(&[("Alice", "a")]);
    let mut bets = BetIntake::new();
    session.take_turn(&mut bets, 0);
    bets.submit(&session.current_turn_holder, "a", 100);
    session.take_turn(&mut bets, 0);
    assert_eq!(session.game.player_pool[0].money, 0);
    assert_eq!(session.phase, Phase::Turn { seat: 1 });
}

#[test]
fn bet_of_zero_is_accepted() {
    let mut session = seated_session(&[("Alice", "a")]);
    session.game.player_pool[0].money = 0;
    let mut bets = BetIntake::new();
    session.take_turn(&mut bets, 0);
    bets.submit(&session.current_turn_holder, "a", 0);
    let out = session.take_turn(&mut bets, 0);
    assert_eq!(session.game.player_pool[0].money, 0);
    assert_eq!(session.game.player_pool[0].cards.len(), 1);
    assert_eq!(session.phase, Phase::Turn { seat: 1 });
    assert_eq!(
        unicast_of(&out.notices[0]),
        ("a".to_string(), "You have bet $0. You have $0 left\n".to_string())
    );
}

#[test]
fn bet_beyond_the_balance_is_refused() {
    let mut session = seated_session(&[("Alice", "a")]);
    let deck_before = session.game.deck.len();
    let mut bets = BetIntake::new();
    session.take_turn(&mut bets, 0);
    bets.submit(&session.current_turn_holder, "a", 101);
    let out = session.take_turn(&mut bets, 0);
    assert!(!out.idle);
    assert_eq!(session.game.player_pool[0].money, 100);
    assert_eq!(session.game.player_pool[0].current_bet, 0);
    assert!(session.game.player_pool[0].cards.is_empty());
    assert_eq!(session.game.deck.len(), deck_before);
    assert!(bets.is_empty());
    assert_eq!(session.current_turn_holder, Some("a".to_string()));
    assert_eq!(out.notices.len(), 1);
    assert_eq!(
        unicast_of(&out.notices[0]),
        ("a".to_string(), "You only have $100. Place a bet\n".to_string())
    );
    bets.submit(&session.current_turn_holder, "a", 100);
    session.take_turn(&mut bets, 0);
    assert_eq!(session.game.player_pool[0].money, 0);
}

#[test]
fn money_never_goes_below_zero() {
    let mut session = seated_session(&[("Alice", "a")]);
    let mut bets = BetIntake::new();
    let amounts = [60u32, 50, 40, 1, 0, u32::MAX, 39];
    let mut expected = 100u32;
    for amount in amounts {
        session.phase = Phase::Turn { seat: 0 };
        session.take_turn(&mut bets, 0);
        bets.submit(&session.current_turn_holder, "a", amount);
        session.take_turn(&mut bets, 0);
        if amount <= expected {
            expected -= amount;
        }
        assert_eq!(session.game.player_pool[0].money, expected);
        session.current_turn_holder = None;
    }
    assert_eq!(expected, 0);
}

#[test]
fn round_ends_past_the_last_seat() {
    let mut session = seated_session(&[("Alice", "a")]);
    session.phase = Phase::Turn { seat: 1 };
    session.current_turn_holder = Some("stale".to_string());
    let mut lobby = Lobby::new();
    let mut bets = BetIntake::new();
    let out = session.step(&mut lobby, &mut bets);
    assert!(!out.idle);
    assert!(out.notices.is_empty());
    assert_eq!(session.phase, Phase::RoundReset);
    assert_eq!(session.current_turn_holder, None);
}

#[test]
fn round_reset_clears_bets_and_hands() {
    let mut session = seated_session(&[("Alice", "a"), ("Bob", "b")]);
    session.game.deck = Deck::ordered();
    session.dealer_draw();
    session.dealer_draw();
    let mut bets = BetIntake::new();
    session.take_turn(&mut bets, 0);
    bets.submit(&session.current_turn_holder, "a", 30);
    session.take_turn(&mut bets, 0);
    bets.submit(&Some("b".to_string()), "b", 5);
    bets.submit(&Some("zed".to_string()), "zed", 7);
    session.phase = Phase::RoundReset;
    let mut lobby = Lobby::new();
    let out = session.step(&mut lobby, &mut bets);
    assert!(!out.idle);
    assert!(out.notices.is_empty());
    assert!(bets.is_empty());
    assert!(session.game.dealer.cards.is_empty());
    for player in &session.game.player_pool {
        assert!(player.cards.is_empty());
        assert_eq!(player.current_bet, 0);
    }
    assert_eq!(session.game.player_pool[0].money, 70);
    assert_eq!(session.game.player_pool[1].money, 100);
    assert_eq!(session.game.player_pool.len(), 2);
    assert_eq!(session.game.deck.len(), 49);
    assert!(!session.game.in_progress);
    assert_eq!(session.phase, Phase::Promoting);
    assert_eq!(session.current_turn_holder, None);
}

#[test]
fn round_reset_with_nobody_seated_goes_back_to_waiting() {
    let mut session = Session::new();
    session.phase = Phase::RoundReset;
    let mut bets = BetIntake::new();
    session.finish_round(&mut bets);
    assert_eq!(session.phase, Phase::Waiting);
}

#[test]
fn reset_game_is_the_same_done_twice() {
    let mut game = Game {
        player_pool: vec![Player::new("Alice", "a")],
        deck: small_deck(3),
        dealer: Dealer { cards: vec![Card { suit: "♠".to_string(), value: 2 }] },
        in_progress: true,
    };
    game.player_pool[0].cards.push(Card { suit: "♥".to_string(), value: 9 });
    game.player_pool[0].current_bet = 12;
    game.player_pool[0].money = 88;
    let mut bets = BetIntake::new();
    bets.submit(&Some("a".to_string()), "a", 12);
    for _ in 0..2 {
        reset_game(&mut bets, &mut game);
        assert!(bets.is_empty());
        assert!(game.dealer.cards.is_empty());
        assert!(game.player_pool[0].cards.is_empty());
        assert_eq!(game.player_pool[0].current_bet, 0);
        assert_eq!(game.player_pool[0].money, 88);
        assert_eq!(game.player_pool[0].name, "Alice");
        assert_eq!(game.deck.len(), 3);
        assert!(game.in_progress);
    }
}

#[test]
fn reset_game_on_an_empty_table_changes_nothing() {
    let mut game = Game {
        player_pool: Vec::new(),
        deck: Deck(Vec::new()),
        dealer: Dealer { cards: Vec::new() },
        in_progress: false,
    };
    let mut bets = BetIntake::new();
    reset_game(&mut bets, &mut game);
    assert!(bets.is_empty());
    assert!(game.player_pool.is_empty());
    assert!(game.dealer.cards.is_empty());
}

#[test]
fn remove_player_moves_the_turn_marker_with_the_seats() {
    let mut session = seated_session(&[("Alice", "a"), ("Bob", "b"), ("Carol", "c")]);
    session.phase = Phase::Turn { seat: 2 };
    session.current_turn_holder = Some("c".to_string());
    assert!(session.remove_player("a"));
    assert_eq!(session.phase, Phase::Turn { seat: 1 });
    assert_eq!(session.current_turn_holder, Some("c".to_string()));
    assert_eq!(session.game.player_pool[1].name, "Carol");
    assert!(!session.remove_player("a"));
    assert!(!session.remove_player("zed"));
    assert_eq!(session.game.player_pool.len(), 2);
}

#[test]
fn remove_player_behind_the_turn_leaves_the_marker() {
    let mut session = seated_session(&[("Alice", "a"), ("Bob", "b"), ("Carol", "c")]);
    session.phase = Phase::Turn { seat: 0 };
    session.current_turn_holder = Some("a".to_string());
    assert!(session.remove_player("c"));
    assert_eq!(session.phase, Phase::Turn { seat: 0 });
    assert_eq!(session.current_turn_holder, Some("a".to_string()));
}

#[test]
fn remove_player_outside_a_turn_keeps_the_phase() {
    let mut session = seated_session(&[("Alice", "a")]);
    assert_eq!(session.phase, Phase::DealerDraw);
    assert!(session.remove_player("a"));
    assert_eq!(session.phase, Phase::DealerDraw);
    assert!(session.game.player_pool.is_empty());
}

#[test]
fn alice_and_bob_play_one_turn() {
    let mut hub = MessageHub::new();
    let mut lobby = Lobby::new();
    let mut session = Session::new();
    let mut bets = BetIntake::new();
    let mut rx_alice = connect(&mut hub, &mut lobby, "Alice", "a").unwrap();
    let mut rx_bob = connect(&mut hub, &mut lobby, "Bob", "b").unwrap();

    // Waiting -> Promoting -> DealerDraw -> Turn 0 -> Alice is prompted.
    for _ in 0..4 {
        let out = session.step(&mut lobby, &mut bets);
        hub.dispatch(&out.notices);
    }
    let names: Vec<&str> = session.game.player_pool.iter().map(|p| p.name.as_str()).collect();
    assert_eq!(names, vec!["Alice", "Bob"]);
    assert_eq!(session.current_turn_holder, Some("a".to_string()));
    let to_alice = drain(&mut rx_alice);
    assert_eq!(to_alice.last().unwrap(), "Ok, Alice, it's your turn. Place a bet\n");
    assert_eq!(to_alice[0], "You have joined the game, Alice!\n");
    let to_bob = drain(&mut rx_bob);
    assert!(!to_bob.iter().any(|m| m.contains("your turn")));
    assert_eq!(to_bob.last().unwrap(), "Alice is betting\n");

    // Bob bets out of turn: dropped, nothing changes.
    let reply = handle_line(&mut bets, &session.current_turn_holder, "b", b"50\n");
    assert_eq!(reply.outcome, LineOutcome::OutOfTurn { amount: 50 });
    assert!(reply.notices.is_empty());
    assert!(bets.is_empty());
    let out = session.step(&mut lobby, &mut bets);
    assert!(out.idle);
    assert_eq!(session.game.player_pool[1].money, 100);
    assert_eq!(session.game.player_pool[0].money, 100);

    // Alice bets 20.
    let reply = handle_line(&mut bets, &session.current_turn_holder, "a", b"20\n");
    assert_eq!(reply.outcome, LineOutcome::Recorded { amount: 20 });
    let out = session.step(&mut lobby, &mut bets);
    hub.dispatch(&out.notices);
    assert_eq!(session.game.player_pool[0].money, 80);
    assert_eq!(session.game.player_pool[1].money, 100);
    assert_eq!(drain(&mut rx_bob), vec!["Alice has bet $20\n".to_string()]);
    assert_eq!(drain(&mut rx_alice), vec!["You have bet $20. You have $80 left\n".to_string()]);

    // The turn advances to Bob.
    let out = session.step(&mut lobby, &mut bets);
    hub.dispatch(&out.notices);
    assert_eq!(session.phase, Phase::Turn { seat: 1 });
    assert_eq!(session.current_turn_holder, Some("b".to_string()));
    assert_eq!(drain(&mut rx_bob), vec!["Ok, Bob, it's your turn. Place a bet\n".to_string()]);
    assert_eq!(drain(&mut rx_alice), vec!["Bob is betting\n".to_string()]);
    assert_eq!(hub.dropped(), 0);
}

#[test]
fn deck_of_eight_is_replaced_on_dealer_draw() {
    let mut session = Session::new();
    session.game.deck = small_deck(8);
    assert_eq!(session.game.deck.len(), 8);
    session.dealer_draw();
    assert_eq!(session.game.deck.len(), 51);
    assert_eq!(session.game.dealer.cards.len(), 1);
}

#[test]
fn turn_holder_disconnects_and_the_next_seat_is_prompted() {
    let mut hub = MessageHub::new();
    let mut lobby = Lobby::new();
    let mut session = Session::new();
    let mut bets = BetIntake::new();
    let _rx_alice = connect(&mut hub, &mut lobby, "Alice", "a").unwrap();
    let rx_bob = connect(&mut hub, &mut lobby, "Bob", "b").unwrap();
    let mut rx_carol = connect(&mut hub, &mut lobby, "Carol", "c").unwrap();
    for _ in 0..4 {
        session.step(&mut lobby, &mut bets);
    }
    handle_line(&mut bets, &session.current_turn_holder, "a", b"10");
    session.step(&mut lobby, &mut bets);
    session.step(&mut lobby, &mut bets);
    assert_eq!(session.current_turn_holder, Some("b".to_string()));
    assert_eq!(session.phase, Phase::Turn { seat: 1 });

    drop(rx_bob);
    depart(&mut hub, &mut lobby, &mut session, &mut bets, "b");
    assert_eq!(session.current_turn_holder, None);
    assert!(!hub.is_registered("b"));
    assert_eq!(session.game.player_pool.len(), 2);

    let out = session.step(&mut lobby, &mut bets);
    hub.dispatch(&out.notices);
    assert!(!out.idle);
    assert_eq!(session.phase, Phase::Turn { seat: 1 });
    assert_eq!(session.current_turn_holder, Some("c".to_string()));
    assert_eq!(
        drain(&mut rx_carol).last().unwrap(),
        "Ok, Carol, it's your turn. Place a bet\n"
    );
    assert_eq!(hub.dropped(), 0);
}

#[test]
fn last_turn_holder_disconnects_and_the_round_ends() {
    let mut session = seated_session(&[("Alice", "a"), ("Bob", "b")]);
    session.phase = Phase::Turn { seat: 1 };
    session.current_turn_holder = Some("b".to_string());
    let mut lobby = Lobby::new();
    let mut bets = BetIntake::new();
    assert!(session.remove_player("b"));
    let out = session.step(&mut lobby, &mut bets);
    assert!(!out.idle);
    assert_eq!(session.phase, Phase::RoundReset);
}

#[test]
fn rounds_follow_one_another_while_someone_is_seated() {
    let mut session = Session::new();
    let mut lobby = Lobby::new();
    let mut bets = BetIntake::new();
    lobby.join(Player::new("Alice", "a"));
    let mut phases = Vec::new();
    for _ in 0..12 {
        phases.push(session.phase);
        let out = session.step(&mut lobby, &mut bets);
        if out.idle {
            let holder = session.current_turn_holder.clone();
            assert!(bets.submit(&holder, "a", 1));
        }
    }
    assert_eq!(
        phases,
        vec![
            Phase::Waiting,
            Phase::Promoting,
            Phase::DealerDraw,
            Phase::Turn { seat: 0 },
            Phase::Turn { seat: 0 },
            Phase::Turn { seat: 0 },
            Phase::Turn { seat: 1 },
            Phase::RoundReset,
            Phase::Promoting,
            Phase::DealerDraw,
            Phase::Turn { seat: 0 },
            Phase::Turn { seat: 0 },
        ]
    );
    assert_eq!(session.game.player_pool[0].money, 99);
}

#[test]
fn intake_holds_nothing_but_the_turn_holders_bet() {
    let mut hub = MessageHub::new();
    let mut lobby = Lobby::new();
    let mut session = Session::new();
    let mut bets = BetIntake::new();
    let ids = ["a", "b", "c"];
    let _rx: Vec<Receiver<String>> = ids
        .iter()
        .map(|id| connect(&mut hub, &mut lobby, &id.to_uppercase(), id).unwrap())
        .collect();
    for round in 0..40u32 {
        for id in ids {
            handle_line(&mut bets, &session.current_turn_holder, id, b"3");
        }
        if round == 17 {
            depart(&mut hub, &mut lobby, &mut session, &mut bets, "b");
        }
        session.step(&mut lobby, &mut bets);
        for id in ids {
            if bets.pending(id).is_some() {
                assert_eq!(session.current_turn_holder, Some(id.to_string()));
            }
        }
        match session.phase {
            Phase::Turn { seat } => {
                if let Some(holder) = &session.current_turn_holder {
                    assert_eq!(&session.game.player_pool[seat].id, holder);
                }
            }
            _ => assert_eq!(session.current_turn_holder, None),
        }
    }
    assert_eq!(session.game.player_pool.len(), 2);
    assert!(session.game.player_pool.iter().all(|p| p.money < 100));
}
