//! What one connection does to the shared state: joining, sending a line,
//! and leaving. Reading and writing the transport is the caller's part.

use crate::bets::{after_submit, text_of, BetIntake};
use crate::hub::{without_id, HubError, HubView, MessageHub};
use crate::lobby::{without_player, Lobby};
use crate::notice::{malformed_message, malformed_text, notices_view, unicast, Notice, NoticeView};
use crate::player::{newcomer, Player};
use crate::session::{after_departure, Session};
use crate::wager::{bet_of, parse_bet};
use tokio::sync::mpsc::Receiver;
use vstd::prelude::*;

verus! {

/// The longest name that a player is known by, in characters.
pub const MAX_NAME_LEN: usize = 32;

/// Whether a character ends the name that a client typed.
pub open spec fn ends_name(c: char) -> bool {
    c == '\n' || c == '\r' || c == '\0'
}

/// The number of characters of `raw` that make up the name: those before
/// the first line break or NUL, and no more than `MAX_NAME_LEN`.
pub open spec fn name_len(raw: Seq<char>) -> int
    decreases raw.len(),
{
    if raw.len() == 0 || ends_name(raw[0]) {
        0
    } else {
        let rest = name_len(raw.drop_first());
        if rest < MAX_NAME_LEN {
            1 + rest
        } else {
            MAX_NAME_LEN as int
        }
    }
}

/// Counting `k` characters of a name, where the count stopped at the bound,
/// at the end or at a character that ends the name, is `name_len`.
proof fn lemma_name_len(raw: Seq<char>, k: int)
    requires
        0 <= k <= raw.len(),
        k <= MAX_NAME_LEN,
        forall|j: int| 0 <= j < k ==> !ends_name(#[trigger] raw[j]),
        k == MAX_NAME_LEN || k == raw.len() || ends_name(raw[k]),
    ensures
        name_len(raw) == k,
    decreases raw.len(),
{
    if raw.len() > 0 && !ends_name(raw[0]) {
        let rest = raw.drop_first();
        if k == 0 {
            lemma_name_len_bounds(rest);
        } else {
            assert forall|j: int| 0 <= j < k - 1 implies !ends_name(#[trigger] rest[j]) by {
                assert(rest[j] == raw[j + 1]);
            }
            if k == MAX_NAME_LEN {
                lemma_name_len_at_least(rest, k - 1);
                lemma_name_len_bounds(rest);
            } else {
                lemma_name_len(rest, k - 1);
            }
        }
    }
}

/// A name is never longer than the bound, nor than what was typed.
proof fn lemma_name_len_bounds(raw: Seq<char>)
    ensures
        0 <= name_len(raw) <= MAX_NAME_LEN,
        name_len(raw) <= raw.len(),
    decreases raw.len(),
{
    if raw.len() > 0 && !ends_name(raw[0]) {
        lemma_name_len_bounds(raw.drop_first());
    }
}

/// After `k` characters that do not end the name, the name has at least `k`
/// characters, up to the bound.
proof fn lemma_name_len_at_least(raw: Seq<char>, k: int)
    requires
        0 <= k <= raw.len(),
        k <= MAX_NAME_LEN,
        forall|j: int| 0 <= j < k ==> !ends_name(#[trigger] raw[j]),
    ensures
        name_len(raw) >= k,
    decreases raw.len(),
{
    if k > 0 {
        let rest = raw.drop_first();
        assert forall|j: int| 0 <= j < k - 1 implies !ends_name(#[trigger] rest[j]) by {
            assert(rest[j] == raw[j + 1]);
        }
        lemma_name_len_at_least(rest, k - 1);
        assert(name_len(raw) == if name_len(rest) < MAX_NAME_LEN {
            1 + name_len(rest)
        } else {
            MAX_NAME_LEN as int
        });
    } else {
        lemma_name_len_bounds(raw);
    }
}

/// The name that a client typed: what stands before the first line break or
/// NUL, cut to `MAX_NAME_LEN` characters.
pub fn display_name(raw: &str) -> (name: String)
    ensures
        name@ == raw@.subrange(0, name_len(raw@)),
{
    let n = raw.unicode_len();
    let mut k: usize = 0;
    let mut ended = false;
    while !ended && k < n && k < MAX_NAME_LEN
        invariant
            n == raw@.len(),
            k <= n,
            k <= MAX_NAME_LEN,
            forall|j: int| 0 <= j < k ==> !ends_name(#[trigger] raw@[j]),
            ended ==> k < n && ends_name(raw@[k as int]),
        decreases n - k + (if ended { 0int } else { 1int }),
    {
        let c = raw.get_char(k);
        if c == '\n' || c == '\r' || c == '\0' {
            ended = true;
        } else {
            k += 1;
        }
    }
    proof {
        lemma_name_len(raw@, k as int);
    }
    raw.substring_char(0, k).to_owned()
}

/// What became of a line that a client sent after its name.
#[derive(Clone, Copy, Debug, PartialEq, Eq)]
pub enum LineOutcome {
    /// It was a bet from the turn holder, and is recorded.
    Recorded { amount: u32 },
    /// It was a bet from someone who does not hold the turn, and is dropped.
    OutOfTurn { amount: u32 },
    /// It was not a bet.
    Malformed,
}

/// How a line is judged: by the bet it holds, if any, and by who holds the
/// turn.
pub open spec fn line_outcome(
    bet: Option<u32>,
    turn_holder: Option<Seq<char>>,
    id: Seq<char>,
) -> LineOutcome {
    match bet {
        Some(amount) => if turn_holder == Some(id) {
            LineOutcome::Recorded { amount }
        } else {
            LineOutcome::OutOfTurn { amount }
        },
        None => LineOutcome::Malformed,
    }
}

/// What the sender of a line is told: nothing, unless the line was not a
/// bet.
pub open spec fn line_notices(bet: Option<u32>, id: Seq<char>) -> Seq<NoticeView> {
    match bet {
        Some(_) => Seq::empty(),
        None => seq![NoticeView::Unicast { to: id, text: malformed_text() }],
    }
}

/// The bet intake after a line from `id`.
pub open spec fn after_line(
    table: Map<Seq<char>, u32>,
    bet: Option<u32>,
    turn_holder: Option<Seq<char>>,
    id: Seq<char>,
) -> Map<Seq<char>, u32> {
    match bet {
        Some(amount) => after_submit(table, turn_holder, id, amount),
        None => table,
    }
}

/// The verdict on a line, and what its sender is to be told.
#[derive(Debug)]
pub struct LineReply {
    pub outcome: LineOutcome,
    pub notices: Vec<Notice>,
}

/// Takes in a new connection: opens its mailbox and puts the player into the
/// lobby. A connection whose id already has a mailbox is turned away, and
/// nothing changes.
pub fn connect(hub: &mut MessageHub, lobby: &mut Lobby, name: &str, id: &str) -> (handle: Result<
    Receiver<String>,
    HubError,
>)
    ensures
        handle is Err == old(hub)@.ids.contains(id@),
        handle is Err ==> handle == Err::<Receiver<String>, HubError>(HubError::AlreadyRegistered)
            && final(hub)@ == old(hub)@ && final(lobby)@ == old(lobby)@,
        handle is Ok ==> final(hub)@ == (HubView { ids: old(hub)@.ids.push(id@), ..old(hub)@ })
            && final(lobby)@ == old(lobby)@.push(newcomer(name@, id@)),
{
    let handle = hub.register(id);
    if handle.is_ok() {
        lobby.join(Player::new(name, id));
    }
    handle
}

/// Takes a line that the player `id` sent after their name. A bet is handed
/// to the intake, which records it only from the turn holder; a line that is
/// no bet gets its sender a new prompt and touches nothing else.
pub fn handle_line(
    bets: &mut BetIntake,
    turn_holder: &Option<String>,
    id: &str,
    line: &[u8],
) -> (reply: LineReply)
    ensures
        reply.outcome == line_outcome(bet_of(line@), text_of(*turn_holder), id@),
        notices_view(reply.notices@) == line_notices(bet_of(line@), id@),
        final(bets)@ == after_line(old(bets)@, bet_of(line@), text_of(*turn_holder), id@),
{
    let mut notices: Vec<Notice> = Vec::new();
    match parse_bet(line) {
        Some(amount) => {
            let accepted = bets.submit(turn_holder, id, amount);
            if accepted {
                LineReply { outcome: LineOutcome::Recorded { amount }, notices }
            } else {
                LineReply { outcome: LineOutcome::OutOfTurn { amount }, notices }
            }
        },
        None => {
            notices.push(unicast(id, malformed_message()));
            LineReply { outcome: LineOutcome::Malformed, notices }
        },
    }
}

/// Cleans up after a connection that ended: its mailbox is dropped, and the
/// player leaves the lobby, their seat and the bet intake.
pub fn depart(
    hub: &mut MessageHub,
    lobby: &mut Lobby,
    session: &mut Session,
    bets: &mut BetIntake,
    id: &str,
)
    ensures
        final(hub)@ == (HubView { ids: without_id(old(hub)@.ids, id@), ..old(hub)@ }),
        final(lobby)@ == without_player(old(lobby)@, id@),
        final(session)@ == after_departure(old(session)@, id@),
        final(bets)@ == old(bets)@.remove(id@),
{
    hub.deregister(id);
    lobby.leave(id);
    session.remove_player(id);
    bets.take(id);
}

} // verus!
