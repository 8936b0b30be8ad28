//! The bet intake: the bets that players have handed in and that the
//! coordinator has not yet consumed.

use crate::text::same_text;
use vstd::hash_map::StringHashMap;
use vstd::prelude::*;

verus! {

/// The characters of an optional string.
pub open spec fn text_of(s: Option<String>) -> Option<Seq<char>> {
    match s {
        Some(t) => Some(t@),
        None => None,
    }
}

/// The table after one submission: the bet is recorded if the submitter
/// holds the turn, and dropped otherwise.
pub open spec fn after_submit(
    table: Map<Seq<char>, u32>,
    turn_holder: Option<Seq<char>>,
    player_id: Seq<char>,
    amount: u32,
) -> Map<Seq<char>, u32> {
    if turn_holder == Some(player_id) {
        table.insert(player_id, amount)
    } else {
        table
    }
}

/// One attempt to hand in a bet: who held the turn at that moment, who made
/// the attempt, and the amount.
pub struct Attempt {
    pub turn_holder: Option<Seq<char>>,
    pub player_id: Seq<char>,
    pub amount: u32,
}

/// The table after a run of attempts, made in order.
pub open spec fn after_attempts(table: Map<Seq<char>, u32>, attempts: Seq<Attempt>) -> Map<
    Seq<char>,
    u32,
>
    decreases attempts.len(),
{
    if attempts.len() == 0 {
        table
    } else {
        let last = attempts.last();
        after_submit(
            after_attempts(table, attempts.drop_last()),
            last.turn_holder,
            last.player_id,
            last.amount,
        )
    }
}

/// Whether one of `attempts` was made by `id` while `id` held the turn, for
/// this amount.
pub open spec fn submitted_in_turn(attempts: Seq<Attempt>, id: Seq<char>, amount: u32) -> bool {
    exists|k: int|
        0 <= k < attempts.len() && (#[trigger] attempts[k]).player_id == id
            && attempts[k].turn_holder == Some(id) && attempts[k].amount == amount
}

/// Bets by player id, for the turn in progress.
pub struct BetIntake {
    entries: StringHashMap<u32>,
}

impl View for BetIntake {
    type V = Map<Seq<char>, u32>;

    closed spec fn view(&self) -> Map<Seq<char>, u32> {
        self.entries@
    }
}

impl BetIntake {
    /// An intake without bets.
    pub fn new() -> (intake: BetIntake)
        ensures
            intake@ == Map::<Seq<char>, u32>::empty(),
    {
        BetIntake { entries: StringHashMap::new() }
    }

    /// Hands in a bet. It is recorded only if `player_id` holds the turn;
    /// from anyone else it is dropped and the intake stays as it was.
    pub fn submit(&mut self, turn_holder: &Option<String>, player_id: &str, amount: u32) -> (accepted:
        bool)
        ensures
            accepted == (text_of(*turn_holder) == Some(player_id@)),
            final(self)@ == after_submit(old(self)@, text_of(*turn_holder), player_id@, amount),
    {
        match turn_holder {
            Some(holder) => {
                if same_text(holder.as_str(), player_id) {
                    self.entries.insert(player_id.to_owned(), amount);
                    true
                } else {
                    false
                }
            },
            None => false,
        }
    }

    /// The bet that `player_id` has handed in, if any.
    pub fn pending(&self, player_id: &str) -> (bet: Option<u32>)
        ensures
            bet == (if self@.contains_key(player_id@) {
                Some(self@[player_id@])
            } else {
                None
            }),
    {
        match self.entries.get(player_id) {
            Some(amount) => Some(*amount),
            None => None,
        }
    }

    /// Takes the bet of `player_id` out of the intake, if there is one.
    pub fn take(&mut self, player_id: &str) -> (bet: Option<u32>)
        ensures
            bet == (if old(self)@.contains_key(player_id@) {
                Some(old(self)@[player_id@])
            } else {
                None
            }),
            final(self)@ == old(self)@.remove(player_id@),
    {
        let bet = self.pending(player_id);
        self.entries.remove(player_id);
        bet
    }

    /// Drops every bet.
    pub fn clear(&mut self)
        ensures
            final(self)@ == Map::<Seq<char>, u32>::empty(),
    {
        self.entries.clear();
    }

    /// Whether no bet is waiting.
    pub fn is_empty(&self) -> (empty: bool)
        ensures
            empty == (self@ == Map::<Seq<char>, u32>::empty()),
    {
        let empty = self.entries.is_empty();
        proof {
            if self@.is_empty() {
                assert(self@ =~= Map::<Seq<char>, u32>::empty());
            }
        }
        empty
    }
}

/// Only the turn holder's bets are ever recorded: after any run of
/// attempts, by whomever and whoever held the turn at each, an entry of the
/// table is either as it was before the run, or was submitted during the run
/// by its owner while the owner held the turn.
pub proof fn lemma_only_turn_holder_recorded(table: Map<Seq<char>, u32>, attempts: Seq<Attempt>)
    ensures
        forall|id: Seq<char>| #[trigger]
            after_attempts(table, attempts).contains_key(id) ==> (table.contains_key(id)
                && after_attempts(table, attempts)[id] == table[id]) || submitted_in_turn(
                attempts,
                id,
                after_attempts(table, attempts)[id],
            ),
    decreases attempts.len(),
{
    let after = after_attempts(table, attempts);
    if attempts.len() > 0 {
        let earlier = attempts.drop_last();
        let before = after_attempts(table, earlier);
        let last = attempts.last();
        lemma_only_turn_holder_recorded(table, earlier);
        assert(after == after_submit(before, last.turn_holder, last.player_id, last.amount));
        assert forall|id: Seq<char>| #[trigger] after.contains_key(id) implies (table.contains_key(
            id,
        ) && after[id] == table[id]) || submitted_in_turn(attempts, id, after[id]) by {
            if last.turn_holder == Some(last.player_id) && id == last.player_id {
                assert(attempts[attempts.len() - 1] == last);
            } else {
                assert(before.contains_key(id) && before[id] == after[id]);
                if submitted_in_turn(earlier, id, before[id]) {
                    let k = choose|k: int|
                        0 <= k < earlier.len() && (#[trigger] earlier[k]).player_id == id
                            && earlier[k].turn_holder == Some(id) && earlier[k].amount
                            == before[id];
                    assert(attempts[k] == earlier[k]);
                }
            }
        }
    }
}

} // verus!
