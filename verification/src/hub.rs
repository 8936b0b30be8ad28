//! The message hub: one bounded mailbox per connected player, and delivery
//! to one mailbox or to all but one. Delivery never waits: a message for a
//! full or abandoned mailbox is dropped and counted.

use crate::notice::{notices_view, Notice, NoticeView};
use crate::player::{first_index, lemma_first_index};
use crate::text::same_text;
use tokio::sync::mpsc::error::TrySendError;
use tokio::sync::mpsc::{Receiver, Sender};
use vstd::prelude::*;

verus! {

/// The sending half of a `tokio` channel. Verus carries it through and sees
/// nothing inside it.
#[verifier::external_type_specification]
#[verifier::external_body]
#[verifier::reject_recursive_types(T)]
pub struct ExSender<T>(Sender<T>);

/// The receiving half of a `tokio` channel. Verus carries it through and
/// sees nothing inside it.
#[verifier::external_type_specification]
#[verifier::external_body]
#[verifier::reject_recursive_types(T)]
pub struct ExReceiver<T>(Receiver<T>);

/// The number of messages that a mailbox holds before it drops new ones.
pub const MAILBOX_CAPACITY: usize = 32;

/// The largest capacity that a channel can be opened with on any machine.
pub const MAX_CAPACITY: usize = 0x1fff_ffff;

/// What became of a message handed to a channel.
#[derive(Clone, Copy, Debug, PartialEq, Eq)]
pub enum Handover {
    /// The channel took it.
    Taken,
    /// The channel was full.
    Full,
    /// The receiving half was gone.
    Closed,
}

/// `tokio::sync::mpsc::channel::<String>`: the two halves of a new bounded
/// channel. Nothing is claimed of them. The capacities on which the call
/// panics, zero and those beyond what its semaphore counts, are excluded.
#[verifier::external_body]
fn open_channel(capacity: usize) -> (halves: (Sender<String>, Receiver<String>))
    requires
        1 <= capacity <= MAX_CAPACITY,
{
    tokio::sync::mpsc::channel(capacity)
}

/// `tokio::sync::mpsc::Sender::try_send`: hands `text` to the channel without
/// waiting. Which of the three outcomes comes back depends on what the
/// receiving side has done, so nothing is claimed of it.
#[verifier::external_body]
fn hand_over(sender: &Sender<String>, text: String) -> (outcome: Handover) {
    match sender.try_send(text) {
        Ok(()) => Handover::Taken,
        Err(TrySendError::Full(_)) => Handover::Full,
        Err(TrySendError::Closed(_)) => Handover::Closed,
    }
}

/// Why a mailbox could not be registered.
#[derive(Clone, Copy, Debug, PartialEq, Eq)]
pub enum HubError {
    /// The id already has a mailbox.
    AlreadyRegistered,
}

/// What became of a message for one player.
#[derive(Clone, Copy, Debug, PartialEq, Eq)]
pub enum Delivery {
    /// It lies in the player's mailbox.
    Delivered,
    /// The mailbox was full or abandoned; the message is lost and counted.
    Dropped,
    /// The player has no mailbox; nothing happened.
    NoMailbox,
}

/// One player's mailbox, as the hub holds it: the id and the sending half.
struct Mailbox {
    id: String,
    sender: Sender<String>,
}

/// The registry of mailboxes, in the order of registration, and the count of
/// dropped messages.
pub struct MessageHub {
    boxes: Vec<Mailbox>,
    dropped: u64,
}

/// What a hub is, in plain values.
pub struct HubView {
    pub ids: Seq<Seq<char>>,
    pub dropped: nat,
}

/// The ids of a sequence of mailboxes.
spec fn box_ids(boxes: Seq<Mailbox>) -> Seq<Seq<char>> {
    boxes.map_values(|b: Mailbox| b.id@)
}

impl View for MessageHub {
    type V = HubView;

    closed spec fn view(&self) -> HubView {
        HubView { ids: box_ids(self.boxes@), dropped: self.dropped as nat }
    }
}

/// The ids that a broadcast reaches: all of `ids`, in order, but the
/// excluded one.
pub open spec fn audience(ids: Seq<Seq<char>>, excluding: Option<Seq<char>>) -> Seq<Seq<char>> {
    ids.filter(|id: Seq<char>| excluding != Some(id))
}

/// The drop count after `more` further drops; it stops at the largest value
/// it can hold.
pub open spec fn counted(dropped: nat, more: nat) -> nat {
    if dropped + more > u64::MAX {
        u64::MAX as nat
    } else {
        dropped + more
    }
}

/// The characters of an optional string slice.
pub open spec fn slice_text(s: Option<&str>) -> Option<Seq<char>> {
    match s {
        Some(t) => Some(t@),
        None => None,
    }
}

/// The characters of each of a sequence of strings.
pub open spec fn texts(strings: Seq<String>) -> Seq<Seq<char>> {
    strings.map_values(|s: String| s@)
}

/// `ids` without the first of them that is `id`; `ids` itself if none is.
pub open spec fn without_id(ids: Seq<Seq<char>>, id: Seq<char>) -> Seq<Seq<char>> {
    let at = first_index(ids, id);
    if at < ids.len() {
        ids.remove(at)
    } else {
        ids
    }
}

/// What a handover means for the message: taken is delivered, anything else
/// is dropped.
pub open spec fn delivery_of(outcome: Handover) -> Delivery {
    match outcome {
        Handover::Taken => Delivery::Delivered,
        Handover::Full => Delivery::Dropped,
        Handover::Closed => Delivery::Dropped,
    }
}

/// The number of mailboxes that a notice is addressed to.
pub open spec fn reach(ids: Seq<Seq<char>>, notice: NoticeView) -> nat {
    match notice {
        NoticeView::Unicast { to, text } => if ids.contains(to) {
            1
        } else {
            0
        },
        NoticeView::Broadcast { excluding, text } => audience(ids, excluding).len(),
    }
}

/// The number of mailboxes that a run of notices is addressed to, counting a
/// mailbox once for each notice that names it.
pub open spec fn total_reach(ids: Seq<Seq<char>>, notices: Seq<NoticeView>) -> nat
    decreases notices.len(),
{
    if notices.len() == 0 {
        0
    } else {
        total_reach(ids, notices.drop_last()) + reach(ids, notices.last())
    }
}

/// Whether a broadcast that excludes `excluding` is meant for `id`.
fn is_addressed(id: &str, excluding: Option<&str>) -> (addressed: bool)
    ensures
        addressed == (slice_text(excluding) != Some(id@)),
{
    match excluding {
        Some(out) => !same_text(id, out),
        None => true,
    }
}

impl Delivery {
    /// Reads the outcome of a handover as the fate of the message.
    pub fn from_handover(outcome: Handover) -> (delivery: Delivery)
        ensures
            delivery == delivery_of(outcome),
    {
        match outcome {
            Handover::Taken => Delivery::Delivered,
            Handover::Full => Delivery::Dropped,
            Handover::Closed => Delivery::Dropped,
        }
    }
}

impl MessageHub {
    #[verifier::type_invariant]
    spec fn unique_ids(self) -> bool {
        box_ids(self.boxes@).no_duplicates()
    }

    /// A hub without mailboxes.
    pub fn new() -> (hub: MessageHub)
        ensures
            hub@.ids == Seq::<Seq<char>>::empty(),
            hub@.dropped == 0,
    {
        let hub = MessageHub { boxes: Vec::new(), dropped: 0 };
        hub
    }

    /// The position of the mailbox of `player_id`; the number of mailboxes if
    /// it has none.
    fn position(&self, player_id: &str) -> (at: usize)
        ensures
            at <= self.boxes@.len(),
            at < self.boxes@.len() ==> self.boxes@[at as int].id@ == player_id@,
            at == self.boxes@.len() ==> !self@.ids.contains(player_id@),
            forall|j: int| 0 <= j < at ==> #[trigger] self@.ids[j] != player_id@,
    {
        let mut k: usize = 0;
        while k < self.boxes.len()
            invariant
                k <= self.boxes@.len(),
                forall|j: int| 0 <= j < k ==> #[trigger] self@.ids[j] != player_id@,
            decreases self.boxes@.len() - k,
        {
            if same_text(self.boxes[k].id.as_str(), player_id) {
                return k;
            }
            k += 1;
        }
        k
    }

    /// Whether `player_id` has a mailbox.
    pub fn is_registered(&self, player_id: &str) -> (registered: bool)
        ensures
            registered == self@.ids.contains(player_id@),
    {
        let at = self.position(player_id);
        proof {
            if at < self.boxes@.len() {
                assert(self@.ids[at as int] == player_id@);
            }
        }
        at < self.boxes.len()
    }

    /// The number of mailboxes.
    pub fn len(&self) -> (n: usize)
        ensures
            n == self@.ids.len(),
    {
        self.boxes.len()
    }

    /// The number of messages dropped so far.
    pub fn dropped(&self) -> (n: u64)
        ensures
            n == self@.dropped,
    {
        self.dropped
    }

    /// Opens a mailbox for `player_id` and hands out its receiving end. An id
    /// that has a mailbox gets no second one.
    pub fn register(&mut self, player_id: &str) -> (handle: Result<Receiver<String>, HubError>)
        ensures
            handle is Err == old(self)@.ids.contains(player_id@),
            handle is Err ==> handle == Err::<Receiver<String>, HubError>(
                HubError::AlreadyRegistered,
            ) && final(self)@ == old(self)@,
            handle is Ok ==> final(self)@ == (HubView {
                ids: old(self)@.ids.push(player_id@),
                ..old(self)@
            }),
            final(self)@.ids.no_duplicates(),
    {
        proof {
            use_type_invariant(&*self);
        }
        if self.is_registered(player_id) {
            return Err(HubError::AlreadyRegistered);
        }
        let (sender, receiver) = open_channel(MAILBOX_CAPACITY);
        // The registry is taken out, changed and put back as a whole, so that
        // the hub never holds one that breaks its invariant.
        let mut boxes: Vec<Mailbox> = Vec::new();
        core::mem::swap(&mut self.boxes, &mut boxes);
        boxes.push(Mailbox { id: player_id.to_owned(), sender });
        assert(box_ids(boxes@) =~= old(self)@.ids.push(player_id@));
        self.boxes = boxes;
        Ok(receiver)
    }

    /// Removes the mailbox of `player_id` and drops it. Says whether there
    /// was one.
    pub fn deregister(&mut self, player_id: &str) -> (removed: bool)
        ensures
            removed == old(self)@.ids.contains(player_id@),
            final(self)@ == (HubView {
                ids: without_id(old(self)@.ids, player_id@),
                ..old(self)@
            }),
            final(self)@.ids.no_duplicates(),
    {
        proof {
            use_type_invariant(&*self);
        }
        let at = self.position(player_id);
        proof {
            lemma_first_index(self@.ids, player_id@, at as int);
        }
        if at < self.boxes.len() {
            let mut boxes: Vec<Mailbox> = Vec::new();
            core::mem::swap(&mut self.boxes, &mut boxes);
            boxes.remove(at);
            assert(box_ids(boxes@) =~= old(self)@.ids.remove(at as int));
            self.boxes = boxes;
            assert(old(self)@.ids[at as int] == player_id@);
            true
        } else {
            false
        }
    }

    /// Adds `more` to the count of dropped messages.
    fn count_drops(&mut self, more: usize)
        ensures
            final(self)@ == (HubView {
                dropped: counted(old(self)@.dropped, more as nat),
                ..old(self)@
            }),
    {
        proof {
            use_type_invariant(&*self);
        }
        self.dropped = self.dropped.saturating_add(more as u64);
    }

    /// The ids that a broadcast would reach, in the order of registration.
    pub fn recipients(&self, excluding: Option<&str>) -> (ids: Vec<String>)
        ensures
            texts(ids@) == audience(self@.ids, slice_text(excluding)),
    {
        let ghost all = self@.ids;
        let ghost keep = |id: Seq<char>| slice_text(excluding) != Some(id);
        let mut ids: Vec<String> = Vec::new();
        let mut k: usize = 0;
        while k < self.boxes.len()
            invariant
                k <= self.boxes@.len(),
                all == self@.ids,
                keep == |id: Seq<char>| slice_text(excluding) != Some(id),
                texts(ids@) =~= all.subrange(0, k as int).filter(keep),
            decreases self.boxes@.len() - k,
        {
            let addressed = is_addressed(self.boxes[k].id.as_str(), excluding);
            proof {
                reveal(Seq::filter);
                assert(all.subrange(0, k + 1).drop_last() =~= all.subrange(0, k as int));
            }
            if addressed {
                ids.push(self.boxes[k].id.clone());
            }
            k += 1;
        }
        assert(all.subrange(0, k as int) =~= all);
        ids
    }

    /// Puts `text` into the mailbox of `player_id` without waiting. A message
    /// that the mailbox does not take is dropped and counted; for an id
    /// without a mailbox nothing happens.
    pub fn unicast(&mut self, player_id: &str, text: &str) -> (delivery: Delivery)
        ensures
            (delivery == Delivery::NoMailbox) == !old(self)@.ids.contains(player_id@),
            final(self)@ == (HubView {
                dropped: counted(
                    old(self)@.dropped,
                    if delivery == Delivery::Dropped {
                        1nat
                    } else {
                        0nat
                    },
                ),
                ..old(self)@
            }),
    {
        let at = self.position(player_id);
        if at < self.boxes.len() {
            assert(self@.ids[at as int] == player_id@);
            let outcome = hand_over(&self.boxes[at].sender, text.to_owned());
            let delivery = Delivery::from_handover(outcome);
            match delivery {
                Delivery::Dropped => {
                    self.count_drops(1);
                },
                _ => {},
            }
            delivery
        } else {
            Delivery::NoMailbox
        }
    }

    /// Puts `text` into every mailbox but that of `excluding`, without
    /// waiting, and returns how many mailboxes did not take it. Each of those
    /// messages is dropped and counted; the others are delivered all the
    /// same.
    pub fn broadcast(&mut self, text: &str, excluding: Option<&str>) -> (dropped: usize)
        ensures
            dropped <= audience(old(self)@.ids, slice_text(excluding)).len(),
            final(self)@ == (HubView {
                dropped: counted(old(self)@.dropped, dropped as nat),
                ..old(self)@
            }),
    {
        let ghost all = self@.ids;
        let ghost keep = |id: Seq<char>| slice_text(excluding) != Some(id);
        let mut dropped: usize = 0;
        let mut k: usize = 0;
        while k < self.boxes.len()
            invariant
                k <= self.boxes@.len(),
                self == old(self),
                all == self@.ids,
                keep == |id: Seq<char>| slice_text(excluding) != Some(id),
                dropped <= all.subrange(0, k as int).filter(keep).len() <= k,
            decreases self.boxes@.len() - k,
        {
            let addressed = is_addressed(self.boxes[k].id.as_str(), excluding);
            proof {
                reveal(Seq::filter);
                assert(all.subrange(0, k + 1).drop_last() =~= all.subrange(0, k as int));
            }
            if addressed {
                let outcome = hand_over(&self.boxes[k].sender, text.to_owned());
                match Delivery::from_handover(outcome) {
                    Delivery::Dropped => {
                        dropped += 1;
                    },
                    _ => {},
                }
            }
            k += 1;
        }
        assert(all.subrange(0, k as int) =~= all);
        self.count_drops(dropped);
        dropped
    }

    /// Delivers each notice in turn, as `unicast` and `broadcast` do.
    pub fn dispatch(&mut self, notices: &Vec<Notice>)
        ensures
            final(self)@.ids == old(self)@.ids,
            old(self)@.dropped <= final(self)@.dropped <= old(self)@.dropped + total_reach(
                old(self)@.ids,
                notices_view(notices@),
            ),
    {
        let ghost all = notices_view(notices@);
        let mut k: usize = 0;
        while k < notices.len()
            invariant
                k <= notices@.len(),
                all == notices_view(notices@),
                self@.ids == old(self)@.ids,
                old(self)@.dropped <= self@.dropped <= old(self)@.dropped + total_reach(
                    old(self)@.ids,
                    all.subrange(0, k as int),
                ),
            decreases notices@.len() - k,
        {
            proof {
                assert(all.subrange(0, k + 1).drop_last() =~= all.subrange(0, k as int));
            }
            match &notices[k] {
                Notice::Unicast { to, text } => {
                    self.unicast(to.as_str(), text.as_str());
                },
                Notice::Broadcast { excluding, text } => {
                    let out = match excluding {
                        Some(id) => Some(id.as_str()),
                        None => None,
                    };
                    self.broadcast(text.as_str(), out);
                },
            }
            k += 1;
        }
        assert(all.subrange(0, k as int) =~= all);
    }
}

} // verus!
