//! One run of Byzantine reliable broadcast (Bracha) for the transfer of one
//! account.
//!
//! Each validator keeps, per validator of the set, the last Echo and the
//! last Ready it heard from it. With `n` validators a validator becomes ready
//! once more than `2n/3` Echoes or more than `n/3` Readies carry the same
//! payload, and a payload is delivered once more than `2n/3` Readies carry
//! it. This tolerates up to `(n - 1) / 3` Byzantine validators.
use vstd::prelude::*;
use crate::message::{same_payload, Message, MessageType, MessageView};

verus! {

/// State of one broadcast instance on one validator.
pub struct Broadcast {
    /// Echo received from each validator.
    echos: Vec<Option<Message>>,
    /// Ready received from each validator.
    ready: Vec<Option<Message>>,
    /// Number of validators involved in the broadcast.
    nb_procs: usize,
    /// Index of the validator owning the broadcast.
    proc_id: usize,
    /// Whether a quorum of Readies was observed.
    quorum_achieved: bool,
    /// Whether the owning validator decided to send its own Ready.
    is_ready: bool,
    /// Whether the owning validator's Ready was sent.
    ready_message_sent: bool,
}

/// Mathematical model of a [`Broadcast`].
pub struct BroadcastView {
    pub echos: Seq<Option<MessageView>>,
    pub ready: Seq<Option<MessageView>>,
    pub nb_procs: nat,
    pub proc_id: nat,
    pub quorum_achieved: bool,
    pub is_ready: bool,
    pub ready_message_sent: bool,
}

/// Model of a slot.
pub open spec fn slot_view(o: Option<Message>) -> Option<MessageView> {
    match o {
        Some(m) => Some(m@),
        None => None,
    }
}

/// Model of a vector of slots.
pub open spec fn slots_view(v: Seq<Option<Message>>) -> Seq<Option<MessageView>> {
    Seq::new(v.len(), |i: int| slot_view(v[i]))
}

/// Whether a slot holds a message with the payload of `m`.
pub open spec fn slot_matches(o: Option<MessageView>, m: MessageView) -> bool {
    match o {
        Some(x) => same_payload(x, m),
        None => false,
    }
}

/// Number of slots that hold a message with the payload of `m`.
pub open spec fn count_payload(slots: Seq<Option<MessageView>>, m: MessageView) -> nat
    decreases slots.len(),
{
    if slots.len() == 0 {
        0
    } else {
        count_payload(slots.drop_last(), m) + if slot_matches(slots.last(), m) {
            1nat
        } else {
            0nat
        }
    }
}

/// More Echoes than this make a validator ready.
pub open spec fn echo_quorum(n: nat) -> nat {
    (2 * n / 3) as nat
}

/// More Readies than this make a validator ready.
pub open spec fn ready_quorum(n: nat) -> nat {
    n / 3
}

/// More Readies than this deliver the payload.
pub open spec fn delivery_quorum(n: nat) -> nat {
    (2 * n / 3) as nat
}

/// The state after a broadcast instance heard `m`. An Init, or a message
/// from a validator outside the set, leaves it unchanged. An Echo fills its
/// sender's slot only if that slot is empty; a Ready replaces its sender's
/// slot. Then the instance becomes ready when enough Echoes or Readies carry
/// the payload of `m`, and it has found a quorum once enough Readies carry
/// it; both flags, once set, stay set.
pub open spec fn after_message(b: BroadcastView, m: MessageView) -> BroadcastView {
    if m.message_type == MessageType::Init || m.sender_id >= b.nb_procs {
        b
    } else {
        let s = m.sender_id as int;
        let echos = if m.message_type == MessageType::Echo && b.echos[s] is None {
            b.echos.update(s, Some(m))
        } else {
            b.echos
        };
        let ready = if m.message_type == MessageType::Ready {
            b.ready.update(s, Some(m))
        } else {
            b.ready
        };
        BroadcastView {
            echos,
            ready,
            is_ready: b.is_ready || count_payload(echos, m) > echo_quorum(b.nb_procs) || count_payload(ready, m)
                > ready_quorum(b.nb_procs),
            quorum_achieved: b.quorum_achieved || count_payload(ready, m) > delivery_quorum(b.nb_procs),
            ..b
        }
    }
}

/// What [`Broadcast::add_message`] did with a message.
#[derive(Clone, Copy, Debug, PartialEq, Eq, Structural)]
pub enum AddOutcome {
    /// An Init reached a running instance: ignored.
    UnexpectedInit,
    /// The relaying validator is not in the set: ignored.
    UnknownSender,
    /// An Echo was taken into account.
    EchoReceived,
    /// A Ready was taken into account.
    ReadyReceived,
}

/// What [`Broadcast::add_message`] reports for `m` in an instance over `n`
/// validators.
pub open spec fn add_outcome(m: MessageView, n: nat) -> AddOutcome {
    if m.message_type == MessageType::Init {
        AddOutcome::UnexpectedInit
    } else if m.sender_id >= n {
        AddOutcome::UnknownSender
    } else if m.message_type == MessageType::Echo {
        AddOutcome::EchoReceived
    } else {
        AddOutcome::ReadyReceived
    }
}

/// A fresh instance owned by validator `proc_numb` among `nb_involved`.
pub fn init_broadcast(proc_numb: usize, nb_involved: usize) -> (r: Broadcast)
    ensures
        r@.nb_procs == nb_involved,
        r@.echos.len() == nb_involved,
        r@.ready.len() == nb_involved,
        r@.proc_id == proc_numb,
        forall|i: int| 0 <= i < nb_involved ==> r@.echos[i] is None && r@.ready[i] is None,
        !r@.quorum_achieved,
        !r@.is_ready,
        !r@.ready_message_sent,
{
    let mut echos: Vec<Option<Message>> = Vec::new();
    let mut ready: Vec<Option<Message>> = Vec::new();
    let mut i: usize = 0;
    while i < nb_involved
        invariant
            i <= nb_involved,
            echos.len() == i,
            ready.len() == i,
            forall|j: int| 0 <= j < i ==> echos@[j] is None && ready@[j] is None,
        decreases nb_involved - i,
    {
        echos.push(None);
        ready.push(None);
        i = i + 1;
    }
    Broadcast {
        echos,
        ready,
        nb_procs: nb_involved,
        proc_id: proc_numb,
        quorum_achieved: false,
        is_ready: false,
        ready_message_sent: false,
    }
}

impl View for Broadcast {
    type V = BroadcastView;

    closed spec fn view(&self) -> BroadcastView {
        BroadcastView {
            echos: slots_view(self.echos@),
            ready: slots_view(self.ready@),
            nb_procs: self.nb_procs as nat,
            proc_id: self.proc_id as nat,
            quorum_achieved: self.quorum_achieved,
            is_ready: self.is_ready,
            ready_message_sent: self.ready_message_sent,
        }
    }
}

impl Broadcast {
    /// One slot per validator in each table.
    #[verifier::type_invariant]
    spec fn wf(&self) -> bool {
        self.echos.len() == self.nb_procs && self.ready.len() == self.nb_procs
    }

    /// Takes an Echo or a Ready into account and updates the readiness and
    /// quorum flags.
    pub fn add_message(&mut self, message: Message) -> (r: AddOutcome)
        ensures
            final(self)@ == after_message(old(self)@, message@),
            r == add_outcome(message@, old(self)@.nb_procs),
            old(self)@.echos.len() == old(self)@.nb_procs,
            old(self)@.ready.len() == old(self)@.nb_procs,
            final(self)@.echos.len() == final(self)@.nb_procs,
            final(self)@.ready.len() == final(self)@.nb_procs,
    {
        proof {
            use_type_invariant(&*self);
        }
        match message.message_type {
            MessageType::Init => AddOutcome::UnexpectedInit,
            MessageType::Echo => {
                if message.sender_id as usize >= self.nb_procs {
                    return AddOutcome::UnknownSender;
                }
                let s = message.sender_id as usize;
                let reference = message.duplicate();
                if self.echos[s].is_none() {
                    let ghost before = self.echos@;
                    self.echos[s] = Some(message);
                    assert(slots_view(self.echos@) =~= slots_view(before).update(s as int, Some(reference@)));
                }
                self.update_broadcast(&reference);
                AddOutcome::EchoReceived
            },
            MessageType::Ready => {
                if message.sender_id as usize >= self.nb_procs {
                    return AddOutcome::UnknownSender;
                }
                let s = message.sender_id as usize;
                let reference = message.duplicate();
                let ghost before = self.ready@;
                self.ready[s] = Some(message);
                assert(slots_view(self.ready@) =~= slots_view(before).update(s as int, Some(reference@)));
                self.update_broadcast(&reference);
                AddOutcome::ReadyReceived
            },
        }
    }

    /// Becomes ready when enough Echoes or Readies carry the payload of
    /// `message`, and records a quorum once enough Readies carry it; neither
    /// flag is ever cleared.
    fn update_broadcast(&mut self, message: &Message)
        ensures
            final(self)@ == (BroadcastView {
                is_ready: old(self)@.is_ready || count_payload(old(self)@.echos, message@) > echo_quorum(
                    old(self)@.nb_procs,
                ) || count_payload(old(self)@.ready, message@) > ready_quorum(old(self)@.nb_procs),
                quorum_achieved: old(self)@.quorum_achieved || count_payload(old(self)@.ready, message@)
                    > delivery_quorum(old(self)@.nb_procs),
                ..old(self)@
            }),
    {
        proof {
            use_type_invariant(&*self);
        }
        let n = self.nb_procs;
        let readies = nb_occs(&self.ready, message);
        if !self.is_ready {
            let echoes = nb_occs(&self.echos, message);
            if echoes > (2 * (n as u128) / 3) as usize || readies > n / 3 {
                self.is_ready = true;
            }
        }
        if readies > (2 * (n as u128) / 3) as usize {
            self.quorum_achieved = true;
        }
    }

    /// Whether the owning validator decided to send its Ready.
    pub fn is_ready(&self) -> (r: bool)
        ensures
            r == self@.is_ready,
    {
        self.is_ready
    }

    /// Whether the owning validator's Ready was sent.
    pub fn ready_message_sent(&self) -> (r: bool)
        ensures
            r == self@.ready_message_sent,
    {
        self.ready_message_sent
    }

    /// Records whether the owning validator's Ready was sent.
    pub fn set_ready_message_sent(&mut self, new_status: bool)
        ensures
            final(self)@ == (BroadcastView { ready_message_sent: new_status, ..old(self)@ }),
            final(self)@.echos.len() == final(self)@.nb_procs,
            final(self)@.ready.len() == final(self)@.nb_procs,
    {
        proof {
            use_type_invariant(&*self);
        }
        self.ready_message_sent = new_status;
    }

    /// Whether a quorum of Readies was observed.
    pub fn quorum_found(&self) -> (r: bool)
        ensures
            r == self@.quorum_achieved,
    {
        self.quorum_achieved
    }
}

/// Number of `true` entries of `s`.
pub open spec fn count_true(s: Seq<bool>) -> nat
    decreases s.len(),
{
    if s.len() == 0 {
        0
    } else {
        count_true(s.drop_last()) + if s.last() {
            1nat
        } else {
            0nat
        }
    }
}

/// Largest number of Byzantine validators tolerated among `n`.
pub open spec fn max_faulty(n: nat) -> int {
    (n - 1) / 3
}

proof fn lemma_count_payload_le(slots: Seq<Option<MessageView>>, m: MessageView)
    ensures
        count_payload(slots, m) <= slots.len(),
    decreases slots.len(),
{
    if slots.len() > 0 {
        lemma_count_payload_le(slots.drop_last(), m);
    }
}

proof fn lemma_two_counts(
    r1: Seq<Option<MessageView>>,
    r2: Seq<Option<MessageView>>,
    faulty: Seq<bool>,
    m1: MessageView,
    m2: MessageView,
)
    requires
        r1.len() == r2.len() == faulty.len(),
        forall|i: int|
            0 <= i < r1.len() && slot_matches(#[trigger] r1[i], m1) && slot_matches(#[trigger] r2[i], m2)
                ==> faulty[i],
    ensures
        count_payload(r1, m1) + count_payload(r2, m2) <= r1.len() + count_true(faulty),
    decreases r1.len(),
{
    if r1.len() > 0 {
        let k = r1.len() - 1;
        assert(slot_matches(r1[k], m1) && slot_matches(r2[k], m2) ==> faulty[k]);
        lemma_two_counts(r1.drop_last(), r2.drop_last(), faulty.drop_last(), m1, m2);
    }
}

/// Agreement of Ready quorums. Take the Ready slots of two validators,
/// one per validator of the set, where every correct validator's slot holds
/// the same message in both whenever it is filled in both (a correct
/// validator sends a single Ready to everyone), and at most `(n - 1) / 3`
/// validators are Byzantine. If more than `2n/3` slots of the first carry
/// the payload of `m1` and more than `2n/3` slots of the second carry that of
/// `m2`, the two payloads are the same: two correct validators that deliver
/// for an account deliver the same transaction and dependencies.
pub proof fn lemma_ready_quorums_agree(
    r1: Seq<Option<MessageView>>,
    r2: Seq<Option<MessageView>>,
    faulty: Seq<bool>,
    m1: MessageView,
    m2: MessageView,
)
    requires
        r1.len() == r2.len() == faulty.len(),
        count_true(faulty) <= max_faulty(r1.len()),
        forall|i: int|
            0 <= i < r1.len() && !faulty[i] && r1[i] is Some && r2[i] is Some ==> #[trigger] r1[i] == #[trigger] r2[i],
        count_payload(r1, m1) > delivery_quorum(r1.len()),
        count_payload(r2, m2) > delivery_quorum(r1.len()),
    ensures
        same_payload(m1, m2),
{
    if !same_payload(m1, m2) {
        assert forall|i: int|
            0 <= i < r1.len() && slot_matches(#[trigger] r1[i], m1) && slot_matches(#[trigger] r2[i], m2)
                implies faulty[i] by {
            if !faulty[i] {
                assert(r1[i] == r2[i]);
            }
        }
        lemma_two_counts(r1, r2, faulty, m1, m2);
        let n = r1.len();
        assert(n > 0) by {
            lemma_count_payload_le(r1, m1);
        }
        assert(false);
    }
}

proof fn lemma_count_correct(slots: Seq<Option<MessageView>>, faulty: Seq<bool>, m: MessageView)
    requires
        slots.len() == faulty.len(),
        forall|i: int| 0 <= i < slots.len() && !faulty[i] ==> slot_matches(#[trigger] slots[i], m),
    ensures
        count_payload(slots, m) + count_true(faulty) >= slots.len(),
    decreases slots.len(),
{
    if slots.len() > 0 {
        let k = slots.len() - 1;
        assert(!faulty[k] ==> slot_matches(slots[k], m));
        lemma_count_correct(slots.drop_last(), faulty.drop_last(), m);
    }
}

/// The correct validators alone form every quorum. Among `n` validators
/// of which at most `(n - 1) / 3` are Byzantine, when the slot of every
/// correct validator carries the payload of `m`, more than `2n/3` slots
/// carry it: enough Echoes to make a validator ready, and enough Readies to
/// make it ready and to deliver. So once every correct validator has echoed
/// a broadcast and then sent its Ready, every correct validator delivers it,
/// whatever the Byzantine ones send.
pub proof fn lemma_correct_validators_form_quorums(slots: Seq<Option<MessageView>>, faulty: Seq<bool>, m: MessageView)
    requires
        slots.len() == faulty.len(),
        slots.len() >= 1,
        count_true(faulty) <= max_faulty(slots.len()),
        forall|i: int| 0 <= i < slots.len() && !faulty[i] ==> slot_matches(#[trigger] slots[i], m),
    ensures
        count_payload(slots, m) > echo_quorum(slots.len()),
        count_payload(slots, m) > ready_quorum(slots.len()),
        count_payload(slots, m) > delivery_quorum(slots.len()),
{
    lemma_count_correct(slots, faulty, m);
}

/// Validity, for one instance: once it holds the Echo (or the Ready) of
/// every correct validator for the payload of `m`, taking `m` into account
/// makes it ready; once it holds the Ready of every correct validator, it
/// delivers.
pub proof fn lemma_correct_validators_suffice(b: BroadcastView, m: MessageView, faulty: Seq<bool>)
    requires
        b.echos.len() == b.nb_procs,
        b.ready.len() == b.nb_procs,
        faulty.len() == b.nb_procs,
        b.nb_procs >= 1,
        count_true(faulty) <= max_faulty(b.nb_procs),
        m.message_type != MessageType::Init,
        m.sender_id < b.nb_procs,
        m.message_type == MessageType::Echo ==> forall|i: int|
            0 <= i < b.nb_procs && !faulty[i] ==> slot_matches(#[trigger] after_message(b, m).echos[i], m),
        m.message_type == MessageType::Ready ==> forall|i: int|
            0 <= i < b.nb_procs && !faulty[i] ==> slot_matches(#[trigger] after_message(b, m).ready[i], m),
    ensures
        after_message(b, m).is_ready,
        m.message_type == MessageType::Ready ==> after_message(b, m).quorum_achieved,
{
    let a = after_message(b, m);
    if m.message_type == MessageType::Echo {
        lemma_correct_validators_form_quorums(a.echos, faulty, m);
    } else {
        lemma_correct_validators_form_quorums(a.ready, faulty, m);
    }
}

/// Number of slots of `tab` holding a message with the payload of `ref_msg`.
fn nb_occs(tab: &Vec<Option<Message>>, ref_msg: &Message) -> (r: usize)
    ensures
        r == count_payload(slots_view(tab@), ref_msg@),
{
    let mut nb: usize = 0;
    let mut i: usize = 0;
    while i < tab.len()
        invariant
            i <= tab.len(),
            nb == count_payload(slots_view(tab@).subrange(0, i as int), ref_msg@),
            nb <= i,
        decreases tab.len() - i,
    {
        let ghost prefix = slots_view(tab@).subrange(0, i + 1);
        assert(prefix.drop_last() =~= slots_view(tab@).subrange(0, i as int));
        match &tab[i] {
            None => {},
            Some(message) => {
                if ref_msg.same_payload(message) {
                    nb = nb + 1;
                }
            },
        }
        i = i + 1;
    }
    assert(slots_view(tab@).subrange(0, i as int) =~= slots_view(tab@));
    nb
}

} // verus!
