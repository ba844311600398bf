//! Broadcast envelopes: a transaction, its claimed dependencies, the phase of
//! the broadcast and the validator relaying it.
use vstd::prelude::*;
use crate::transaction::{ProcId, Transaction};

verus! {

/// Phase of a reliable broadcast that a message belongs to.
#[derive(Clone, Copy, Debug, PartialEq, Eq, Structural)]
pub enum MessageType {
    /// Opens a broadcast with the message's content.
    Init,
    /// Repeats the content of an Init heard from its originator.
    Echo,
    /// States that the relaying validator is ready to accept the content.
    Ready,
}

/// A transaction, the dependencies needed to validate it, the broadcast
/// phase and the validator relaying it.
#[derive(Clone, Debug)]
pub struct Message {
    /// Transaction to be validated.
    pub transaction: Transaction,
    /// Incoming transfers of the sender that the transaction relies on.
    pub dependencies: Vec<Transaction>,
    /// Broadcast phase.
    pub message_type: MessageType,
    /// Validator relaying the message.
    pub sender_id: ProcId,
}

/// Mathematical model of a [`Message`].
pub struct MessageView {
    pub transaction: Transaction,
    pub dependencies: Seq<Transaction>,
    pub message_type: MessageType,
    pub sender_id: ProcId,
}

impl View for Message {
    type V = MessageView;

    open spec fn view(&self) -> MessageView {
        MessageView {
            transaction: self.transaction,
            dependencies: self.dependencies@,
            message_type: self.message_type,
            sender_id: self.sender_id,
        }
    }
}

/// Two messages carry the same payload when their transactions and their
/// dependency lists are equal; type and relaying validator do not count.
pub open spec fn same_payload(a: MessageView, b: MessageView) -> bool {
    a.transaction == b.transaction && a.dependencies == b.dependencies
}

/// A copy of the transactions of `v`.
pub fn copy_transactions(v: &Vec<Transaction>) -> (r: Vec<Transaction>)
    ensures
        r@ == v@,
{
    let mut r: Vec<Transaction> = Vec::new();
    let mut i: usize = 0;
    while i < v.len()
        invariant
            i <= v.len(),
            r@ == v@.subrange(0, i as int),
        decreases v.len() - i,
    {
        r.push(v[i]);
        i = i + 1;
        assert(r@ =~= v@.subrange(0, i as int));
    }
    assert(v@.subrange(0, v.len() as int) =~= v@);
    r
}

/// Whether two transaction lists hold the same transactions in the same order.
pub fn same_transactions(a: &Vec<Transaction>, b: &Vec<Transaction>) -> (r: bool)
    ensures
        r == (a@ == b@),
{
    if a.len() != b.len() {
        return false;
    }
    let mut i: usize = 0;
    while i < a.len()
        invariant
            i <= a.len(),
            a.len() == b.len(),
            forall|j: int| 0 <= j < i ==> a@[j] == b@[j],
        decreases a.len() - i,
    {
        if !a[i].same_as(&b[i]) {
            return false;
        }
        i = i + 1;
    }
    assert(a@ =~= b@);
    true
}

impl Message {
    /// A copy of this message.
    pub fn duplicate(&self) -> (r: Message)
        ensures
            r@ == self@,
    {
        Message {
            transaction: self.transaction,
            dependencies: copy_transactions(&self.dependencies),
            message_type: self.message_type,
            sender_id: self.sender_id,
        }
    }

    /// A copy of this message with a new phase and relaying validator, as a
    /// validator re-broadcasts what it heard.
    pub fn relayed(&self, message_type: MessageType, sender_id: ProcId) -> (r: Message)
        ensures
            r@ == (MessageView { message_type, sender_id, ..self@ }),
    {
        Message {
            transaction: self.transaction,
            dependencies: copy_transactions(&self.dependencies),
            message_type,
            sender_id,
        }
    }

    /// Whether both messages carry the same transaction and dependencies.
    pub fn same_payload(&self, other: &Message) -> (r: bool)
        ensures
            r == same_payload(self@, other@),
    {
        self.transaction.same_as(&other.transaction) && same_transactions(&self.dependencies, &other.dependencies)
    }
}

impl PartialEq for Message {
    fn eq(&self, other: &Message) -> (r: bool) {
        self.same_payload(other)
    }
}

impl vstd::std_specs::cmp::PartialEqSpecImpl for Message {
    open spec fn obeys_eq_spec() -> bool {
        true
    }

    open spec fn eq_spec(&self, other: &Message) -> bool {
        same_payload(self@, other@)
    }
}

/// A message with the signature of its relaying validator over the
/// message's canonical encoding.
#[derive(Clone, Debug)]
pub struct SignedMessage {
    /// The signed message.
    pub message: Message,
    /// Signature bytes.
    pub signature: Vec<u8>,
}

} // verus!

verus! {

/// Models of the messages of `v`.
pub open spec fn msgs_view(v: Seq<Message>) -> Seq<MessageView> {
    Seq::new(v.len(), |i: int| v[i]@)
}

} // verus!
