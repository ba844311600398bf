//! Accounts, amounts and transactions.
use vstd::prelude::*;

verus! {

/// Number of bytes of an account identifier (a compressed ed25519 public key).
pub const KEY_LENGTH: usize = 32;

/// Identifier of a client account: its public key.
pub type UserId = [u8; 32];

/// Identifier of a validator: its index in the validator set.
pub type ProcId = u32;

/// Currency type.
pub type Currency = u32;

/// Identifier of a transaction among those of its sender.
pub type SeqId = u32;

/// A transfer of money between two accounts. Two transactions are equal
/// when all four fields are.
#[derive(Clone, Copy, Debug)]
pub struct Transaction {
    /// Number of validated transfers outgoing from the sender, plus one.
    pub seq_id: SeqId,
    /// Account that pays.
    pub sender_id: UserId,
    /// Account that is paid.
    pub receiver_id: UserId,
    /// Amount of money transferred.
    pub amount: Currency,
}

/// Whether two account identifiers hold the same bytes.
pub fn same_id(a: &UserId, b: &UserId) -> (r: bool)
    ensures
        r == (*a == *b),
{
    let mut i: usize = 0;
    while i < KEY_LENGTH
        invariant
            i <= KEY_LENGTH,
            forall|j: int| 0 <= j < i ==> a@[j] == b@[j],
        decreases KEY_LENGTH - i,
    {
        if a[i] != b[i] {
            return false;
        }
        i = i + 1;
    }
    assert(*a =~= *b);
    true
}

impl Transaction {
    /// Builds a transaction from its four fields.
    pub fn from(seq_id: SeqId, sender_id: UserId, receiver_id: UserId, amount: Currency) -> (r: Transaction)
        ensures
            r == (Transaction { seq_id, sender_id, receiver_id, amount }),
    {
        Transaction { seq_id, sender_id, receiver_id, amount }
    }

    /// Whether `self` and `other` agree on all four fields.
    pub fn same_as(&self, other: &Transaction) -> (r: bool)
        ensures
            r == (*self == *other),
    {
        self.seq_id == other.seq_id && self.amount == other.amount && same_id(&self.sender_id, &other.sender_id)
            && same_id(&self.receiver_id, &other.receiver_id)
    }
}

impl PartialEq for Transaction {
    fn eq(&self, other: &Transaction) -> (r: bool) {
        self.same_as(other)
    }
}

impl vstd::std_specs::cmp::PartialEqSpecImpl for Transaction {
    open spec fn obeys_eq_spec() -> bool {
        true
    }

    open spec fn eq_spec(&self, other: &Transaction) -> bool {
        *self == *other
    }
}

} // verus!
