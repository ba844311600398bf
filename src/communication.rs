//! Requests exchanged between a validator's protocol loop and its helpers.
use vstd::prelude::*;
use crate::message::Message;
use crate::transaction::{Currency, UserId};

verus! {

/// A transfer to relay, or a directive to a validator.
#[derive(Clone, Debug)]
pub enum Communication {
    /// Request to output the balance of an account.
    ReadAccount { account: UserId },
    /// A transfer message to relay.
    Transfer { message: Message },
    /// Request to make a transfer.
    TransferRequest { sender: UserId, recipient: UserId, amount: Currency },
    /// Request to add an amount of money to an account.
    Add { account: UserId, amount: Currency },
    /// Request to remove an amount of money from an account.
    Remove { account: UserId, amount: Currency },
    /// Request to output a string.
    Output { message: String },
}

impl Communication {
    /// The account a communication is addressed to: the account read,
    /// credited or debited, the receiver of a relayed transfer, the sender of
    /// a requested one; none for an output.
    pub fn receiver(&self) -> (r: Option<UserId>)
        ensures
            r == match *self {
                Communication::ReadAccount { account } => Some(account),
                Communication::Transfer { message } => Some(message.transaction.receiver_id),
                Communication::TransferRequest { sender, .. } => Some(sender),
                Communication::Add { account, .. } => Some(account),
                Communication::Remove { account, .. } => Some(account),
                Communication::Output { .. } => None,
            },
    {
        match self {
            Communication::ReadAccount { account } => Some(*account),
            Communication::Transfer { message } => Some(message.transaction.receiver_id),
            Communication::TransferRequest { sender, .. } => Some(*sender),
            Communication::Add { account, .. } => Some(*account),
            Communication::Remove { account, .. } => Some(*account),
            Communication::Output { .. } => None,
        }
    }
}

/// A request between a validator and the main thread.
#[derive(Clone, Debug)]
pub enum IOComm {
    /// Request to output all balances.
    Balances,
    /// Request to output the history of an account.
    HistoryOf { account: UserId },
    /// Request to output a string.
    Output { message: String },
}

} // verus!
