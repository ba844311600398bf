//! Client requests to a validator and its answers.
use vstd::prelude::*;
use crate::history::{deps_of, history, seq_of};
use crate::history::balance as balance_of;
use crate::message::{MessageType, MessageView, SignedMessage};
use crate::process::{reported_balance, transfer_refusal, Process, TransferError};
use crate::transaction::{Currency, Transaction, UserId};

verus! {

/// A client's request to move money from `sender` to `recipient`.
#[derive(Clone, Copy, Debug)]
pub struct Transfer {
    pub sender: UserId,
    pub recipient: UserId,
    pub amount: Currency,
}

/// A client's request.
#[derive(Clone, Debug)]
pub enum Instruction {
    /// A transfer with its sender's signature over its canonical encoding.
    SignedTransfer { transfer: Transfer, signature: Vec<u8> },
    /// A balance query.
    Balance { user: UserId },
}

/// A validator's answer to a client.
#[derive(Clone, Copy, Debug, PartialEq, Eq, Structural)]
pub enum Response {
    /// The balance asked for.
    Balance(Currency),
    /// Whether the transfer was accepted for broadcast, and the refusal code
    /// (0 when accepted).
    Transfer(bool, u8),
    /// The answer could not be sent.
    SendErr,
    /// The request could not be received.
    RcvErr,
}

/// A request with the instruction it carries, as read from a client.
#[derive(Clone, Debug)]
pub struct SignedInstruction {
    pub instruction: Instruction,
    pub signature: Vec<u8>,
}

/// The channel on which a client's answer goes back.
#[verifier::external_type_specification]
#[verifier::external_body]
#[verifier::reject_recursive_types(T)]
pub struct ExSender<T>(std::sync::mpsc::Sender<T>);

/// A client's request with the channel for its answer.
pub struct RespInstruction {
    pub instruction: Instruction,
    pub resp_sender: std::sync::mpsc::Sender<Response>,
}

impl RespInstruction {
    /// Pairs a request with the channel for its answer.
    pub fn from(instruction: Instruction, resp_sender: std::sync::mpsc::Sender<Response>) -> (r: RespInstruction)
        ensures
            r.instruction == instruction,
            r.resp_sender == resp_sender,
    {
        RespInstruction { instruction, resp_sender }
    }
}

/// The answer to a transfer request, by its refusal if any.
pub open spec fn transfer_response(refusal: Option<TransferError>) -> Response {
    match refusal {
        None => Response::Transfer(true, 0),
        Some(TransferError::InvalidSignature) => Response::Transfer(false, 1),
        Some(TransferError::InsufficientFunds) => Response::Transfer(false, 2),
        Some(TransferError::TransferInProgress) => Response::Transfer(false, 3),
        Some(TransferError::SequenceExhausted) => Response::Transfer(false, 4),
    }
}

/// Serves a client's request: a balance query is answered from the
/// committed history; a transfer request is admitted or refused. Returns
/// the answer, and the Init message of an admitted transfer for the caller
/// to broadcast.
pub fn deal_with_instruction(process: &mut Process, instruction: Instruction) -> (r: (Response, Option<SignedMessage>))
    ensures
        match instruction {
            Instruction::Balance { user } => {
                &&& r.0 == Response::Balance(
                    reported_balance(balance_of(history(old(process).committed(), user), user)),
                )
                &&& r.1 is None
                &&& *final(process) == *old(process)
            },
            Instruction::SignedTransfer { transfer, signature } => {
                let refusal = transfer_refusal(old(process).committed(), old(process).ongoing(), transfer, signature@);
                &&& r.0 == transfer_response(refusal)
                &&& (r.1 is Some <==> refusal is None)
                &&& refusal is Some ==> *final(process) == *old(process)
                &&& refusal is None ==> {
                    &&& final(process).committed() == old(process).committed()
                    &&& final(process).pending() == old(process).pending()
                    &&& final(process).ongoing() == old(process).ongoing().push(transfer.sender)
                    &&& final(process).same_setup(old(process))
                    &&& r.1 matches Some(s) && s.message@ == (MessageView {
                        transaction: Transaction {
                            seq_id: (seq_of(old(process).committed(), transfer.sender) + 1) as u32,
                            sender_id: transfer.sender,
                            receiver_id: transfer.recipient,
                            amount: transfer.amount,
                        },
                        dependencies: deps_of(old(process).committed(), transfer.sender),
                        message_type: MessageType::Init,
                        sender_id: old(process).proc_id(),
                    })
                }
            },
        },
{
    match instruction {
        Instruction::Balance { user } => (Response::Balance(process.output_balance_for(user)), None),
        Instruction::SignedTransfer { transfer, signature } => {
            match process.transfer(transfer, signature) {
                Ok(s) => (Response::Transfer(true, 0), Some(s)),
                Err(e) => (Response::Transfer(false, e.code()), None),
            }
        },
    }
}

} // verus!
