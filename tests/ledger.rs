use ed25519_dalek::{Keypair, PublicKey, SecretKey, Signer};
use encoins::codec::encode_transfer;
use encoins::communication::Communication;
use encoins::instructions::{deal_with_instruction, Instruction, RespInstruction, Response, Transfer};
use encoins::message::{Message, MessageType};
use encoins::process::Process;
use encoins::transaction::{same_id, Transaction, UserId};

fn keypair(seed: u8) -> Keypair {
    let secret = SecretKey::from_bytes(&[seed; 32]).unwrap();
    let public: PublicKey = (&secret).into();
    Keypair { secret, public }
}

const M: UserId = [9u8; 32];
const A: UserId = [1u8; 32];
const B: UserId = [2u8; 32];
const C: UserId = [3u8; 32];

fn ledger(history: Vec<Transaction>) -> Process {
    let k = keypair(50);
    let pk = k.public.to_bytes();
    Process::init(0, 1, k.secret.to_bytes(), vec![pk], vec![], (String::new(), 0), (String::new(), 0), history)
}

fn pending(t: Transaction, deps: Vec<Transaction>) -> Message {
    Message { transaction: t, dependencies: deps, message_type: MessageType::Ready, sender_id: 0 }
}

#[test]
fn balance_is_received_minus_sent() {
    let h = vec![Transaction::from(1, M, A, 100), Transaction::from(1, A, B, 30), Transaction::from(2, A, A, 10)];
    assert_eq!(Process::balance(&A, &h), 70);
    assert_eq!(Process::balance(&B, &h), 30);
    assert_eq!(Process::balance(&M, &h), -100);
    assert_eq!(Process::balance(&C, &h), 0);
    assert_eq!(Process::balance(&A, &vec![]), 0);
}

#[test]
fn history_holds_the_transactions_of_an_account() {
    let h = vec![Transaction::from(1, M, A, 100), Transaction::from(2, M, B, 50), Transaction::from(1, A, B, 30)];
    let p = ledger(h.clone());
    assert_eq!(p.history_for(&A), vec![h[0], h[2]]);
    assert_eq!(p.history_for(&B), vec![h[1], h[2]]);
    assert_eq!(p.history_for(&C), vec![]);
    assert_eq!(p.read(&A), 70);
    assert_eq!(p.load_seq(&M), 2);
    assert_eq!(p.load_seq(&A), 1);
    assert_eq!(p.load_seq(&B), 0);
}

#[test]
fn reported_balance_is_clamped() {
    let p = ledger(vec![Transaction::from(1, M, A, u32::MAX), Transaction::from(2, M, A, 5)]);
    assert_eq!(p.output_balance_for(A), u32::MAX);
    assert_eq!(p.output_balance_for(M), 0);
    assert_eq!(p.output_balance_for(B), 0);
    assert_eq!(p.read(&A), u32::MAX as i128 + 5);
}

#[test]
fn dependencies_are_incoming_transfers_since_last_send() {
    let h = vec![
        Transaction::from(1, M, A, 100),
        Transaction::from(1, A, B, 30),
        Transaction::from(2, M, A, 7),
        Transaction::from(1, B, A, 3),
        Transaction::from(3, M, C, 1),
    ];
    let p = ledger(h.clone());
    assert_eq!(p.deps_for(&A), vec![h[2], h[3]]);
    assert_eq!(p.deps_for(&C), vec![h[4]]);
    assert_eq!(p.deps_for(&M), vec![]);
}

#[test]
fn validity_checks_sequence_funds_and_dependencies() {
    let credit = Transaction::from(1, M, A, 100);
    let p = ledger(vec![credit]);
    assert!(p.is_valid(&pending(Transaction::from(1, A, B, 100), vec![credit])));
    // Out of order.
    assert!(!p.is_valid(&pending(Transaction::from(2, A, B, 10), vec![])));
    assert!(!p.is_valid(&pending(Transaction::from(0, A, B, 10), vec![])));
    // Above the balance.
    assert!(!p.is_valid(&pending(Transaction::from(1, A, B, 101), vec![])));
    // A dependency that is not committed.
    assert!(!p.is_valid(&pending(Transaction::from(1, A, B, 10), vec![Transaction::from(2, M, A, 5)])));
    // A committed transaction that is not in the sender's history.
    let q = ledger(vec![credit, Transaction::from(2, M, B, 5)]);
    assert!(!q.is_valid(&pending(Transaction::from(1, A, B, 10), vec![Transaction::from(2, M, B, 5)])));
}

#[test]
fn validation_reaches_a_fixed_point() {
    let mut p = ledger(vec![Transaction::from(1, M, A, 100)]);
    let second = Transaction::from(2, A, B, 20);
    let first = Transaction::from(1, A, B, 30);
    let stuck = Transaction::from(1, C, B, 1);
    p.in_to_validate(pending(second, vec![]));
    p.in_to_validate(pending(stuck, vec![]));
    p.in_to_validate(pending(first, vec![]));
    assert_eq!(p.nb_pending(), 3);
    let done = p.valid();
    let carried: Vec<Transaction> = done.iter().map(|m| m.transaction).collect();
    assert_eq!(carried, vec![first, second]);
    assert_eq!(p.nb_pending(), 1);
    assert_eq!(p.read(&A), 50);
    assert_eq!(p.read(&B), 50);
    assert_eq!(p.load_seq(&A), 2);
    assert_eq!(p.valid().len(), 0);
    assert_eq!(p.nb_pending(), 1);
}

#[test]
fn a_dependency_waits_for_its_commit() {
    let credit = Transaction::from(1, M, A, 100);
    let later = Transaction::from(1, C, A, 5);
    let mut p = ledger(vec![credit, Transaction::from(2, M, C, 5)]);
    p.in_to_validate(pending(Transaction::from(1, A, B, 10), vec![later]));
    assert_eq!(p.valid().len(), 0);
    p.in_to_validate(pending(later, vec![]));
    assert_eq!(p.valid().len(), 2);
    assert_eq!(p.read(&A), 95);
}

#[test]
fn instructions_are_answered() {
    let ka = keypair(1);
    let a = ka.public.to_bytes();
    let mut p = ledger(vec![Transaction::from(1, M, a, 100)]);
    let (r, out) = deal_with_instruction(&mut p, Instruction::Balance { user: a });
    assert_eq!(r, Response::Balance(100));
    assert!(out.is_none());
    let sig = ka.sign(encode_transfer(&a, &B, 10).as_slice()).to_bytes().to_vec();
    let transfer = Transfer { sender: a, recipient: B, amount: 10 };
    let (r, out) = deal_with_instruction(&mut p, Instruction::SignedTransfer { transfer, signature: sig.clone() });
    assert_eq!(r, Response::Transfer(true, 0));
    assert_eq!(out.unwrap().message.transaction, Transaction::from(1, a, B, 10));
    let (r, out) = deal_with_instruction(&mut p, Instruction::SignedTransfer { transfer, signature: sig });
    assert_eq!(r, Response::Transfer(false, 3));
    assert!(out.is_none());
    let (r, _) = deal_with_instruction(&mut p, Instruction::SignedTransfer { transfer, signature: vec![0u8; 64] });
    assert_eq!(r, Response::Transfer(false, 1));
}

#[test]
fn answer_channel_is_kept() {
    let (tx, rx) = std::sync::mpsc::channel();
    let ri = RespInstruction::from(Instruction::Balance { user: A }, tx);
    ri.resp_sender.send(Response::Balance(3)).unwrap();
    assert_eq!(rx.recv().unwrap(), Response::Balance(3));
    assert!(matches!(ri.instruction, Instruction::Balance { user } if user == A));
}

#[test]
fn communication_receivers() {
    let t = Transaction::from(1, A, B, 5);
    let m = Message { transaction: t, dependencies: vec![], message_type: MessageType::Init, sender_id: 0 };
    assert_eq!(Communication::Transfer { message: m }.receiver(), Some(B));
    assert_eq!(Communication::TransferRequest { sender: A, recipient: B, amount: 1 }.receiver(), Some(A));
    assert_eq!(Communication::ReadAccount { account: C }.receiver(), Some(C));
    assert_eq!(Communication::Add { account: C, amount: 1 }.receiver(), Some(C));
    assert_eq!(Communication::Remove { account: A, amount: 1 }.receiver(), Some(A));
    assert_eq!(Communication::Output { message: String::from("x") }.receiver(), None);
}

#[test]
fn transactions_compare_by_all_fields() {
    let t = Transaction::from(1, A, B, 5);
    assert!(t.same_as(&Transaction::from(1, A, B, 5)));
    assert!(!t.same_as(&Transaction::from(2, A, B, 5)));
    assert!(!t.same_as(&Transaction::from(1, B, B, 5)));
    assert!(!t.same_as(&Transaction::from(1, A, A, 5)));
    assert!(!t.same_as(&Transaction::from(1, A, B, 6)));
    assert!(same_id(&A, &A));
    assert!(!same_id(&A, &B));
    let m1 = Message { transaction: t, dependencies: vec![t], message_type: MessageType::Echo, sender_id: 1 };
    let m2 = Message { transaction: t, dependencies: vec![t], message_type: MessageType::Ready, sender_id: 2 };
    let m3 = Message { transaction: t, dependencies: vec![], message_type: MessageType::Echo, sender_id: 1 };
    assert!(m1 == m2);
    assert!(m1 != m3);
}

#[test]
fn entries_left_pending_keep_their_order() {
    let mut p = ledger(vec![Transaction::from(1, M, A, 100)]);
    let stuck1 = Transaction::from(3, C, B, 1);
    let first = Transaction::from(1, A, B, 30);
    let stuck2 = Transaction::from(2, C, A, 2);
    p.in_to_validate(pending(stuck1, vec![]));
    p.in_to_validate(pending(first, vec![]));
    p.in_to_validate(pending(stuck2, vec![]));
    assert_eq!(p.valid().len(), 1);
    let left: Vec<Transaction> = p.get_to_validate().iter().map(|m| m.transaction).collect();
    assert_eq!(left, vec![stuck1, stuck2]);
    assert_eq!(p.valid().len(), 0);
    let left: Vec<Transaction> = p.get_to_validate().iter().map(|m| m.transaction).collect();
    assert_eq!(left, vec![stuck1, stuck2]);
}
