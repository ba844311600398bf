use ed25519_dalek::{Keypair, PublicKey, SecretKey, Signer};
use encoins::codec::encode_transfer;
use encoins::instructions::Transfer;
use encoins::message::SignedMessage;
use encoins::messaging::{deal_with_message, BroadcastRegistry, Handling};
use encoins::process::{Process, TransferError};
use encoins::transaction::{Transaction, UserId};

fn keypair(seed: u8) -> Keypair {
    let secret = SecretKey::from_bytes(&[seed; 32]).unwrap();
    let public: PublicKey = (&secret).into();
    Keypair { secret, public }
}

fn id_of(k: &Keypair) -> UserId {
    k.public.to_bytes()
}

fn sign_transfer(k: &Keypair, sender: &UserId, recipient: &UserId, amount: u32) -> Vec<u8> {
    k.sign(encode_transfer(sender, recipient, amount).as_slice()).to_bytes().to_vec()
}

const MINT: UserId = [9u8; 32];

/// Four validators whose histories credit `a` with 100 from the mint.
fn network(a: &UserId) -> (Vec<Process>, Vec<BroadcastRegistry>) {
    let keys: Vec<Keypair> = (0..4u8).map(|i| keypair(100 + i)).collect();
    let public_keys: Vec<UserId> = keys.iter().map(id_of).collect();
    let genesis = vec![Transaction::from(1, MINT, *a, 100)];
    let mut procs = Vec::new();
    let mut regs = Vec::new();
    for (i, k) in keys.into_iter().enumerate() {
        procs.push(Process::init(
            i as u32,
            4,
            k.secret.to_bytes(),
            public_keys.clone(),
            vec![],
            (String::from("127.0.0.1"), 0),
            (String::from("127.0.0.1"), 0),
            genesis.clone(),
        ));
        regs.push(BroadcastRegistry::new());
    }
    (procs, regs)
}

/// Delivers every message to every validator until nothing is left to send.
fn run(procs: &mut Vec<Process>, regs: &mut Vec<BroadcastRegistry>, first: SignedMessage) -> Vec<Handling> {
    let mut queue = vec![first];
    let mut seen = Vec::new();
    while let Some(m) = queue.pop() {
        for i in 0..procs.len() {
            let r = deal_with_message(&mut procs[i], m.clone(), &mut regs[i]);
            seen.push(r.handling);
            queue.extend(r.outbound);
        }
    }
    seen
}

#[test]
fn four_validators_commit_a_transfer() {
    let ka = keypair(1);
    let kb = keypair(2);
    let (a, b) = (id_of(&ka), id_of(&kb));
    let (mut procs, mut regs) = network(&a);
    let init = procs[0].transfer(Transfer { sender: a, recipient: b, amount: 40 }, sign_transfer(&ka, &a, &b, 40)).unwrap();
    let seen = run(&mut procs, &mut regs, init);
    assert_eq!(seen.iter().filter(|h| **h == Handling::Delivered).count(), 4);
    assert_eq!(seen.iter().filter(|h| **h == Handling::Started).count(), 4);
    let expected = Transaction::from(1, a, b, 40);
    for p in procs.iter_mut() {
        assert_eq!(p.nb_pending(), 1);
        let committed = p.valid();
        assert_eq!(committed.len(), 1);
        assert_eq!(committed[0].transaction, expected);
        assert_eq!(p.history_for(&a).last(), Some(&expected));
        assert_eq!(p.history_for(&b), vec![expected]);
        assert_eq!(p.read(&a), 60);
        assert_eq!(p.read(&b), 40);
        assert_eq!(p.nb_pending(), 0);
    }
    for r in regs.iter() {
        assert_eq!(r.len(), 0);
    }
    assert!(!procs[0].is_ongoing(&a));
}

#[test]
fn second_transfer_while_first_in_progress_is_refused() {
    let ka = keypair(1);
    let kb = keypair(2);
    let (a, b) = (id_of(&ka), id_of(&kb));
    let (mut procs, _) = network(&a);
    assert!(procs[0].transfer(Transfer { sender: a, recipient: b, amount: 10 }, sign_transfer(&ka, &a, &b, 10)).is_ok());
    assert!(procs[0].is_ongoing(&a));
    let second = procs[0].transfer(Transfer { sender: a, recipient: b, amount: 5 }, sign_transfer(&ka, &a, &b, 5));
    assert_eq!(second.unwrap_err(), TransferError::TransferInProgress);
    assert_eq!(TransferError::TransferInProgress.code(), 3);
    assert_eq!(procs[0].nb_pending(), 0);
    assert_eq!(procs[0].read(&a), 100);
}

#[test]
fn forged_message_is_dropped() {
    let ka = keypair(1);
    let kb = keypair(2);
    let (a, b) = (id_of(&ka), id_of(&kb));
    let (mut procs, mut regs) = network(&a);
    let init = procs[0].transfer(Transfer { sender: a, recipient: b, amount: 40 }, sign_transfer(&ka, &a, &b, 40)).unwrap();
    // Claims to come from validator 1 but carries validator 0's signature.
    let mut forged = init.clone();
    forged.message.sender_id = 1;
    let r = deal_with_message(&mut procs[2], forged, &mut regs[2]);
    assert_eq!(r.handling, Handling::Rejected);
    assert!(r.outbound.is_empty());
    assert_eq!(regs[2].len(), 0);
    // Tampered signature bytes.
    let mut tampered = init.clone();
    tampered.signature[0] ^= 1;
    let r = deal_with_message(&mut procs[2], tampered, &mut regs[2]);
    assert_eq!(r.handling, Handling::Rejected);
    assert_eq!(regs[2].len(), 0);
    // Unknown validator.
    let mut unknown = init.clone();
    unknown.message.sender_id = 7;
    assert_eq!(deal_with_message(&mut procs[2], unknown, &mut regs[2]).handling, Handling::Rejected);
    // The genuine message opens the broadcast.
    let r = deal_with_message(&mut procs[2], init, &mut regs[2]);
    assert_eq!(r.handling, Handling::Started);
    assert_eq!(r.outbound.len(), 1);
    assert!(regs[2].contains(&a));
}

#[test]
fn transfer_above_balance_is_refused() {
    let ka = keypair(1);
    let kb = keypair(2);
    let (a, b) = (id_of(&ka), id_of(&kb));
    let (mut procs, _) = network(&a);
    let r = procs[0].transfer(Transfer { sender: a, recipient: b, amount: 101 }, sign_transfer(&ka, &a, &b, 101));
    assert_eq!(r.unwrap_err(), TransferError::InsufficientFunds);
    assert_eq!(TransferError::InsufficientFunds.code(), 2);
    assert!(!procs[0].is_ongoing(&a));
    assert_eq!(procs[0].read(&a), 100);
    assert_eq!(procs[0].get_committed().len(), 1);
}

#[test]
fn transfer_with_bad_client_signature_is_refused() {
    let ka = keypair(1);
    let kb = keypair(2);
    let (a, b) = (id_of(&ka), id_of(&kb));
    let (mut procs, _) = network(&a);
    // Signed by B for A's account.
    let r = procs[0].transfer(Transfer { sender: a, recipient: b, amount: 10 }, sign_transfer(&kb, &a, &b, 10));
    assert_eq!(r.unwrap_err(), TransferError::InvalidSignature);
    // Signature over another amount.
    let r = procs[0].transfer(Transfer { sender: a, recipient: b, amount: 10 }, sign_transfer(&ka, &a, &b, 11));
    assert_eq!(r.unwrap_err(), TransferError::InvalidSignature);
    assert_eq!(TransferError::InvalidSignature.code(), 1);
    assert!(!procs[0].is_ongoing(&a));
}

#[test]
fn admitted_transfer_message_is_signed_and_sequenced() {
    let ka = keypair(1);
    let kb = keypair(2);
    let (a, b) = (id_of(&ka), id_of(&kb));
    let (mut procs, _) = network(&a);
    let init = procs[0].transfer(Transfer { sender: a, recipient: b, amount: 40 }, sign_transfer(&ka, &a, &b, 40)).unwrap();
    assert_eq!(init.message.transaction, Transaction::from(1, a, b, 40));
    assert_eq!(init.message.sender_id, 0);
    // The incoming genesis credit is the dependency of A's first transfer.
    assert_eq!(init.message.dependencies, vec![Transaction::from(1, MINT, a, 100)]);
    assert_eq!(init.signature.len(), 64);
    let key0 = procs[0].get_public_keys()[0];
    let key1 = procs[0].get_public_keys()[1];
    assert!(init.verify(&key0));
    assert!(!init.verify(&key1));
}

#[test]
fn second_transfer_after_commit_uses_next_sequence_number() {
    let ka = keypair(1);
    let kb = keypair(2);
    let (a, b) = (id_of(&ka), id_of(&kb));
    let (mut procs, mut regs) = network(&a);
    let init = procs[0].transfer(Transfer { sender: a, recipient: b, amount: 40 }, sign_transfer(&ka, &a, &b, 40)).unwrap();
    run(&mut procs, &mut regs, init);
    for p in procs.iter_mut() {
        p.valid();
    }
    let next = procs[0].transfer(Transfer { sender: a, recipient: b, amount: 60 }, sign_transfer(&ka, &a, &b, 60)).unwrap();
    assert_eq!(next.message.transaction.seq_id, 2);
    assert!(next.message.dependencies.is_empty());
    run(&mut procs, &mut regs, next);
    for p in procs.iter_mut() {
        assert_eq!(p.valid().len(), 1);
        assert_eq!(p.read(&a), 0);
        assert_eq!(p.read(&b), 100);
        assert_eq!(p.load_seq(&a), 2);
    }
}

#[test]
fn replayed_ready_after_delivery_delivers_nothing() {
    let ka = keypair(1);
    let kb = keypair(2);
    let (a, b) = (id_of(&ka), id_of(&kb));
    let (mut procs, mut regs) = network(&a);
    let init = procs[0].transfer(Transfer { sender: a, recipient: b, amount: 40 }, sign_transfer(&ka, &a, &b, 40)).unwrap();
    let mut queue = vec![init];
    let mut readies = Vec::new();
    while let Some(m) = queue.pop() {
        if m.message.message_type == encoins::message::MessageType::Ready {
            readies.push(m.clone());
        }
        for i in 0..procs.len() {
            let r = deal_with_message(&mut procs[i], m.clone(), &mut regs[i]);
            queue.extend(r.outbound);
        }
    }
    assert_eq!(readies.len(), 4);
    for p in procs.iter() {
        assert_eq!(p.nb_pending(), 1);
    }
    for ready in readies {
        let r = deal_with_message(&mut procs[1], ready, &mut regs[1]);
        assert_eq!(r.handling, Handling::NoInstance);
        assert!(r.outbound.is_empty());
    }
    assert_eq!(procs[1].nb_pending(), 1);
    let delivered = procs[1].valid();
    assert_eq!(delivered.len(), 1);
    assert_eq!(delivered[0].transaction.sender_id, a);
}
