use encoins::broadcast::{init_broadcast, AddOutcome};
use encoins::message::{Message, MessageType};
use encoins::transaction::Transaction;

fn msg(kind: MessageType, from: u32, amount: u32) -> Message {
    Message {
        transaction: Transaction::from(1, [1u8; 32], [2u8; 32], amount),
        dependencies: vec![],
        message_type: kind,
        sender_id: from,
    }
}

#[test]
fn fresh_instance_has_no_flags() {
    let b = init_broadcast(0, 4);
    assert!(!b.is_ready());
    assert!(!b.ready_message_sent());
    assert!(!b.quorum_found());
}

#[test]
fn three_echoes_of_four_make_ready() {
    let mut b = init_broadcast(0, 4);
    assert_eq!(b.add_message(msg(MessageType::Echo, 0, 40)), AddOutcome::EchoReceived);
    assert_eq!(b.add_message(msg(MessageType::Echo, 1, 40)), AddOutcome::EchoReceived);
    assert!(!b.is_ready());
    b.add_message(msg(MessageType::Echo, 2, 40));
    assert!(b.is_ready());
    assert!(!b.quorum_found());
}

#[test]
fn two_readies_of_four_make_ready_and_three_deliver() {
    let mut b = init_broadcast(0, 4);
    assert_eq!(b.add_message(msg(MessageType::Ready, 1, 40)), AddOutcome::ReadyReceived);
    assert!(!b.is_ready());
    b.add_message(msg(MessageType::Ready, 2, 40));
    assert!(b.is_ready());
    assert!(!b.quorum_found());
    b.add_message(msg(MessageType::Ready, 3, 40));
    assert!(b.quorum_found());
}

#[test]
fn divergent_payloads_reach_no_quorum() {
    let mut b = init_broadcast(0, 4);
    b.add_message(msg(MessageType::Echo, 0, 40));
    b.add_message(msg(MessageType::Echo, 1, 41));
    b.add_message(msg(MessageType::Echo, 2, 40));
    assert!(!b.is_ready());
    b.add_message(msg(MessageType::Ready, 0, 40));
    b.add_message(msg(MessageType::Ready, 1, 41));
    b.add_message(msg(MessageType::Ready, 2, 42));
    assert!(!b.quorum_found());
}

#[test]
fn first_echo_of_a_validator_stays() {
    let mut b = init_broadcast(0, 4);
    b.add_message(msg(MessageType::Echo, 0, 40));
    b.add_message(msg(MessageType::Echo, 1, 41));
    // A second echo from validator 1 does not replace its first.
    b.add_message(msg(MessageType::Echo, 1, 40));
    b.add_message(msg(MessageType::Echo, 2, 40));
    assert!(!b.is_ready());
    b.add_message(msg(MessageType::Echo, 3, 40));
    assert!(b.is_ready());
}

#[test]
fn init_and_unknown_senders_are_ignored() {
    let mut b = init_broadcast(0, 4);
    assert_eq!(b.add_message(msg(MessageType::Init, 0, 40)), AddOutcome::UnexpectedInit);
    assert_eq!(b.add_message(msg(MessageType::Echo, 4, 40)), AddOutcome::UnknownSender);
    assert_eq!(b.add_message(msg(MessageType::Ready, 9, 40)), AddOutcome::UnknownSender);
    b.add_message(msg(MessageType::Ready, 0, 40));
    b.add_message(msg(MessageType::Ready, 1, 40));
    assert!(!b.quorum_found());
}

#[test]
fn ready_sent_flag_is_recorded() {
    let mut b = init_broadcast(2, 4);
    b.set_ready_message_sent(true);
    assert!(b.ready_message_sent());
    b.set_ready_message_sent(false);
    assert!(!b.ready_message_sent());
}

#[test]
fn single_validator_delivers_alone() {
    let mut b = init_broadcast(0, 1);
    b.add_message(msg(MessageType::Echo, 0, 5));
    assert!(b.is_ready());
    b.add_message(msg(MessageType::Ready, 0, 5));
    assert!(b.quorum_found());
}

#[test]
fn seven_validators_need_five_echoes() {
    let mut b = init_broadcast(0, 7);
    for i in 0..4 {
        b.add_message(msg(MessageType::Echo, i, 5));
    }
    assert!(!b.is_ready());
    b.add_message(msg(MessageType::Echo, 4, 5));
    assert!(b.is_ready());
}

#[test]
fn quorum_once_found_stays_found() {
    let mut b = init_broadcast(0, 4);
    b.add_message(msg(MessageType::Ready, 0, 40));
    b.add_message(msg(MessageType::Ready, 1, 40));
    b.add_message(msg(MessageType::Ready, 2, 40));
    assert!(b.quorum_found());
    b.add_message(msg(MessageType::Echo, 3, 41));
    assert!(b.quorum_found());
    b.add_message(msg(MessageType::Ready, 3, 42));
    assert!(b.quorum_found());
    assert!(b.is_ready());
}
