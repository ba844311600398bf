//! Canonical, versioned byte encoding of messages and client transfers:
//! what validators and clients sign and verify.
use vstd::prelude::*;
use crate::transaction::{Currency, Transaction, UserId};
use crate::message::{Message, MessageType, MessageView};

verus! {

/// Version byte that opens every encoding.
pub const FORMAT_VERSION: u8 = 1;

/// Little-endian bytes of a 32-bit integer.
pub open spec fn u32_bytes(x: u32) -> Seq<u8> {
    seq![
        (x % 256) as u8,
        ((x / 256) % 256) as u8,
        ((x / 65536) % 256) as u8,
        ((x / 16777216) % 256) as u8,
    ]
}

/// Little-endian bytes of a 64-bit integer.
pub open spec fn u64_bytes(x: u64) -> Seq<u8> {
    u32_bytes((x % 4294967296) as u32) + u32_bytes((x / 4294967296) as u32)
}

/// Tag byte of a broadcast phase.
pub open spec fn type_tag(t: MessageType) -> u8 {
    match t {
        MessageType::Init => 0,
        MessageType::Echo => 1,
        MessageType::Ready => 2,
    }
}

/// Sequence number, sender, receiver and amount, in that order.
pub open spec fn transaction_bytes(t: Transaction) -> Seq<u8> {
    u32_bytes(t.seq_id) + t.sender_id@ + t.receiver_id@ + u32_bytes(t.amount)
}

/// The encodings of the transactions of `s`, one after the other.
pub open spec fn transactions_bytes(s: Seq<Transaction>) -> Seq<u8>
    decreases s.len(),
{
    if s.len() == 0 {
        Seq::empty()
    } else {
        transactions_bytes(s.drop_last()) + transaction_bytes(s.last())
    }
}

/// Version, phase tag, relaying validator, transaction, number of
/// dependencies and the dependencies.
pub open spec fn message_bytes(m: MessageView) -> Seq<u8> {
    seq![FORMAT_VERSION, type_tag(m.message_type)] + u32_bytes(m.sender_id) + transaction_bytes(m.transaction)
        + u64_bytes(m.dependencies.len() as u64) + transactions_bytes(m.dependencies)
}

/// Version, sender, recipient and amount of a client's transfer request.
pub open spec fn transfer_bytes(sender: UserId, recipient: UserId, amount: Currency) -> Seq<u8> {
    seq![FORMAT_VERSION] + sender@ + recipient@ + u32_bytes(amount)
}

fn push_u32(out: &mut Vec<u8>, x: u32)
    ensures
        final(out)@ == old(out)@ + u32_bytes(x),
{
    out.push((x % 256) as u8);
    out.push(((x / 256) % 256) as u8);
    out.push(((x / 65536) % 256) as u8);
    out.push(((x / 16777216) % 256) as u8);
    assert(final(out)@ =~= old(out)@ + u32_bytes(x));
}

fn push_u64(out: &mut Vec<u8>, x: u64)
    ensures
        final(out)@ == old(out)@ + u64_bytes(x),
{
    push_u32(out, (x % 4294967296) as u32);
    push_u32(out, (x / 4294967296) as u32);
    assert(final(out)@ =~= old(out)@ + u64_bytes(x));
}

fn push_id(out: &mut Vec<u8>, id: &UserId)
    ensures
        final(out)@ == old(out)@ + id@,
{
    let ghost start = out@;
    let mut i: usize = 0;
    while i < 32
        invariant
            i <= 32,
            out@ == start + id@.subrange(0, i as int),
        decreases 32 - i,
    {
        out.push(id[i]);
        i = i + 1;
        assert(out@ =~= start + id@.subrange(0, i as int));
    }
    assert(id@.subrange(0, 32) =~= id@);
}

fn push_transaction(out: &mut Vec<u8>, t: &Transaction)
    ensures
        final(out)@ == old(out)@ + transaction_bytes(*t),
{
    push_u32(out, t.seq_id);
    push_id(out, &t.sender_id);
    push_id(out, &t.receiver_id);
    push_u32(out, t.amount);
    assert(final(out)@ =~= old(out)@ + transaction_bytes(*t));
}

/// Canonical encoding of a message.
pub fn encode_message(m: &Message) -> (r: Vec<u8>)
    ensures
        r@ == message_bytes(m@),
{
    let mut out: Vec<u8> = Vec::new();
    out.push(FORMAT_VERSION);
    let tag: u8 = match m.message_type {
        MessageType::Init => 0,
        MessageType::Echo => 1,
        MessageType::Ready => 2,
    };
    out.push(tag);
    push_u32(&mut out, m.sender_id);
    push_transaction(&mut out, &m.transaction);
    push_u64(&mut out, m.dependencies.len() as u64);
    let ghost head = out@;
    let mut i: usize = 0;
    while i < m.dependencies.len()
        invariant
            i <= m.dependencies.len(),
            out@ == head + transactions_bytes(m.dependencies@.subrange(0, i as int)),
        decreases m.dependencies.len() - i,
    {
        push_transaction(&mut out, &m.dependencies[i]);
        i = i + 1;
        assert(m.dependencies@.subrange(0, i as int).drop_last() =~= m.dependencies@.subrange(0, i - 1));
        assert(out@ =~= head + transactions_bytes(m.dependencies@.subrange(0, i as int)));
    }
    assert(m.dependencies@.subrange(0, i as int) =~= m.dependencies@);
    assert(out@ =~= message_bytes(m@));
    out
}

/// Canonical encoding of a client's transfer request: what its sender signs.
pub fn encode_transfer(sender: &UserId, recipient: &UserId, amount: Currency) -> (r: Vec<u8>)
    ensures
        r@ == transfer_bytes(*sender, *recipient, amount),
{
    let mut out: Vec<u8> = Vec::new();
    out.push(FORMAT_VERSION);
    push_id(&mut out, sender);
    push_id(&mut out, recipient);
    push_u32(&mut out, amount);
    assert(out@ =~= transfer_bytes(*sender, *recipient, amount));
    out
}

} // verus!
