//! The committed history of a ledger and what it determines: balances,
//! sequence numbers, dependencies and the validity of a pending transfer.
use vstd::prelude::*;
use crate::transaction::{Transaction, UserId};
use crate::message::MessageView;

verus! {

/// Whether `a` pays or is paid in `t`.
pub open spec fn involves(t: Transaction, a: UserId) -> bool {
    t.sender_id == a || t.receiver_id == a
}

/// The transactions of `log` in which `a` appears, in commit order.
pub open spec fn history(log: Seq<Transaction>, a: UserId) -> Seq<Transaction>
    decreases log.len(),
{
    if log.len() == 0 {
        Seq::empty()
    } else if involves(log.last(), a) {
        history(log.drop_last(), a).push(log.last())
    } else {
        history(log.drop_last(), a)
    }
}

/// Sum of the amounts that `a` receives in `h`.
pub open spec fn total_received(h: Seq<Transaction>, a: UserId) -> int
    decreases h.len(),
{
    if h.len() == 0 {
        0
    } else {
        total_received(h.drop_last(), a) + if h.last().receiver_id == a {
            h.last().amount as int
        } else {
            0
        }
    }
}

/// Sum of the amounts that `a` sends in `h`.
pub open spec fn total_sent(h: Seq<Transaction>, a: UserId) -> int
    decreases h.len(),
{
    if h.len() == 0 {
        0
    } else {
        total_sent(h.drop_last(), a) + if h.last().sender_id == a {
            h.last().amount as int
        } else {
            0
        }
    }
}

/// Balance of `a` according to `h`: what it received minus what it sent.
pub open spec fn balance(h: Seq<Transaction>, a: UserId) -> int {
    total_received(h, a) - total_sent(h, a)
}

/// The transactions of `log` sent by `a`, in commit order.
pub open spec fn sent_by(log: Seq<Transaction>, a: UserId) -> Seq<Transaction>
    decreases log.len(),
{
    if log.len() == 0 {
        Seq::empty()
    } else if log.last().sender_id == a {
        sent_by(log.drop_last(), a).push(log.last())
    } else {
        sent_by(log.drop_last(), a)
    }
}

/// Number of validated transfers outgoing from `a`.
pub open spec fn seq_of(log: Seq<Transaction>, a: UserId) -> nat {
    sent_by(log, a).len()
}

/// The transactions of `s` that pay `a`, in order.
pub open spec fn incoming(s: Seq<Transaction>, a: UserId) -> Seq<Transaction>
    decreases s.len(),
{
    if s.len() == 0 {
        Seq::empty()
    } else if s.last().receiver_id == a {
        incoming(s.drop_last(), a).push(s.last())
    } else {
        incoming(s.drop_last(), a)
    }
}

/// Index just after the last transaction of `log` sent by `a` (0 if none).
pub open spec fn deps_start(log: Seq<Transaction>, a: UserId) -> nat
    decreases log.len(),
{
    if log.len() == 0 {
        0
    } else if log.last().sender_id == a {
        log.len()
    } else {
        deps_start(log.drop_last(), a)
    }
}

/// The most recent incoming transfers of `a` not yet folded into its
/// history: those committed after its last outgoing transfer.
pub open spec fn deps_of(log: Seq<Transaction>, a: UserId) -> Seq<Transaction> {
    incoming(log.subrange(deps_start(log, a) as int, log.len() as int), a)
}

/// Every dependency that `m` lists is in its sender's committed history.
pub open spec fn deps_closed(log: Seq<Transaction>, m: MessageView) -> bool {
    forall|i: int|
        0 <= i < m.dependencies.len() ==> #[trigger] history(log, m.transaction.sender_id).contains(
            m.dependencies[i],
        )
}

/// Whether the transfer that `m` carries may be committed after `log`:
/// it is the next one of its sender, its sender can pay it, and its
/// dependencies are committed.
pub open spec fn valid_against(log: Seq<Transaction>, m: MessageView) -> bool {
    let a = m.transaction.sender_id;
    &&& m.transaction.seq_id == seq_of(log, a) + 1
    &&& balance(history(log, a), a) >= m.transaction.amount
    &&& deps_closed(log, m)
}

/// The transactions that the messages of `ms` carry.
pub open spec fn carried(ms: Seq<MessageView>) -> Seq<Transaction> {
    Seq::new(ms.len(), |i: int| ms[i].transaction)
}

/// Each message of `ms` is valid against `log` followed by the
/// transactions of the messages before it.
pub open spec fn commit_chain(log: Seq<Transaction>, ms: Seq<MessageView>) -> bool
    decreases ms.len(),
{
    if ms.len() == 0 {
        true
    } else {
        commit_chain(log, ms.drop_last()) && valid_against(log + carried(ms.drop_last()), ms.last())
    }
}

/// The sequence numbers of the transfers sent by `a` are 1, 2, 3, ...
pub open spec fn gap_free(log: Seq<Transaction>, a: UserId) -> bool {
    forall|i: int| 0 <= i < sent_by(log, a).len() ==> #[trigger] sent_by(log, a)[i].seq_id == i + 1
}

proof fn lemma_history_push(log: Seq<Transaction>, t: Transaction, a: UserId)
    ensures
        history(log.push(t), a) == if involves(t, a) {
            history(log, a).push(t)
        } else {
            history(log, a)
        },
        sent_by(log.push(t), a) == if t.sender_id == a {
            sent_by(log, a).push(t)
        } else {
            sent_by(log, a)
        },
{
    assert(log.push(t).drop_last() =~= log);
}

proof fn lemma_balance_push(h: Seq<Transaction>, t: Transaction, a: UserId)
    ensures
        balance(h.push(t), a) == balance(h, a) + (if t.receiver_id == a {
            t.amount as int
        } else {
            0
        }) - (if t.sender_id == a {
            t.amount as int
        } else {
            0
        }),
{
    assert(h.push(t).drop_last() =~= h);
}

/// Committing a transaction that its sender can pay leaves every balance
/// that was not negative not negative.
pub proof fn lemma_commit_keeps_solvency(log: Seq<Transaction>, t: Transaction, a: UserId)
    requires
        balance(history(log, t.sender_id), t.sender_id) >= t.amount,
        balance(history(log, a), a) >= 0,
    ensures
        balance(history(log.push(t), a), a) >= 0,
{
    lemma_history_push(log, t, a);
    if involves(t, a) {
        lemma_balance_push(history(log, a), t, a);
    }
}

/// Committing the next transaction of its sender keeps every account's
/// sequence numbers gap-free.
pub proof fn lemma_commit_keeps_sequencing(log: Seq<Transaction>, t: Transaction, a: UserId)
    requires
        t.seq_id == seq_of(log, t.sender_id) + 1,
        gap_free(log, a),
    ensures
        gap_free(log.push(t), a),
{
    lemma_history_push(log, t, a);
    if t.sender_id == a {
        assert forall|i: int| 0 <= i < sent_by(log.push(t), a).len() implies #[trigger] sent_by(log.push(t), a)[i].seq_id
            == i + 1 by {
            if i < sent_by(log, a).len() {
                assert(sent_by(log.push(t), a)[i] == sent_by(log, a)[i]);
            }
        }
    }
}

/// Solvency: after a chain of valid commits, every account whose balance
/// was not negative still has a balance that is not negative.
pub proof fn lemma_solvency_preserved(log: Seq<Transaction>, ms: Seq<MessageView>, a: UserId)
    requires
        commit_chain(log, ms),
        balance(history(log, a), a) >= 0,
    ensures
        balance(history(log + carried(ms), a), a) >= 0,
    decreases ms.len(),
{
    if ms.len() == 0 {
        assert(log + carried(ms) =~= log);
    } else {
        let prev = ms.drop_last();
        lemma_solvency_preserved(log, prev, a);
        assert(log + carried(ms) =~= (log + carried(prev)).push(ms.last().transaction));
        lemma_commit_keeps_solvency(log + carried(prev), ms.last().transaction, a);
    }
}

/// Sequencing: after a chain of valid commits, every account whose sent
/// transfers were numbered 1, 2, 3, ... still has them so numbered.
pub proof fn lemma_sequencing_preserved(log: Seq<Transaction>, ms: Seq<MessageView>, a: UserId)
    requires
        commit_chain(log, ms),
        gap_free(log, a),
    ensures
        gap_free(log + carried(ms), a),
    decreases ms.len(),
{
    if ms.len() == 0 {
        assert(log + carried(ms) =~= log);
    } else {
        let prev = ms.drop_last();
        lemma_sequencing_preserved(log, prev, a);
        assert(log + carried(ms) =~= (log + carried(prev)).push(ms.last().transaction));
        lemma_commit_keeps_sequencing(log + carried(prev), ms.last().transaction, a);
    }
}

} // verus!
