//! Routing of signed messages to the broadcast instance of their account.
use vstd::prelude::*;
use crate::broadcast::{
    after_message, count_true, init_broadcast, lemma_ready_quorums_agree, max_faulty, Broadcast,
    BroadcastView,
};
use crate::codec::message_bytes;
use crate::crypto::{ed25519_signature, is_authentic};
use crate::message::{MessageType, MessageView, SignedMessage};
use crate::process::Process;
use crate::transaction::ProcId;
use crate::transaction::UserId;

verus! {

/// The live broadcast instances of a validator, at most one per account.
pub struct BroadcastRegistry {
    instances: Vec<(UserId, Broadcast)>,
}

/// Model of a list of instances.
pub open spec fn entries_view(v: Seq<(UserId, Broadcast)>) -> Seq<(UserId, BroadcastView)> {
    Seq::new(v.len(), |i: int| (v[i].0, v[i].1@))
}

/// The instance of account `a` in `entries`, if any.
pub open spec fn lookup(entries: Seq<(UserId, BroadcastView)>, a: UserId) -> Option<BroadcastView>
    decreases entries.len(),
{
    if entries.len() == 0 {
        None
    } else if entries.last().0 == a {
        Some(entries.last().1)
    } else {
        lookup(entries.drop_last(), a)
    }
}

proof fn lemma_lookup_index(entries: Seq<(UserId, BroadcastView)>, i: int)
    requires
        0 <= i < entries.len(),
        forall|j: int, k: int| 0 <= j < k < entries.len() ==> entries[j].0 != entries[k].0,
    ensures
        lookup(entries, entries[i].0) == Some(entries[i].1),
    decreases entries.len(),
{
    if i < entries.len() - 1 {
        lemma_lookup_index(entries.drop_last(), i);
    }
}

proof fn lemma_lookup_absent(entries: Seq<(UserId, BroadcastView)>, a: UserId)
    requires
        forall|j: int| 0 <= j < entries.len() ==> entries[j].0 != a,
    ensures
        lookup(entries, a) is None,
    decreases entries.len(),
{
    if entries.len() > 0 {
        lemma_lookup_absent(entries.drop_last(), a);
    }
}

proof fn lemma_lookup_remove(entries: Seq<(UserId, BroadcastView)>, i: int, a: UserId)
    requires
        0 <= i < entries.len(),
        forall|j: int, k: int| 0 <= j < k < entries.len() ==> entries[j].0 != entries[k].0,
    ensures
        lookup(entries.remove(i), a) == if a == entries[i].0 {
            None
        } else {
            lookup(entries, a)
        },
    decreases entries.len(),
{
    let r = entries.remove(i);
    if a == entries[i].0 {
        lemma_lookup_absent(r, a);
    } else if i == entries.len() - 1 {
        assert(r =~= entries.drop_last());
    } else {
        assert(r.drop_last() =~= entries.drop_last().remove(i));
        assert(r.last() == entries.last());
        lemma_lookup_remove(entries.drop_last(), i, a);
    }
}

proof fn lemma_lookup_no_quorum(entries: Seq<(UserId, BroadcastView)>, a: UserId)
    requires
        forall|j: int| 0 <= j < entries.len() ==> !(#[trigger] entries[j]).1.quorum_achieved,
    ensures
        lookup(entries, a) matches Some(b) ==> !b.quorum_achieved,
    decreases entries.len(),
{
    if entries.len() > 0 {
        assert(!entries[entries.len() - 1].1.quorum_achieved);
        lemma_lookup_no_quorum(entries.drop_last(), a);
    }
}

/// A fresh instance of validator `id` among `n`.
pub open spec fn fresh_instance(b: BroadcastView, id: nat, n: nat) -> bool {
    &&& b.nb_procs == n
    &&& b.proc_id == id
    &&& b.echos.len() == n
    &&& b.ready.len() == n
    &&& forall|i: int| 0 <= i < n ==> b.echos[i] is None && b.ready[i] is None
    &&& !b.quorum_achieved
    &&& !b.is_ready
    &&& !b.ready_message_sent
}

impl BroadcastRegistry {
    /// Model: the account and instance state of each live instance.
    pub closed spec fn entries(&self) -> Seq<(UserId, BroadcastView)> {
        entries_view(self.instances@)
    }

    /// The live instance of account `a`, if any.
    pub open spec fn instance(&self, a: UserId) -> Option<BroadcastView> {
        lookup(self.entries(), a)
    }

    /// At most one instance per account, and none that has found a quorum
    /// (it would have delivered and been closed).
    #[verifier::type_invariant]
    spec fn wf(&self) -> bool {
        &&& forall|j: int, k: int| 0 <= j < k < self.instances.len() ==> self.instances@[j].0 != self.instances@[k].0
        &&& forall|j: int| 0 <= j < self.instances.len() ==> !(#[trigger] self.instances@[j]).1@.quorum_achieved
    }

    /// No instance.
    pub fn new() -> (r: BroadcastRegistry)
        ensures
            forall|a: UserId| r.instance(a) is None,
    {
        let r = BroadcastRegistry { instances: Vec::new() };
        assert forall|a: UserId| r.instance(a) is None by {
            lemma_lookup_absent(r.entries(), a);
        }
        r
    }

    /// Number of live instances.
    pub fn len(&self) -> (r: usize)
        ensures
            r == self.entries().len(),
    {
        self.instances.len()
    }

    /// Whether account `a` has a live instance.
    pub fn contains(&self, a: &UserId) -> (r: bool)
        ensures
            r == self.instance(*a) is Some,
    {
        match self.find(a) {
            Some(_) => true,
            None => false,
        }
    }

    fn find(&self, a: &UserId) -> (r: Option<usize>)
        ensures
            match r {
                Some(i) => i < self.instances.len() && self.instances@[i as int].0 == *a && self.instance(*a) == Some(
                    self.instances@[i as int].1@,
                ),
                None => self.instance(*a) is None,
            },
    {
        proof {
            use_type_invariant(self);
        }
        let mut i: usize = 0;
        while i < self.instances.len()
            invariant
                i <= self.instances.len(),
                forall|j: int, k: int|
                    0 <= j < k < self.instances.len() ==> self.instances@[j].0 != self.instances@[k].0,
                forall|j: int| 0 <= j < i ==> self.instances@[j].0 != *a,
            decreases self.instances.len() - i,
        {
            if crate::transaction::same_id(&self.instances[i].0, a) {
                proof {
                    lemma_lookup_index(self.entries(), i as int);
                }
                return Some(i);
            }
            i = i + 1;
        }
        proof {
            lemma_lookup_absent(self.entries(), *a);
        }
        None
    }

    /// Takes the instance of account `a` out of the registry.
    fn take(&mut self, a: &UserId) -> (r: Option<Broadcast>)
        ensures
            match r {
                Some(b) => old(self).instance(*a) == Some(b@) && !b@.quorum_achieved,
                None => old(self).instance(*a) is None,
            },
            forall|x: UserId| #[trigger] final(self).instance(x) == if x == *a {
                None
            } else {
                old(self).instance(x)
            },
    {
        match self.find(a) {
            None => {
                proof {
                    assert forall|x: UserId| #[trigger] self.instance(x) == if x == *a {
                        None
                    } else {
                        old(self).instance(x)
                    } by {}
                }
                None
            },
            Some(i) => {
                proof {
                    use_type_invariant(&*self);
                }
                let ghost before = self.instances@;
                proof {
                    lemma_lookup_index(entries_view(before), i as int);
                }
                let mut taken = BroadcastRegistry { instances: Vec::new() };
                std::mem::swap(self, &mut taken);
                let BroadcastRegistry { mut instances } = taken;
                let (_, b) = instances.remove(i);
                proof {
                    assert forall|j: int, k: int| 0 <= j < k < instances.len() implies instances@[j].0 != instances@[k].0 by {
                        let jj = if j >= i { j + 1 } else { j };
                        let kk = if k >= i { k + 1 } else { k };
                        assert(instances@[j] == before[jj] && instances@[k] == before[kk]);
                    }
                    assert forall|j: int| 0 <= j < instances.len() implies !(#[trigger] instances@[j]).1@.quorum_achieved by {
                        let jj = if j >= i { j + 1 } else { j };
                        assert(instances@[j] == before[jj]);
                    }
                    assert(!before[i as int].1@.quorum_achieved);
                }
                *self = BroadcastRegistry { instances };
                proof {
                    assert(entries_view(self.instances@) =~= entries_view(before).remove(i as int));
                    assert forall|x: UserId| #[trigger] self.instance(x) == if x == *a {
                        None
                    } else {
                        old(self).instance(x)
                    } by {
                        lemma_lookup_remove(entries_view(before), i as int, x);
                    }
                }
                Some(b)
            },
        }
    }

    /// Makes `b` the instance of account `a`, which has none.
    fn put(&mut self, a: UserId, b: Broadcast)
        requires
            old(self).instance(a) is None,
            !b@.quorum_achieved,
        ensures
            forall|x: UserId| #[trigger] final(self).instance(x) == if x == a {
                Some(b@)
            } else {
                old(self).instance(x)
            },
    {
        proof {
            use_type_invariant(&*self);
        }
        let ghost before = self.instances@;
        proof {
            assert forall|j: int| 0 <= j < before.len() implies before[j].0 != a by {
                lemma_lookup_index(entries_view(before), j);
            }
        }
        let mut taken = BroadcastRegistry { instances: Vec::new() };
        std::mem::swap(self, &mut taken);
        let BroadcastRegistry { mut instances } = taken;
        let ghost bv = b@;
        instances.push((a, b));
        proof {
            assert forall|j: int, k: int| 0 <= j < k < instances.len() implies instances@[j].0 != instances@[k].0 by {
                if k == before.len() {
                    assert(instances@[j] == before[j]);
                }
            }
            assert forall|j: int| 0 <= j < instances.len() implies !(#[trigger] instances@[j]).1@.quorum_achieved by {
                if j < before.len() {
                    assert(instances@[j] == before[j]);
                }
            }
        }
        *self = BroadcastRegistry { instances };
        proof {
            assert(entries_view(self.instances@) =~= entries_view(before).push((a, bv)));
            assert(entries_view(self.instances@).drop_last() =~= entries_view(before));
        }
    }
}

/// What a validator did with a signed message.
#[derive(Clone, Copy, Debug, PartialEq, Eq, Structural)]
pub enum Handling {
    /// The relaying validator is unknown or its signature does not verify:
    /// the message was dropped.
    Rejected,
    /// An Init for an account whose broadcast is running: dropped.
    DuplicateBroadcast,
    /// An Init opened a broadcast; an Echo goes out.
    Started,
    /// An Echo or a Ready for an account with no running broadcast: dropped.
    NoInstance,
    /// An Echo or a Ready was taken into account.
    Recorded,
    /// A quorum of Readies delivered the transfer to the ledger and closed
    /// the broadcast.
    Delivered,
}

/// What handling a message produced: the messages to broadcast to every
/// validator, and what happened.
pub struct Reaction {
    pub outbound: Vec<SignedMessage>,
    pub handling: Handling,
}

/// Whether `s` comes from a validator of `keys` and carries that
/// validator's valid signature.
pub open spec fn authentic_from(keys: Seq<UserId>, s: SignedMessage) -> bool {
    s.message.sender_id < keys.len() && is_authentic(s, keys[s.message.sender_id as int])
}

/// `m` re-broadcast by validator `id` in phase `t`.
pub open spec fn relayed(m: MessageView, t: MessageType, id: ProcId) -> MessageView {
    MessageView { message_type: t, sender_id: id, ..m }
}

/// Models of the messages of signed messages.
pub open spec fn outbound_view(v: Seq<SignedMessage>) -> Seq<MessageView> {
    Seq::new(v.len(), |i: int| v[i].message@)
}

/// What handling the signed message `s` does, on a validator `id` whose
/// validators have the keys `keys`, to the broadcast instance of the
/// account that pays in `s` (`before`, then `after`) and to the pending
/// queue of the ledger; `handling` is what it reports and `outbound` what it
/// has broadcast.
pub open spec fn handled(
    keys: Seq<UserId>,
    id: ProcId,
    s: SignedMessage,
    before: Option<BroadcastView>,
    after: Option<BroadcastView>,
    pending_before: Seq<MessageView>,
    pending_after: Seq<MessageView>,
    handling: Handling,
    outbound: Seq<MessageView>,
) -> bool {
    let m = s.message@;
    if !authentic_from(keys, s) {
        &&& handling == Handling::Rejected
        &&& after == before
        &&& pending_after == pending_before
        &&& outbound.len() == 0
    } else if m.message_type == MessageType::Init {
        &&& pending_after == pending_before
        &&& if before is Some {
            &&& handling == Handling::DuplicateBroadcast
            &&& after == before
            &&& outbound.len() == 0
        } else {
            &&& handling == Handling::Started
            &&& after matches Some(b) && fresh_instance(b, id as nat, keys.len())
            &&& outbound == seq![relayed(m, MessageType::Echo, id)]
        }
    } else {
        match before {
            None => {
                &&& handling == Handling::NoInstance
                &&& after is None
                &&& pending_after == pending_before
                &&& outbound.len() == 0
            },
            Some(b) => {
                let b1 = after_message(b, m);
                let send_ready = b1.is_ready && !b1.ready_message_sent;
                &&& outbound == if send_ready {
                    seq![relayed(m, MessageType::Ready, id)]
                } else {
                    Seq::empty()
                }
                &&& if b1.quorum_achieved {
                    &&& handling == Handling::Delivered
                    &&& after is None
                    &&& pending_after == pending_before.push(m)
                } else {
                    &&& handling == Handling::Recorded
                    &&& after == Some(BroadcastView { ready_message_sent: b1.ready_message_sent || send_ready, ..b1 })
                    &&& pending_after == pending_before
                }
            },
        }
    }
}

/// Integrity: a message is delivered only by a running broadcast of the
/// account that pays in it, which then closes; the delivered transfer is
/// paid by that account.
pub proof fn lemma_delivery_integrity(
    keys: Seq<UserId>,
    id: ProcId,
    s: SignedMessage,
    before: Option<BroadcastView>,
    after: Option<BroadcastView>,
    pending_before: Seq<MessageView>,
    pending_after: Seq<MessageView>,
    outbound: Seq<MessageView>,
)
    requires
        handled(keys, id, s, before, after, pending_before, pending_after, Handling::Delivered, outbound),
    ensures
        authentic_from(keys, s),
        before is Some,
        after is None,
        pending_after == pending_before.push(s.message@),
        pending_after.last().transaction.sender_id == s.message.transaction.sender_id,
{
}

/// Agreement of deliveries. Take two calls, on two validators of the same
/// set of `n`, that deliver from running broadcasts (which, running, had not
/// found a quorum). Suppose the Ready tables that the two broadcasts reach
/// hold the same message in the slot of every correct validator wherever
/// both are filled (a correct validator sends a single Ready to everyone),
/// and at most `(n - 1) / 3` validators are Byzantine. Then the two
/// delivered messages carry the same transaction and dependencies.
pub proof fn lemma_deliveries_agree(
    keys: Seq<UserId>,
    id1: ProcId,
    id2: ProcId,
    s1: SignedMessage,
    s2: SignedMessage,
    b1: BroadcastView,
    b2: BroadcastView,
    after1: Option<BroadcastView>,
    after2: Option<BroadcastView>,
    p1: Seq<MessageView>,
    q1: Seq<MessageView>,
    p2: Seq<MessageView>,
    q2: Seq<MessageView>,
    o1: Seq<MessageView>,
    o2: Seq<MessageView>,
    faulty: Seq<bool>,
)
    requires
        handled(keys, id1, s1, Some(b1), after1, p1, q1, Handling::Delivered, o1),
        handled(keys, id2, s2, Some(b2), after2, p2, q2, Handling::Delivered, o2),
        !b1.quorum_achieved,
        !b2.quorum_achieved,
        b1.nb_procs == b2.nb_procs,
        b1.ready.len() == b1.nb_procs,
        b2.ready.len() == b2.nb_procs,
        faulty.len() == b1.nb_procs,
        count_true(faulty) <= max_faulty(b1.nb_procs),
        forall|i: int|
            0 <= i < b1.nb_procs && !faulty[i] && after_message(b1, s1.message@).ready[i] is Some && after_message(
                b2,
                s2.message@,
            ).ready[i] is Some ==> #[trigger] after_message(b1, s1.message@).ready[i] == #[trigger] after_message(
                b2,
                s2.message@,
            ).ready[i],
    ensures
        q1 == p1.push(s1.message@),
        q2 == p2.push(s2.message@),
        s1.message.transaction == s2.message.transaction,
        s1.message.dependencies@ == s2.message.dependencies@,
{
    let r1 = after_message(b1, s1.message@).ready;
    let r2 = after_message(b2, s2.message@).ready;
    lemma_ready_quorums_agree(r1, r2, faulty, s1.message@, s2.message@);
}

/// The calls that handle `msgs`, in order, on one validator, as far as the
/// account `a` is concerned: every message is about a transfer paid by `a`;
/// call `k` takes the instance of `a` from `insts[k]` to `insts[k + 1]`
/// (calls for other accounts in between leave it alone), takes the pending
/// queue from `before[k]` to `after[k]`, reports `hs[k]` and broadcasts
/// `outs[k]`.
pub open spec fn run_for(
    keys: Seq<UserId>,
    id: ProcId,
    a: UserId,
    msgs: Seq<SignedMessage>,
    insts: Seq<Option<BroadcastView>>,
    before: Seq<Seq<MessageView>>,
    after: Seq<Seq<MessageView>>,
    hs: Seq<Handling>,
    outs: Seq<Seq<MessageView>>,
) -> bool {
    &&& insts.len() == msgs.len() + 1
    &&& before.len() == msgs.len()
    &&& after.len() == msgs.len()
    &&& hs.len() == msgs.len()
    &&& outs.len() == msgs.len()
    &&& forall|k: int| 0 <= k < msgs.len() ==> (#[trigger] msgs[k]).message.transaction.sender_id == a
    &&& forall|k: int|
        0 <= k < msgs.len() ==> #[trigger] handled(keys, id, msgs[k], insts[k], insts[k + 1], before[k], after[k], hs[k], outs[k])
}

proof fn lemma_closed_after_delivery(
    keys: Seq<UserId>,
    id: ProcId,
    a: UserId,
    msgs: Seq<SignedMessage>,
    insts: Seq<Option<BroadcastView>>,
    before: Seq<Seq<MessageView>>,
    after: Seq<Seq<MessageView>>,
    hs: Seq<Handling>,
    outs: Seq<Seq<MessageView>>,
    j: int,
    k: int,
)
    requires
        run_for(keys, id, a, msgs, insts, before, after, hs, outs),
        forall|i: int| 0 < i < msgs.len() ==> #[trigger] hs[i] != Handling::Started,
        0 <= j < k <= msgs.len(),
        hs[j] == Handling::Delivered,
    ensures
        insts[k] is None,
    decreases k - j,
{
    if k == j + 1 {
        assert(handled(keys, id, msgs[j], insts[j], insts[j + 1], before[j], after[j], hs[j], outs[j]));
    } else {
        lemma_closed_after_delivery(keys, id, a, msgs, insts, before, after, hs, outs, j, k - 1);
        let i = k - 1;
        assert(handled(keys, id, msgs[i], insts[i], insts[i + 1], before[i], after[i], hs[i], outs[i]));
        assert(hs[i] != Handling::Started);
    }
}

/// No duplication over a round: in a run of calls about the transfers of
/// one account in which no call opens a new broadcast after the first, at
/// most one call delivers; every other call leaves the pending queue as it
/// found it; and after the delivery the account has no running broadcast.
pub proof fn lemma_one_delivery_per_round(
    keys: Seq<UserId>,
    id: ProcId,
    a: UserId,
    msgs: Seq<SignedMessage>,
    insts: Seq<Option<BroadcastView>>,
    before: Seq<Seq<MessageView>>,
    after: Seq<Seq<MessageView>>,
    hs: Seq<Handling>,
    outs: Seq<Seq<MessageView>>,
)
    requires
        run_for(keys, id, a, msgs, insts, before, after, hs, outs),
        forall|i: int| 0 < i < msgs.len() ==> #[trigger] hs[i] != Handling::Started,
    ensures
        forall|j: int, k: int|
            0 <= j < k < msgs.len() && #[trigger] hs[j] == Handling::Delivered ==> #[trigger] hs[k]
                != Handling::Delivered,
        forall|k: int| 0 <= k < msgs.len() && #[trigger] hs[k] != Handling::Delivered ==> after[k] == before[k],
        forall|j: int, k: int|
            0 <= j < k <= msgs.len() && #[trigger] hs[j] == Handling::Delivered ==> (#[trigger] insts[k]) is None,
{
    assert forall|j: int, k: int|
        0 <= j < k <= msgs.len() && #[trigger] hs[j] == Handling::Delivered implies (#[trigger] insts[k]) is None by {
        lemma_closed_after_delivery(keys, id, a, msgs, insts, before, after, hs, outs, j, k);
    }
    assert forall|j: int, k: int|
        0 <= j < k < msgs.len() && #[trigger] hs[j] == Handling::Delivered implies #[trigger] hs[k]
            != Handling::Delivered by {
        lemma_closed_after_delivery(keys, id, a, msgs, insts, before, after, hs, outs, j, k);
        assert(handled(keys, id, msgs[k], insts[k], insts[k + 1], before[k], after[k], hs[k], outs[k]));
    }
    assert forall|k: int| 0 <= k < msgs.len() && #[trigger] hs[k] != Handling::Delivered implies after[k] == before[k] by {
        assert(handled(keys, id, msgs[k], insts[k], insts[k + 1], before[k], after[k], hs[k], outs[k]));
    }
}

/// Handles a signed message from the network. A message whose signature
/// does not verify under its relaying validator's key is dropped. An Init
/// opens a broadcast for its transaction's sender, unless one is running,
/// and this validator echoes it. An Echo or a Ready goes to the running
/// broadcast of its transaction's sender; once that broadcast is ready this
/// validator sends its own Ready, once; and once a quorum of Readies is
/// reached the message is delivered to the ledger's pending queue and the
/// broadcast is closed. Returns the messages for the caller to broadcast.
pub fn deal_with_message(
    process: &mut Process,
    signed_message: SignedMessage,
    ongoing_broadcasts: &mut BroadcastRegistry,
) -> (r: Reaction)
    ensures
        final(process).same_setup(old(process)),
        final(process).committed() == old(process).committed(),
        final(process).ongoing() == old(process).ongoing(),
        forall|x: UserId|
            x != signed_message.message.transaction.sender_id ==> #[trigger] final(ongoing_broadcasts).instance(x)
                == old(ongoing_broadcasts).instance(x),
        old(ongoing_broadcasts).instance(signed_message.message.transaction.sender_id) matches Some(b)
            ==> !b.quorum_achieved,
        final(ongoing_broadcasts).instance(signed_message.message.transaction.sender_id) matches Some(b)
            ==> !b.quorum_achieved,
        forall|i: int|
            0 <= i < r.outbound@.len() ==> (#[trigger] r.outbound@[i]).signature@ == ed25519_signature(
                old(process).keypair()@,
                message_bytes(r.outbound@[i].message@),
            ),
        handled(
            old(process).validator_keys(),
            old(process).proc_id(),
            signed_message,
            old(ongoing_broadcasts).instance(signed_message.message.transaction.sender_id),
            final(ongoing_broadcasts).instance(signed_message.message.transaction.sender_id),
            old(process).pending(),
            final(process).pending(),
            r.handling,
            outbound_view(r.outbound@),
        ),
{
    proof {
        process.lemma_same_setup_refl();
        use_type_invariant(&*ongoing_broadcasts);
        lemma_lookup_no_quorum(ongoing_broadcasts.entries(), signed_message.message.transaction.sender_id);
    }
    let mut outbound: Vec<SignedMessage> = Vec::new();
    let id = process.get_id();
    let authentic = {
        let keys = process.get_public_keys();
        let s = signed_message.message.sender_id as usize;
        s < keys.len() && signed_message.verify(&keys[s])
    };
    if !authentic {
        assert(outbound_view(outbound@) =~= Seq::<MessageView>::empty());
        return Reaction { outbound, handling: Handling::Rejected };
    }
    let n = process.get_public_keys().len();
    let msg = signed_message.message;
    let account = msg.transaction.sender_id;
    match msg.message_type {
        MessageType::Init => {
            if ongoing_broadcasts.contains(&account) {
                assert(outbound_view(outbound@) =~= Seq::<MessageView>::empty());
                return Reaction { outbound, handling: Handling::DuplicateBroadcast };
            }
            let b = init_broadcast(id as usize, n);
            ongoing_broadcasts.put(account, b);
            let echo = msg.relayed(MessageType::Echo, id).sign(process.get_key_pair());
            outbound.push(echo);
            assert(outbound_view(outbound@) =~= seq![relayed(msg@, MessageType::Echo, id)]);
            Reaction { outbound, handling: Handling::Started }
        },
        _ => {
            match ongoing_broadcasts.take(&account) {
                None => {
                    assert(outbound_view(outbound@) =~= Seq::<MessageView>::empty());
                    Reaction { outbound, handling: Handling::NoInstance }
                },
                Some(mut b) => {
                    b.add_message(msg.duplicate());
                    if b.is_ready() && !b.ready_message_sent() {
                        b.set_ready_message_sent(true);
                        let ready = msg.relayed(MessageType::Ready, id).sign(process.get_key_pair());
                        outbound.push(ready);
                        assert(outbound_view(outbound@) =~= seq![relayed(msg@, MessageType::Ready, id)]);
                    } else {
                        assert(outbound_view(outbound@) =~= Seq::<MessageView>::empty());
                    }
                    if b.quorum_found() {
                        process.in_to_validate(msg);
                        Reaction { outbound, handling: Handling::Delivered }
                    } else {
                        ongoing_broadcasts.put(account, b);
                        Reaction { outbound, handling: Handling::Recorded }
                    }
                },
            }
        },
    }
}

} // verus!
