//! The ledger of one validator: committed history, pending deliveries,
//! transfer locks, and the admission and validation of transfers.
use vstd::prelude::*;
use vstd::multiset::Multiset;
use crate::codec::{encode_transfer, message_bytes, transfer_bytes};
use crate::crypto::{ed25519_signature, signature_valid, verify_signature};
use crate::history::{
    balance, carried, commit_chain, deps_of, deps_start, history, incoming, seq_of, total_received, total_sent,
    valid_against,
};
use crate::instructions::Transfer;
use crate::message::{msgs_view, Message, MessageType, MessageView, SignedMessage};
use crate::transaction::{same_id, Currency, ProcId, Transaction, UserId};

verus! {

/// Why a transfer request was refused.
#[derive(Clone, Copy, Debug, PartialEq, Eq, Structural)]
pub enum TransferError {
    /// The request is not signed by the sender's key.
    InvalidSignature,
    /// The sender's balance is below the amount.
    InsufficientFunds,
    /// A transfer of the sender is still being broadcast or validated.
    TransferInProgress,
    /// The sender's sequence numbers are used up.
    SequenceExhausted,
}

impl TransferError {
    /// Numeric code of the refusal, as reported to clients.
    pub fn code(&self) -> (r: u8)
        ensures
            r == match *self {
                TransferError::InvalidSignature => 1u8,
                TransferError::InsufficientFunds => 2u8,
                TransferError::TransferInProgress => 3u8,
                TransferError::SequenceExhausted => 4u8,
            },
    {
        match self {
            TransferError::InvalidSignature => 1,
            TransferError::InsufficientFunds => 2,
            TransferError::TransferInProgress => 3,
            TransferError::SequenceExhausted => 4,
        }
    }
}

/// Why a request to move `t.amount` from `t.sender` to `t.recipient`,
/// signed with `signature`, is refused after `log` while the accounts of
/// `ongoing` have transfers in progress; `None` when it is accepted. The
/// checks come in this order.
pub open spec fn transfer_refusal(
    log: Seq<Transaction>,
    ongoing: Seq<UserId>,
    t: Transfer,
    signature: Seq<u8>,
) -> Option<TransferError> {
    if !signature_valid(t.sender@, transfer_bytes(t.sender, t.recipient, t.amount), signature) {
        Some(TransferError::InvalidSignature)
    } else if balance(history(log, t.sender), t.sender) < t.amount {
        Some(TransferError::InsufficientFunds)
    } else if ongoing.contains(t.sender) {
        Some(TransferError::TransferInProgress)
    } else if seq_of(log, t.sender) >= u32::MAX {
        Some(TransferError::SequenceExhausted)
    } else {
        None
    }
}

/// `f` lays `s` out inside `t`: it sends each index of `s` to an index of
/// `t` that holds the same message, in increasing order.
pub open spec fn embeds(s: Seq<MessageView>, t: Seq<MessageView>, f: spec_fn(int) -> int) -> bool {
    &&& forall|k: int| 0 <= k < s.len() ==> 0 <= #[trigger] f(k) < t.len() && s[k] == t[f(k)]
    &&& forall|j: int, k: int| 0 <= j < k < s.len() ==> #[trigger] f(j) < #[trigger] f(k)
}

/// `s` is `t` with some of its entries left out, the others in the same
/// order.
pub open spec fn subsequence_of(s: Seq<MessageView>, t: Seq<MessageView>) -> bool {
    exists|f: spec_fn(int) -> int| embeds(s, t, f)
}

/// Whether one of the messages of `ms` carries a transfer paid by `a`.
pub open spec fn pays_in(ms: Seq<MessageView>, a: UserId) -> bool {
    exists|i: int| 0 <= i < ms.len() && #[trigger] ms[i].transaction.sender_id == a
}

/// A validator's ledger.
pub struct Process {
    /// This validator's index in the validator set.
    id: ProcId,
    /// Committed transactions, in commit order (the history store).
    log: Vec<Transaction>,
    /// Delivered transfers not validated yet.
    to_validate: Vec<Message>,
    /// Accounts with a transfer broadcast and not yet validated.
    ongoing_transfer: Vec<UserId>,
    /// Server addresses of the validators, by index.
    serv_addr: Vec<(String, u16)>,
    /// Secret key this validator signs with; its public key follows from it.
    secret_key: [u8; 32],
    /// Public keys of the validators, by index.
    public_keys: Vec<UserId>,
    /// Socket served to clients.
    client_socket: (String, u16),
    /// Socket served to the other validators.
    server_socket: (String, u16),
    /// Number of validators.
    nb_process: u32,
}

impl Process {
    /// This validator's index in the validator set.
    pub closed spec fn proc_id(&self) -> ProcId {
        self.id
    }

    /// Number of validators, as configured.
    pub closed spec fn nb_validators(&self) -> u32 {
        self.nb_process
    }

    /// Socket served to clients.
    pub closed spec fn client_addr(&self) -> (String, u16) {
        self.client_socket
    }

    /// Socket served to the other validators.
    pub closed spec fn server_addr(&self) -> (String, u16) {
        self.server_socket
    }

    /// Server addresses of the validators, by index.
    pub closed spec fn peers(&self) -> Seq<(String, u16)> {
        self.serv_addr@
    }

    /// Committed transactions, in commit order.
    pub closed spec fn committed(&self) -> Seq<Transaction> {
        self.log@
    }

    /// Delivered transfers waiting for validation.
    pub closed spec fn pending(&self) -> Seq<MessageView> {
        msgs_view(self.to_validate@)
    }

    /// Accounts with a transfer in progress.
    pub closed spec fn ongoing(&self) -> Seq<UserId> {
        self.ongoing_transfer@
    }

    /// Public keys of the validators, by index.
    pub closed spec fn validator_keys(&self) -> Seq<UserId> {
        self.public_keys@
    }

    /// Secret key this validator signs with (its public key follows from it).
    pub closed spec fn keypair(&self) -> [u8; 32] {
        self.secret_key
    }

    /// Identity, keys, addresses and sockets are those of `other`.
    pub closed spec fn same_setup(&self, other: &Process) -> bool {
        &&& self.id == other.id
        &&& self.public_keys@ == other.public_keys@
        &&& self.secret_key == other.secret_key
        &&& self.serv_addr@ == other.serv_addr@
        &&& self.client_socket == other.client_socket
        &&& self.server_socket == other.server_socket
        &&& self.nb_process == other.nb_process
    }

    /// A ledger has its own setup.
    pub proof fn lemma_same_setup_refl(&self)
        ensures
            self.same_setup(self),
    {
    }

    /// A ledger whose history store already holds `history`, with nothing
    /// pending and no transfer in progress.
    pub fn init(
        id: ProcId,
        nb_process: u32,
        secret_key: [u8; 32],
        public_keys: Vec<UserId>,
        serv_addr: Vec<(String, u16)>,
        client_socket: (String, u16),
        server_socket: (String, u16),
        history: Vec<Transaction>,
    ) -> (r: Process)
        ensures
            r.proc_id() == id,
            r.nb_validators() == nb_process,
            r.keypair() == secret_key,
            r.validator_keys() == public_keys@,
            r.committed() == history@,
            r.pending().len() == 0,
            r.ongoing().len() == 0,
            r.client_addr() == client_socket,
            r.server_addr() == server_socket,
            r.peers() == serv_addr@,
    {
        Process {
            id,
            log: history,
            to_validate: Vec::new(),
            ongoing_transfer: Vec::new(),
            serv_addr,
            secret_key,
            public_keys,
            client_socket,
            server_socket,
            nb_process,
        }
    }

    /// The committed transactions in which `account` appears, in commit order.
    pub fn history_for(&self, account: &UserId) -> (r: Vec<Transaction>)
        ensures
            r@ == history(self.committed(), *account),
    {
        let mut res: Vec<Transaction> = Vec::new();
        let mut i: usize = 0;
        while i < self.log.len()
            invariant
                i <= self.log.len(),
                res@ == history(self.log@.subrange(0, i as int), *account),
            decreases self.log.len() - i,
        {
            let t = self.log[i];
            assert(self.log@.subrange(0, i + 1).drop_last() =~= self.log@.subrange(0, i as int));
            if same_id(&t.sender_id, account) || same_id(&t.receiver_id, account) {
                res.push(t);
            }
            i = i + 1;
        }
        assert(self.log@.subrange(0, i as int) =~= self.log@);
        res
    }

    /// Balance of `a` according to `h`: what it received minus what it sent.
    pub fn balance(a: &UserId, h: &Vec<Transaction>) -> (r: i128)
        ensures
            r == balance(h@, *a),
    {
        let mut received: u128 = 0;
        let mut sent: u128 = 0;
        let mut i: usize = 0;
        while i < h.len()
            invariant
                i <= h.len(),
                received == total_received(h@.subrange(0, i as int), *a),
                sent == total_sent(h@.subrange(0, i as int), *a),
                received <= i * 4294967295,
                sent <= i * 4294967295,
            decreases h.len() - i,
        {
            let t = h[i];
            assert(h@.subrange(0, i + 1).drop_last() =~= h@.subrange(0, i as int));
            if same_id(&t.receiver_id, a) {
                received = received + t.amount as u128;
            }
            if same_id(&t.sender_id, a) {
                sent = sent + t.amount as u128;
            }
            i = i + 1;
        }
        assert(h@.subrange(0, i as int) =~= h@);
        received as i128 - sent as i128
    }

    /// Balance of `user` according to this validator's committed history.
    pub fn read(&self, user: &UserId) -> (r: i128)
        ensures
            r == balance(history(self.committed(), *user), *user),
    {
        Process::balance(user, &self.history_for(user))
    }

    /// Number of validated transfers outgoing from `user`.
    pub fn load_seq(&self, user: &UserId) -> (r: usize)
        ensures
            r == seq_of(self.committed(), *user),
    {
        let mut n: usize = 0;
        let mut i: usize = 0;
        while i < self.log.len()
            invariant
                i <= self.log.len(),
                n == seq_of(self.log@.subrange(0, i as int), *user),
                n <= i,
            decreases self.log.len() - i,
        {
            assert(self.log@.subrange(0, i + 1).drop_last() =~= self.log@.subrange(0, i as int));
            if same_id(&self.log[i].sender_id, user) {
                n = n + 1;
            }
            i = i + 1;
        }
        assert(self.log@.subrange(0, i as int) =~= self.log@);
        n
    }

    /// The incoming transfers of `user` committed after its last outgoing
    /// one: the dependencies of its next transfer.
    pub fn deps_for(&self, user: &UserId) -> (r: Vec<Transaction>)
        ensures
            r@ == deps_of(self.committed(), *user),
    {
        let mut start: usize = self.log.len();
        let mut found = false;
        assert(self.log@.subrange(0, self.log.len() as int) =~= self.log@);
        while start > 0 && !found
            invariant
                start <= self.log.len(),
                deps_start(self.log@, *user) == if found {
                    start as nat
                } else {
                    deps_start(self.log@.subrange(0, start as int), *user)
                },
            decreases start + if found {
                0int
            } else {
                1int
            },
        {
            assert(self.log@.subrange(0, start as int).drop_last() =~= self.log@.subrange(0, start - 1));
            if same_id(&self.log[start - 1].sender_id, user) {
                found = true;
            } else {
                start = start - 1;
            }
        }
        let mut res: Vec<Transaction> = Vec::new();
        let mut i: usize = start;
        while i < self.log.len()
            invariant
                start <= i <= self.log.len(),
                start == deps_start(self.log@, *user),
                res@ == incoming(self.log@.subrange(start as int, i as int), *user),
            decreases self.log.len() - i,
        {
            let t = self.log[i];
            assert(self.log@.subrange(start as int, i + 1).drop_last() =~= self.log@.subrange(start as int, i as int));
            if same_id(&t.receiver_id, user) {
                res.push(t);
            }
            i = i + 1;
        }
        res
    }

    /// Whether `user` has a transfer in progress.
    pub fn is_ongoing(&self, user: &UserId) -> (r: bool)
        ensures
            r == self.ongoing().contains(*user),
    {
        let mut i: usize = 0;
        while i < self.ongoing_transfer.len()
            invariant
                i <= self.ongoing_transfer.len(),
                forall|j: int| 0 <= j < i ==> self.ongoing_transfer@[j] != *user,
            decreases self.ongoing_transfer.len() - i,
        {
            if same_id(&self.ongoing_transfer[i], user) {
                return true;
            }
            i = i + 1;
        }
        false
    }

    /// Whether the transfer that `message` carries may be committed now: it
    /// is the next one of its sender, its sender can pay it, and each of its
    /// dependencies is in its sender's committed history.
    pub fn is_valid(&self, message: &Message) -> (r: bool)
        ensures
            r == valid_against(self.committed(), message@),
    {
        let t = message.transaction;
        let sent = self.load_seq(&t.sender_id);
        if !(t.seq_id >= 1 && (t.seq_id - 1) as usize == sent) {
            return false;
        }
        if self.read(&t.sender_id) < t.amount as i128 {
            return false;
        }
        let h = self.history_for(&t.sender_id);
        let mut i: usize = 0;
        while i < message.dependencies.len()
            invariant
                i <= message.dependencies.len(),
                h@ == history(self.committed(), t.sender_id),
                t == message.transaction,
                forall|j: int| 0 <= j < i ==> #[trigger] history(self.committed(), t.sender_id).contains(message.dependencies@[j]),
            decreases message.dependencies.len() - i,
        {
            if !contains_transaction(&h, &message.dependencies[i]) {
                assert(!history(self.committed(), t.sender_id).contains(message@.dependencies[i as int]));
                return false;
            }
            i = i + 1;
        }
        true
    }
}

impl Process {
    /// Queues a delivered transfer for validation.
    pub fn in_to_validate(&mut self, message: Message)
        ensures
            final(self).pending() == old(self).pending().push(message@),
            final(self).committed() == old(self).committed(),
            final(self).ongoing() == old(self).ongoing(),
            final(self).same_setup(old(self)),
    {
        let ghost before = self.to_validate@;
        self.to_validate.push(message);
        assert(msgs_view(self.to_validate@) =~= msgs_view(before).push(message@));
    }

    /// Balance of `account` as reported to clients: 0 when the history
    /// holds more expenses than incomes, the largest currency value when it
    /// exceeds that.
    pub fn output_balance_for(&self, account: UserId) -> (r: Currency)
        ensures
            r == reported_balance(balance(history(self.committed(), account), account)),
    {
        let b = self.read(&account);
        if b < 0 {
            0
        } else if b > u32::MAX as i128 {
            u32::MAX
        } else {
            b as u32
        }
    }

    /// Admits a client's transfer request: checks the sender's signature,
    /// its balance and that it has no transfer in progress, then builds the
    /// Init message of the transfer, signed by this validator, and locks the
    /// sender until the transfer is validated. The message is for the
    /// caller to broadcast to every validator.
    pub fn transfer(&mut self, transfer: Transfer, signature: Vec<u8>) -> (r: Result<SignedMessage, TransferError>)
        ensures
            match r {
                Err(e) => {
                    &&& transfer_refusal(old(self).committed(), old(self).ongoing(), transfer, signature@) == Some(e)
                    &&& *final(self) == *old(self)
                },
                Ok(s) => {
                    &&& transfer_refusal(old(self).committed(), old(self).ongoing(), transfer, signature@) is None
                    &&& s.signature@ == ed25519_signature(old(self).keypair()@, message_bytes(s.message@))
                    &&& s.message@ == MessageView {
                        transaction: Transaction {
                            seq_id: (seq_of(old(self).committed(), transfer.sender) + 1) as u32,
                            sender_id: transfer.sender,
                            receiver_id: transfer.recipient,
                            amount: transfer.amount,
                        },
                        dependencies: deps_of(old(self).committed(), transfer.sender),
                        message_type: MessageType::Init,
                        sender_id: old(self).proc_id(),
                    }
                    &&& final(self).committed() == old(self).committed()
                    &&& final(self).pending() == old(self).pending()
                    &&& final(self).ongoing() == old(self).ongoing().push(transfer.sender)
                    &&& final(self).same_setup(old(self))
                },
            },
    {
        let payload = encode_transfer(&transfer.sender, &transfer.recipient, transfer.amount);
        if !verify_signature(&transfer.sender, payload.as_slice(), signature.as_slice()) {
            return Err(TransferError::InvalidSignature);
        }
        if self.read(&transfer.sender) < transfer.amount as i128 {
            return Err(TransferError::InsufficientFunds);
        }
        if self.is_ongoing(&transfer.sender) {
            return Err(TransferError::TransferInProgress);
        }
        let sent = self.load_seq(&transfer.sender);
        if sent >= u32::MAX as usize {
            return Err(TransferError::SequenceExhausted);
        }
        let transaction = Transaction {
            seq_id: (sent + 1) as u32,
            sender_id: transfer.sender,
            receiver_id: transfer.recipient,
            amount: transfer.amount,
        };
        let message = Message {
            transaction,
            dependencies: self.deps_for(&transfer.sender),
            message_type: MessageType::Init,
            sender_id: self.id,
        };
        let signed = message.sign(&self.secret_key);
        self.ongoing_transfer.push(transfer.sender);
        Ok(signed)
    }

    /// Releases the transfer lock of `user`.
    fn clear_ongoing(&mut self, user: &UserId)
        ensures
            forall|b: UserId| #[trigger] final(self).ongoing().contains(b) <==> (old(self).ongoing().contains(b) && b != *user),
            final(self).committed() == old(self).committed(),
            final(self).pending() == old(self).pending(),
            final(self).same_setup(old(self)),
    {
        let mut kept: Vec<UserId> = Vec::new();
        let mut i: usize = 0;
        while i < self.ongoing_transfer.len()
            invariant
                i <= self.ongoing_transfer.len(),
                forall|b: UserId| #[trigger] kept@.contains(b) <==> (self.ongoing_transfer@.subrange(0, i as int).contains(b)
                    && b != *user),
            decreases self.ongoing_transfer.len() - i,
        {
            let x = self.ongoing_transfer[i];
            let ghost before = kept@;
            assert(self.ongoing_transfer@.subrange(0, i + 1) =~= self.ongoing_transfer@.subrange(0, i as int).push(x));
            if !same_id(&x, user) {
                kept.push(x);
            }
            proof {
                assert forall|b: UserId| #[trigger] kept@.contains(b) <==> (self.ongoing_transfer@.subrange(0, i + 1).contains(b)
                    && b != *user) by {
                    lemma_contains_push(self.ongoing_transfer@.subrange(0, i as int), x, b);
                    lemma_contains_push(before, x, b);
                }
            }
            i = i + 1;
        }
        assert(self.ongoing_transfer@.subrange(0, i as int) =~= self.ongoing_transfer@);
        self.ongoing_transfer = kept;
    }

    /// Validates the pending transfers until none of those left is valid.
    /// Each valid one is committed to the history store, which it joins in
    /// both its sender's and its receiver's history, and its sender's lock
    /// is released. Returns the committed messages, in commit order.
    pub fn valid(&mut self) -> (committed: Vec<Message>)
        ensures
            final(self).committed() == old(self).committed() + carried(msgs_view(committed@)),
            commit_chain(old(self).committed(), msgs_view(committed@)),
            old(self).pending().to_multiset() == final(self).pending().to_multiset().add(
                msgs_view(committed@).to_multiset(),
            ),
            subsequence_of(final(self).pending(), old(self).pending()),
            forall|i: int|
                0 <= i < final(self).pending().len() ==> !valid_against(
                    final(self).committed(),
                    #[trigger] final(self).pending()[i],
                ),
            forall|a: UserId| #[trigger]
                final(self).ongoing().contains(a) <==> (old(self).ongoing().contains(a) && !pays_in(
                    msgs_view(committed@),
                    a,
                )),
            final(self).same_setup(old(self)),
    {
        let mut committed: Vec<Message> = Vec::new();
        let mut progress = true;
        let ghost mut f: spec_fn(int) -> int = |k: int| k;
        proof {
            assert(old(self).committed() + carried(msgs_view(committed@)) =~= old(self).committed());
            assert(msgs_view(committed@) =~= Seq::<MessageView>::empty());
            msgs_view(committed@).to_multiset_ensures();
            vstd::multiset::lemma_multiset_empty_len(msgs_view(committed@).to_multiset());
            assert(msgs_view(committed@).to_multiset() =~= Multiset::<MessageView>::empty());
            assert(old(self).pending().to_multiset().add(msgs_view(committed@).to_multiset()) =~= old(
                self,
            ).pending().to_multiset());
        }
        while progress
            invariant
                self.committed() == old(self).committed() + carried(msgs_view(committed@)),
                commit_chain(old(self).committed(), msgs_view(committed@)),
                old(self).pending().to_multiset() == self.pending().to_multiset().add(
                    msgs_view(committed@).to_multiset(),
                ),
                embeds(self.pending(), old(self).pending(), f),
                !progress ==> forall|i: int|
                    0 <= i < self.pending().len() ==> !valid_against(self.committed(), #[trigger] self.pending()[i]),
                forall|a: UserId| #[trigger]
                    self.ongoing().contains(a) <==> (old(self).ongoing().contains(a) && !pays_in(
                        msgs_view(committed@),
                        a,
                    )),
                self.same_setup(old(self)),
            decreases self.to_validate.len() + if progress {
                1int
            } else {
                0int
            },
        {
            progress = false;
            let ghost pass_len = self.to_validate.len();
            let mut index: usize = 0;
            while index < self.to_validate.len()
                invariant
                    index <= self.to_validate.len(),
                    self.committed() == old(self).committed() + carried(msgs_view(committed@)),
                    commit_chain(old(self).committed(), msgs_view(committed@)),
                    old(self).pending().to_multiset() == self.pending().to_multiset().add(
                        msgs_view(committed@).to_multiset(),
                    ),
                    embeds(self.pending(), old(self).pending(), f),
                    !progress ==> forall|i: int|
                        0 <= i < index ==> !valid_against(self.committed(), #[trigger] self.pending()[i]),
                    !progress ==> self.to_validate.len() == pass_len,
                    progress ==> self.to_validate.len() < pass_len,
                    forall|a: UserId| #[trigger]
                        self.ongoing().contains(a) <==> (old(self).ongoing().contains(a) && !pays_in(
                            msgs_view(committed@),
                            a,
                        )),
                    self.same_setup(old(self)),
                decreases self.to_validate.len() - index,
            {
                if self.is_valid(&self.to_validate[index]) {
                    let ghost log_before = self.log@;
                    let ghost pending_before = self.to_validate@;
                    let ghost done_before = committed@;
                    let ghost snap = *self;
                    let message = self.to_validate.remove(index);
                    let t = message.transaction;
                    self.log.push(t);
                    self.clear_ongoing(&t.sender_id);
                    committed.push(message);
                    proof {
                        let g = f;
                        let i = index as int;
                        f = |k: int| if k < i { g(k) } else { g(k + 1) };
                        assert(msgs_view(self.to_validate@) =~= msgs_view(pending_before).remove(i));
                        assert forall|j: int, k: int| 0 <= j < k < self.pending().len() implies #[trigger] f(j) < #[trigger] f(k) by {
                            if j < i && k >= i {
                                assert(g(j) < g(i) && g(i) < g(k + 1));
                            } else if j >= i {
                                assert(g(j + 1) < g(k + 1));
                            } else {
                                assert(g(j) < g(k));
                            }
                        }
                        assert forall|k: int| 0 <= k < self.pending().len() implies 0 <= #[trigger] f(k) < old(self).pending().len()
                            && self.pending()[k] == old(self).pending()[f(k)] by {
                            if k < i {
                                assert(g(k) == f(k));
                            } else {
                                assert(g(k + 1) == f(k));
                            }
                        }
                        let cv = msgs_view(done_before);
                        assert(msgs_view(committed@) =~= cv.push(message@));
                        assert(msgs_view(committed@).drop_last() =~= cv);
                        assert(carried(msgs_view(committed@)) =~= carried(cv).push(t));
                        assert(self.log@ =~= old(self).committed() + carried(msgs_view(committed@)));
                        assert(msgs_view(self.to_validate@) =~= msgs_view(pending_before).remove(index as int));
                        msgs_view(pending_before).to_multiset_ensures();
                        cv.to_multiset_ensures();
                        assert(msgs_view(pending_before)[index as int] == message@);
                        assert(self.pending().to_multiset().add(msgs_view(committed@).to_multiset()) =~= msgs_view(
                            pending_before,
                        ).to_multiset().add(cv.to_multiset()));
                        assert forall|a: UserId| #[trigger]
                            self.ongoing().contains(a) <==> (old(self).ongoing().contains(a) && !pays_in(
                                msgs_view(committed@),
                                a,
                            )) by {
                            assert(snap.ongoing().contains(a) <==> (old(self).ongoing().contains(a) && !pays_in(cv, a)));
                            lemma_pays_in_push(cv, message@, a);
                        }
                    }
                    progress = true;
                } else {
                    index = index + 1;
                }
            }
        }
        assert(embeds(self.pending(), old(self).pending(), f));
        committed
    }
}

impl Process {
    /// This validator's index in the validator set.
    pub fn get_id(&self) -> (r: ProcId)
        ensures
            r == self.proc_id(),
    {
        self.id
    }

    /// Secret key this validator signs with (its public key follows from it).
    pub fn get_key_pair(&self) -> (r: &[u8; 32])
        ensures
            *r == self.keypair(),
    {
        &self.secret_key
    }

    /// Socket served to clients.
    pub fn get_client_socket(&self) -> (r: &(String, u16))
        ensures
            *r == self.client_addr(),
    {
        &self.client_socket
    }

    /// Socket served to the other validators.
    pub fn get_server_socket(&self) -> (r: &(String, u16))
        ensures
            *r == self.server_addr(),
    {
        &self.server_socket
    }

    /// Server addresses of the validators, by index.
    pub fn get_serv_addr(&self) -> (r: &Vec<(String, u16)>)
        ensures
            r@ == self.peers(),
    {
        &self.serv_addr
    }

    /// Public keys of the validators, by index.
    pub fn get_public_keys(&self) -> (r: &Vec<UserId>)
        ensures
            r@ == self.validator_keys(),
    {
        &self.public_keys
    }

    /// Committed transactions, in commit order.
    pub fn get_committed(&self) -> (r: &Vec<Transaction>)
        ensures
            r@ == self.committed(),
    {
        &self.log
    }

    /// Delivered transfers waiting for validation, in arrival order.
    pub fn get_to_validate(&self) -> (r: &Vec<Message>)
        ensures
            msgs_view(r@) == self.pending(),
    {
        &self.to_validate
    }

    /// Number of delivered transfers waiting for validation.
    pub fn nb_pending(&self) -> (r: usize)
        ensures
            r == self.pending().len(),
    {
        self.to_validate.len()
    }
}

/// Balance as reported to clients: clamped to the currency's range.
pub open spec fn reported_balance(b: int) -> Currency {
    if b < 0 {
        0
    } else if b > u32::MAX {
        u32::MAX
    } else {
        b as u32
    }
}

proof fn lemma_contains_push(s: Seq<UserId>, x: UserId, b: UserId)
    ensures
        s.push(x).contains(b) <==> (s.contains(b) || b == x),
{
    if s.push(x).contains(b) {
        let k = choose|k: int| 0 <= k < s.push(x).len() && s.push(x)[k] == b;
        if k < s.len() {
            assert(s[k] == b);
        }
    }
    if s.contains(b) {
        let k = choose|k: int| 0 <= k < s.len() && s[k] == b;
        assert(s.push(x)[k] == b);
    }
    if b == x {
        assert(s.push(x)[s.len() as int] == b);
    }
}

proof fn lemma_pays_in_push(ms: Seq<MessageView>, m: MessageView, a: UserId)
    ensures
        pays_in(ms.push(m), a) <==> (pays_in(ms, a) || m.transaction.sender_id == a),
{
    if pays_in(ms.push(m), a) {
        let k = choose|k: int| 0 <= k < ms.push(m).len() && #[trigger] ms.push(m)[k].transaction.sender_id == a;
        if k < ms.len() {
            assert(ms[k].transaction.sender_id == a);
        }
    }
    if pays_in(ms, a) {
        let k = choose|k: int| 0 <= k < ms.len() && #[trigger] ms[k].transaction.sender_id == a;
        assert(ms.push(m)[k].transaction.sender_id == a);
    }
    if m.transaction.sender_id == a {
        assert(ms.push(m)[ms.len() as int].transaction.sender_id == a);
    }
}

/// Whether `h` holds `t`.
fn contains_transaction(h: &Vec<Transaction>, t: &Transaction) -> (r: bool)
    ensures
        r == h@.contains(*t),
{
    let mut i: usize = 0;
    while i < h.len()
        invariant
            i <= h.len(),
            forall|j: int| 0 <= j < i ==> h@[j] != *t,
        decreases h.len() - i,
    {
        if h[i].same_as(t) {
            assert(h@[i as int] == *t);
            return true;
        }
        i = i + 1;
    }
    false
}

} // verus!
