//! A node: its identity and signing key, its peers, its wallets, and the
//! authenticated reports that peers sent it. The node decides; sending the
//! messages it returns to its peers is left to the caller.
use crate::codec::{encode_result, encode_transaction, result_bytes, transaction_bytes};
use crate::crypto::{signature_valid, verify_signature, Signer};
use crate::net::{
    PeerRegistrationRequest, PeerRegistrationResponse, WalletCreationRequest,
    WalletCreationResponse,
};
use crate::registry::{lists, registered, Peer, PeerModel, PeerRegistry};
use crate::transactions::{
    SignedTransaction, SignedTransactionModel, Transaction, TransactionModel, TransactionResult,
    TransactionResultModel, TransactionVerificationRequest,
};
use crate::wallet::{applied, can_apply, sum_listed, Ledger};
use vstd::prelude::*;

verus! {

/// The registry after recording, in order, each peer that answered.
pub open spec fn registered_responses(
    m: Map<usize, PeerModel>,
    responses: Seq<Option<PeerRegistrationResponse>>,
) -> Map<usize, PeerModel>
    decreases responses.len(),
{
    if responses.len() == 0 {
        m
    } else {
        let before = registered_responses(m, responses.drop_last());
        match responses.last() {
            Some(p) => registered(before, p.node_id, p.public_key@, p.address@),
            None => before,
        }
    }
}

/// A peer that holds a node's public key under that node's id accepts a
/// transaction the node signed exactly when the transfer applies to the
/// peer's balances; it then reaches `applied(m, ...)`, as the signer does
/// from the same balances.
pub proof fn lemma_replica_accepts(
    replica: Node,
    signer_key: Seq<u8>,
    signed: SignedTransactionModel,
    m: Map<Seq<char>, int>,
)
    requires
        replica.key_of(signed.sender_id) == Some(signer_key),
        signature_valid(signer_key, signed.signature, transaction_bytes(signed.transaction)),
    ensures
        replica.accepts(signed, m) == can_apply(m, signed.transaction),
{
}

/// Whether `r` is a report by node `id` that it applied `t`.
pub open spec fn reports(r: TransactionResultModel, id: usize, t: TransactionModel) -> bool {
    &&& r.node_id == id
    &&& r.success
    &&& r.transaction is Some
    &&& r.transaction->0.transaction == t
}

/// The nodes that reported, among `results`, that they applied `t`.
pub open spec fn reporters(results: Seq<TransactionResultModel>, t: TransactionModel) -> Set<
    usize,
> {
    Set::new(|id: usize| exists|i: int| 0 <= i < results.len() && reports(results[i], id, t))
}

fn same_transaction(a: &Transaction, b: &Transaction) -> (r: bool)
    ensures
        r == (a@ == b@),
{
    a.amount == b.amount && a.from == b.from && a.to == b.to
}

fn holds(ids: &Vec<usize>, id: usize) -> (r: bool)
    ensures
        r == ids@.contains(id),
{
    let mut i: usize = 0;
    while i < ids.len()
        invariant
            i <= ids@.len(),
            forall|j: int| 0 <= j < i ==> ids@[j] != id,
        decreases ids@.len() - i,
    {
        if ids[i] == id {
            return true;
        }
        i = i + 1;
    }
    false
}

/// What handling a transaction produced: the result to return, the
/// verification request to send to every peer, and the transaction as this
/// node signed it (sent to every peer as well when the result is a success).
pub struct TransactionOutcome {
    pub result: TransactionResult,
    pub verification: TransactionVerificationRequest,
    pub signed: SignedTransaction,
}

pub struct Node {
    id: usize,
    address: String,
    signer: Signer,
    peers: PeerRegistry,
    wallets: Ledger,
    results: Vec<TransactionResult>,
    signature_shares: Vec<Vec<u8>>,
}

impl Node {
    pub closed spec fn wf(&self) -> bool {
        self.peers.wf() && self.wallets.wf()
    }

    pub closed spec fn id_spec(&self) -> usize {
        self.id
    }

    pub closed spec fn address_spec(&self) -> Seq<char> {
        self.address@
    }

    pub closed spec fn public_key_spec(&self) -> Seq<u8> {
        self.signer.public_key_spec()
    }

    pub closed spec fn peers(&self) -> Map<usize, PeerModel> {
        self.peers@
    }

    pub closed spec fn balances(&self) -> Map<Seq<char>, int> {
        self.wallets.balances()
    }

    pub closed spec fn total(&self) -> int {
        self.wallets.total()
    }

    /// The authenticated results received from peers, in order of arrival.
    pub closed spec fn results(&self) -> Seq<TransactionResultModel> {
        self.results@.map_values(|r: TransactionResult| r@)
    }

    /// The signature shares of those results, in the same order.
    pub closed spec fn signature_shares(&self) -> Seq<Seq<u8>> {
        self.signature_shares@.map_values(|s: Vec<u8>| s@)
    }

    /// The public key that a transaction signed by `sender_id` is checked
    /// against: this node's own for its own id, else the registered one.
    pub open spec fn key_of(&self, sender_id: usize) -> Option<Seq<u8>> {
        if sender_id == self.id_spec() {
            Some(self.public_key_spec())
        } else if self.peers().contains_key(sender_id) {
            Some(self.peers()[sender_id].public_key)
        } else {
            None
        }
    }

    /// Whether `st` is signed by its sender and can be applied to `m`.
    pub open spec fn accepts(&self, st: SignedTransactionModel, m: Map<Seq<char>, int>) -> bool {
        &&& self.key_of(st.sender_id) is Some
        &&& signature_valid(
            self.key_of(st.sender_id)->0,
            st.signature,
            transaction_bytes(st.transaction),
        )
        &&& can_apply(m, st.transaction)
    }

    /// The total is the sum of the balances, each wallet counted once: `ids`
    /// lists every wallet id exactly once.
    pub proof fn lemma_total_is_sum(&self) -> (ids: Seq<Seq<char>>)
        requires
            self.wf(),
        ensures
            ids.no_duplicates(),
            ids.to_set() == self.balances().dom(),
            self.total() == sum_listed(ids, self.balances()),
    {
        self.wallets.lemma_total_is_sum()
    }

    pub fn new(
        id: usize,
        address: String,
        secret_key: threshold_crypto::SecretKey,
    ) -> (r: Node)
        ensures
            r.wf(),
            r.id_spec() == id,
            r.address_spec() == address@,
            r.public_key_spec().len() == 48,
            r.peers() == Map::<usize, PeerModel>::empty(),
            r.balances() == Map::<Seq<char>, int>::empty(),
            r.results() == Seq::<TransactionResultModel>::empty(),
            r.signature_shares() == Seq::<Seq<u8>>::empty(),
    {
        let r = Node {
            id,
            address,
            signer: Signer::from_secret(secret_key),
            peers: PeerRegistry::new(),
            wallets: Ledger::new(),
            results: Vec::new(),
            signature_shares: Vec::new(),
        };
        assert(r.results() =~= Seq::<TransactionResultModel>::empty());
        assert(r.signature_shares() =~= Seq::<Seq<u8>>::empty());
        r
    }

    pub fn id(&self) -> (r: usize)
        ensures
            r == self.id_spec(),
    {
        self.id
    }

    pub fn public_key(&self) -> (r: Vec<u8>)
        ensures
            r@ == self.public_key_spec(),
    {
        self.signer.public_key()
    }

    /// This node's identity, as it registers with a peer.
    pub fn registration_request(&self) -> (r: PeerRegistrationRequest)
        ensures
            r.node_id == self.id_spec(),
            r.public_key@ == self.public_key_spec(),
            r.address@ == self.address_spec(),
    {
        PeerRegistrationRequest {
            node_id: self.id,
            public_key: self.signer.public_key(),
            address: self.address.clone(),
        }
    }

    /// Records the identity that each reachable initial peer answered with;
    /// `None` stands for a peer that could not be reached and is skipped.
    pub fn register_with_peers(&mut self, responses: Vec<Option<PeerRegistrationResponse>>)
        requires
            old(self).wf(),
        ensures
            final(self).wf(),
            final(self).peers() == registered_responses(old(self).peers(), responses@),
            final(self).id_spec() == old(self).id_spec(),
            final(self).public_key_spec() == old(self).public_key_spec(),
            final(self).balances() == old(self).balances(),
            final(self).results() == old(self).results(),
            final(self).signature_shares() == old(self).signature_shares(),
    {
        let ghost start = self.peers@;
        let mut i: usize = 0;
        while i < responses.len()
            invariant
                self.wf(),
                i <= responses@.len(),
                self.peers@ == registered_responses(start, responses@.subrange(0, i as int)),
                self.id == old(self).id,
                self.signer.public_key_spec() == old(self).signer.public_key_spec(),
                self.wallets.balances() == old(self).wallets.balances(),
                self.results@ == old(self).results@,
                self.signature_shares@ == old(self).signature_shares@,
            decreases responses@.len() - i,
        {
            assert(responses@.subrange(0, i + 1).drop_last() =~= responses@.subrange(0, i as int));
            match &responses[i] {
                Some(p) => {
                    self.peers.register(p.node_id, p.public_key.clone(), p.address.clone());
                },
                None => {},
            }
            i = i + 1;
        }
        assert(responses@.subrange(0, responses@.len() as int) =~= responses@);
    }

    /// Records a peer that registered with this node, and answers with this
    /// node's own identity.
    pub fn handle_incoming_peer_registration(&mut self, request: PeerRegistrationRequest) -> (r:
        PeerRegistrationResponse)
        requires
            old(self).wf(),
        ensures
            final(self).wf(),
            final(self).peers() == registered(
                old(self).peers(),
                request.node_id,
                request.public_key@,
                request.address@,
            ),
            final(self).id_spec() == old(self).id_spec(),
            final(self).public_key_spec() == old(self).public_key_spec(),
            final(self).balances() == old(self).balances(),
            r.node_id == old(self).id_spec(),
            r.public_key@ == old(self).public_key_spec(),
            r.address@ == old(self).address_spec(),
            final(self).results() == old(self).results(),
            final(self).signature_shares() == old(self).signature_shares(),
    {
        self.peers.register(request.node_id, request.public_key, request.address);
        PeerRegistrationResponse {
            node_id: self.id,
            public_key: self.signer.public_key(),
            address: self.address.clone(),
        }
    }

    /// A copy of every known peer.
    pub fn get_peers(&self) -> (r: Vec<Peer>)
        requires
            self.wf(),
        ensures
            lists(r@, self.peers()),
    {
        self.peers.snapshot()
    }

    /// The balance of wallet `id`, if there is one.
    pub fn balance(&self, id: &String) -> (r: Option<i32>)
        requires
            self.wf(),
        ensures
            r == (if self.balances().contains_key(id@) {
                Some(self.balances()[id@] as i32)
            } else {
                None::<i32>
            }),
    {
        self.wallets.balance(id)
    }

    fn sender_key(&self, sender_id: usize) -> (r: Option<Vec<u8>>)
        requires
            self.wf(),
        ensures
            match r {
                Some(k) => self.key_of(sender_id) == Some(k@),
                None => self.key_of(sender_id) is None,
            },
    {
        if sender_id == self.id {
            Some(self.signer.public_key())
        } else {
            match self.peers.lookup(sender_id) {
                Some(p) => Some(p.public_key),
                None => None,
            }
        }
    }

    /// Signs `transaction` with this node's key, as sent by this node.
    pub fn sign_transaction(&self, transaction: Transaction) -> (r: SignedTransaction)
        ensures
            r.transaction@ == transaction@,
            r.sender_id == self.id_spec(),
            r.signature@.len() == 96,
            signature_valid(self.public_key_spec(), r.signature@, transaction_bytes(transaction@)),
    {
        let bytes = encode_transaction(&transaction);
        let signature = self.signer.sign(&bytes);
        SignedTransaction { transaction, sender_id: self.id, signature }
    }

    /// Applies `signed` to the wallets when its signature verifies under its
    /// sender's key and the ledger accepts it; otherwise changes nothing.
    pub fn process_transaction(&mut self, signed: &SignedTransaction) -> (r: bool)
        requires
            old(self).wf(),
        ensures
            final(self).wf(),
            r == old(self).accepts(signed@, old(self).balances()),
            r ==> final(self).balances() == applied(old(self).balances(), signed.transaction@),
            !r ==> final(self).balances() == old(self).balances(),
            final(self).total() == old(self).total(),
            final(self).id_spec() == old(self).id_spec(),
            final(self).public_key_spec() == old(self).public_key_spec(),
            final(self).peers() == old(self).peers(),
            final(self).results() == old(self).results(),
            final(self).signature_shares() == old(self).signature_shares(),
    {
        let key = match self.sender_key(signed.sender_id) {
            Some(k) => k,
            None => return false,
        };
        let bytes = encode_transaction(&signed.transaction);
        if !verify_signature(&key, &signed.signature, &bytes) {
            return false;
        }
        self.wallets.apply(&signed.transaction)
    }

    /// Signs `transaction` as this node, applies it, and builds the result and
    /// the verification request that carries this node's signature share over
    /// the result's canonical bytes.
    pub fn handle_incoming_transaction(&mut self, transaction: Transaction) -> (o:
        TransactionOutcome)
        requires
            old(self).wf(),
        ensures
            final(self).wf(),
            o.signed.transaction@ == transaction@,
            o.signed.sender_id == old(self).id_spec(),
            o.signed.signature@.len() == 96,
            o.result.node_id == old(self).id_spec(),
            signature_valid(
                old(self).public_key_spec(),
                o.signed.signature@,
                transaction_bytes(transaction@),
            ),
            o.result.success == can_apply(old(self).balances(), transaction@),
            o.result@.transaction == (if o.result.success {
                Some(o.signed@)
            } else {
                None::<SignedTransactionModel>
            }),
            o.verification.result@ == o.result@,
            o.verification.signature_share@.len() == 96,
            signature_valid(
                old(self).public_key_spec(),
                o.verification.signature_share@,
                result_bytes(o.result@),
            ),
            o.result.success ==> final(self).balances() == applied(
                old(self).balances(),
                transaction@,
            ),
            !o.result.success ==> final(self).balances() == old(self).balances(),
            final(self).total() == old(self).total(),
            final(self).id_spec() == old(self).id_spec(),
            final(self).public_key_spec() == old(self).public_key_spec(),
            final(self).peers() == old(self).peers(),
            final(self).results() == old(self).results(),
            final(self).signature_shares() == old(self).signature_shares(),
    {
        let signed = self.sign_transaction(transaction);
        let success = self.process_transaction(&signed);
        let result = TransactionResult {
            node_id: self.id,
            success,
            transaction: if success {
                Some(signed.duplicate())
            } else {
                None
            },
        };
        let bytes = encode_result(&result);
        let signature_share = self.signer.sign(&bytes);
        let verification = TransactionVerificationRequest {
            result: result.duplicate(),
            signature_share,
        };
        TransactionOutcome { result, verification, signed }
    }

    /// Stores a peer's report when its signature share verifies under the key
    /// registered for the reporting node; otherwise drops it.
    pub fn handle_incoming_transaction_verification(
        &mut self,
        request: TransactionVerificationRequest,
    ) -> (r: bool)
        requires
            old(self).wf(),
        ensures
            final(self).wf(),
            r == (old(self).peers().contains_key(request.result.node_id) && signature_valid(
                old(self).peers()[request.result.node_id].public_key,
                request.signature_share@,
                result_bytes(request.result@),
            )),
            r ==> final(self).results() == old(self).results().push(request.result@),
            r ==> final(self).signature_shares() == old(self).signature_shares().push(
                request.signature_share@,
            ),
            !r ==> final(self).results() == old(self).results(),
            !r ==> final(self).signature_shares() == old(self).signature_shares(),
            final(self).balances() == old(self).balances(),
            final(self).peers() == old(self).peers(),
            final(self).id_spec() == old(self).id_spec(),
            final(self).public_key_spec() == old(self).public_key_spec(),
    {
        let peer = match self.peers.lookup(request.result.node_id) {
            Some(p) => p,
            None => return false,
        };
        let bytes = encode_result(&request.result);
        if !verify_signature(&peer.public_key, &request.signature_share, &bytes) {
            return false;
        }
        self.results.push(request.result);
        self.signature_shares.push(request.signature_share);
        assert(self.results() =~= old(self).results().push(request.result@));
        assert(self.signature_shares() =~= old(self).signature_shares().push(
            request.signature_share@,
        ));
        true
    }

    /// Whether at least `threshold` distinct nodes sent authenticated reports
    /// that they applied `transaction`.
    pub fn quorum_reached(&self, transaction: &Transaction, threshold: usize) -> (r: bool)
        ensures
            r == (reporters(self.results(), transaction@).len() >= threshold),
    {
        let ghost t = transaction@;
        let mut seen: Vec<usize> = Vec::new();
        let mut i: usize = 0;
        while i < self.results.len()
            invariant
                i <= self.results@.len(),
                t == transaction@,
                seen@.no_duplicates(),
                seen@.to_set() == reporters(self.results().take(i as int), t),
            decreases self.results@.len() - i,
        {
            let ghost prev = self.results().take(i as int);
            let ghost next = self.results().take(i + 1);
            let ghost before = seen@;
            let r = &self.results[i];
            let mut counts = false;
            if r.success {
                match &r.transaction {
                    Some(st) => {
                        counts = same_transaction(&st.transaction, transaction);
                        assert(r@.transaction == Some(st@));
                    },
                    None => {},
                }
            }
            assert(self.results()[i as int] == self.results@[i as int]@);
            assert(counts == reports(self.results()[i as int], r.node_id, t));
            if counts && !holds(&seen, r.node_id) {
                seen.push(r.node_id);
            }
            proof {
                assert forall|id: usize|
                    reporters(next, t).contains(id) == (reporters(prev, t).contains(id) || reports(
                        self.results()[i as int],
                        id,
                        t,
                    )) by {
                    if reporters(next, t).contains(id) {
                        let j = choose|j: int| 0 <= j < next.len() && reports(next[j], id, t);
                        if j < i {
                            assert(prev[j] == next[j]);
                        }
                    }
                    if reporters(prev, t).contains(id) {
                        let j = choose|j: int| 0 <= j < prev.len() && reports(prev[j], id, t);
                        assert(next[j] == prev[j]);
                    }
                    if reports(self.results()[i as int], id, t) {
                        assert(next[i as int] == self.results()[i as int]);
                    }
                }
                assert forall|id: usize| seen@.contains(id) == (before.contains(id) || (counts && id
                    == r.node_id)) by {
                    if seen@.len() > before.len() {
                        assert(seen@ == before.push(r.node_id));
                        if seen@.contains(id) && id != r.node_id {
                            let j = choose|j: int| 0 <= j < seen@.len() && seen@[j] == id;
                            assert(before[j] == id);
                        }
                        if before.contains(id) {
                            let j = choose|j: int| 0 <= j < before.len() && before[j] == id;
                            assert(seen@[j] == id);
                        }
                        assert(seen@[before.len() as int] == r.node_id);
                    }
                }
                assert(seen@.to_set() =~= reporters(next, t));
            }
            i = i + 1;
        }
        proof {
            seen@.unique_seq_to_set();
            assert(self.results().take(self.results@.len() as int) =~= self.results());
        }
        seen.len() >= threshold
    }

    /// Creates a wallet under a freshly drawn id and returns the announcement
    /// that peers need to mirror it; `None`, with nothing changed, when the
    /// id drawn is already in use, which can only happen once some wallet
    /// holds an id of that shape.
    pub fn handle_incoming_wallet_creation(&mut self, request: WalletCreationRequest) -> (r:
        Option<WalletCreationResponse>)
        requires
            old(self).wf(),
        ensures
            final(self).wf(),
            match r {
                Some(w) => {
                    &&& w.initial_balance == request.initial_balance
                    &&& w.wallet_id@.len() == 36
                    &&& !old(self).balances().contains_key(w.wallet_id@)
                    &&& final(self).balances() == old(self).balances().insert(
                        w.wallet_id@,
                        request.initial_balance as int,
                    )
                },
                None => {
                    &&& final(self).balances() == old(self).balances()
                    &&& exists|k: Seq<char>| old(self).balances().contains_key(k) && k.len() == 36
                },
            },
            final(self).id_spec() == old(self).id_spec(),
            final(self).public_key_spec() == old(self).public_key_spec(),
            final(self).peers() == old(self).peers(),
            final(self).results() == old(self).results(),
            final(self).signature_shares() == old(self).signature_shares(),
    {
        match self.wallets.create(request.initial_balance) {
            Some(wallet_id) => Some(
                WalletCreationResponse { wallet_id, initial_balance: request.initial_balance },
            ),
            None => None,
        }
    }

    /// Mirrors a wallet that a peer created, under the peer's id.
    pub fn handle_wallet_announcement(&mut self, announcement: WalletCreationResponse)
        requires
            old(self).wf(),
        ensures
            final(self).wf(),
            final(self).balances() == old(self).balances().insert(
                announcement.wallet_id@,
                announcement.initial_balance as int,
            ),
            final(self).id_spec() == old(self).id_spec(),
            final(self).public_key_spec() == old(self).public_key_spec(),
            final(self).peers() == old(self).peers(),
            final(self).results() == old(self).results(),
            final(self).signature_shares() == old(self).signature_shares(),
    {
        self.wallets.insert_wallet(announcement.wallet_id, announcement.initial_balance);
    }
}

} // verus!
