//! The peer registry: for each node id, the peer's public key and address.
use vstd::prelude::*;

verus! {

/// A known peer: its node id, the compressed bytes of its public key, and
/// its network address.
pub struct Peer {
    pub node_id: usize,
    pub public_key: Vec<u8>,
    pub address: String,
}

pub struct PeerModel {
    pub public_key: Seq<u8>,
    pub address: Seq<char>,
}

impl View for Peer {
    type V = PeerModel;

    open spec fn view(&self) -> PeerModel {
        PeerModel { public_key: self.public_key@, address: self.address@ }
    }
}

impl Peer {
    pub fn duplicate(&self) -> (r: Peer)
        ensures
            r.node_id == self.node_id,
            r@ == self@,
    {
        Peer {
            node_id: self.node_id,
            public_key: self.public_key.clone(),
            address: self.address.clone(),
        }
    }
}

/// `s` lists the entries of `m`, each node id once.
pub open spec fn lists(s: Seq<Peer>, m: Map<usize, PeerModel>) -> bool {
    &&& forall|i: int, j: int| 0 <= i < j < s.len() ==> s[i].node_id != s[j].node_id
    &&& forall|i: int|
        0 <= i < s.len() ==> #[trigger] m.contains_key(s[i].node_id) && m[s[i].node_id] == s[i]@
    &&& forall|k: usize| #[trigger]
        m.contains_key(k) ==> exists|i: int| 0 <= i < s.len() && s[i].node_id == k
}

/// The registry after recording `node_id` with `public_key` and `address`:
/// the last registration of a node id wins.
pub open spec fn registered(
    m: Map<usize, PeerModel>,
    node_id: usize,
    public_key: Seq<u8>,
    address: Seq<char>,
) -> Map<usize, PeerModel> {
    m.insert(node_id, PeerModel { public_key, address })
}

/// Registering the same peer twice leaves the registry as registering it once.
pub proof fn lemma_register_idempotent(
    m: Map<usize, PeerModel>,
    node_id: usize,
    public_key: Seq<u8>,
    address: Seq<char>,
)
    ensures
        registered(registered(m, node_id, public_key, address), node_id, public_key, address)
            == registered(m, node_id, public_key, address),
{
    assert(registered(registered(m, node_id, public_key, address), node_id, public_key, address)
        =~= registered(m, node_id, public_key, address));
}

pub struct PeerRegistry {
    peers: Vec<Peer>,
    entries: Ghost<Map<usize, PeerModel>>,
}

impl View for PeerRegistry {
    type V = Map<usize, PeerModel>;

    closed spec fn view(&self) -> Map<usize, PeerModel> {
        self.entries@
    }
}

impl PeerRegistry {
    pub closed spec fn wf(&self) -> bool {
        lists(self.peers@, self.entries@)
    }

    pub fn new() -> (r: PeerRegistry)
        ensures
            r.wf(),
            r@ == Map::<usize, PeerModel>::empty(),
    {
        PeerRegistry { peers: Vec::new(), entries: Ghost(Map::empty()) }
    }

    fn find(&self, node_id: usize) -> (r: Option<usize>)
        requires
            self.wf(),
        ensures
            match r {
                Some(i) => {
                    &&& i < self.peers@.len()
                    &&& self.peers@[i as int].node_id == node_id
                    &&& self@.contains_key(node_id)
                    &&& self@[node_id] == self.peers@[i as int]@
                },
                None => !self@.contains_key(node_id),
            },
    {
        let mut i: usize = 0;
        while i < self.peers.len()
            invariant
                self.wf(),
                i <= self.peers@.len(),
                forall|j: int| 0 <= j < i ==> self.peers@[j].node_id != node_id,
            decreases self.peers@.len() - i,
        {
            if self.peers[i].node_id == node_id {
                assert(self.entries@.contains_key(self.peers@[i as int].node_id));
                return Some(i);
            }
            i = i + 1;
        }
        None
    }

    /// Inserts the peer, or overwrites the record of a peer with the same id.
    pub fn register(&mut self, node_id: usize, public_key: Vec<u8>, address: String)
        requires
            old(self).wf(),
        ensures
            final(self).wf(),
            final(self)@ == registered(old(self)@, node_id, public_key@, address@),
    {
        let ghost before = self.peers@;
        let ghost model = PeerModel { public_key: public_key@, address: address@ };
        let peer = Peer { node_id, public_key, address };
        let found = self.find(node_id);
        let ghost at: int = match found {
            Some(i) => i as int,
            None => before.len() as int,
        };
        match found {
            Some(i) => {
                self.peers.set(i, peer);
                proof {
                    assert forall|j: int| 0 <= j < self.peers@.len() && j != i implies #[trigger]
                        self.peers@[j].node_id != node_id by {
                        assert(before[j].node_id != before[i as int].node_id);
                    }
                }
            },
            None => {
                self.peers.push(peer);
            },
        }
        self.entries = Ghost(self.entries@.insert(node_id, model));
        proof {
            assert forall|k: usize| #[trigger] self.entries@.contains_key(k) implies exists|j: int|
                0 <= j < self.peers@.len() && self.peers@[j].node_id == k by {
                if k != node_id {
                    let j = choose|j: int| 0 <= j < before.len() && before[j].node_id == k;
                    assert(self.peers@[j].node_id == k);
                } else {
                    assert(self.peers@[at].node_id == k);
                }
            }
        }
    }

    /// The record of `node_id`, if it is registered.
    pub fn lookup(&self, node_id: usize) -> (r: Option<Peer>)
        requires
            self.wf(),
        ensures
            match r {
                Some(p) => self@.contains_key(node_id) && p.node_id == node_id && p@
                    == self@[node_id],
                None => !self@.contains_key(node_id),
            },
    {
        match self.find(node_id) {
            Some(i) => Some(self.peers[i].duplicate()),
            None => None,
        }
    }

    /// A copy of every record, each node id once.
    pub fn snapshot(&self) -> (r: Vec<Peer>)
        requires
            self.wf(),
        ensures
            lists(r@, self@),
    {
        let mut r: Vec<Peer> = Vec::new();
        let mut i: usize = 0;
        while i < self.peers.len()
            invariant
                self.wf(),
                i <= self.peers@.len(),
                r@.len() == i,
                forall|j: int|
                    #![trigger r@[j]]
                    0 <= j < i ==> r@[j].node_id == self.peers@[j].node_id && r@[j]@
                        == self.peers@[j]@,
            decreases self.peers@.len() - i,
        {
            r.push(self.peers[i].duplicate());
            i = i + 1;
        }
        proof {
            assert forall|k: usize| #[trigger] self@.contains_key(k) implies exists|j: int|
                0 <= j < r@.len() && r@[j].node_id == k by {
                let j = choose|j: int| 0 <= j < self.peers@.len() && self.peers@[j].node_id == k;
                assert(r@[j].node_id == k);
            }
        }
        r
    }
}

/// The addresses of `peers`, in order.
pub fn addresses_of(peers: &Vec<Peer>) -> (r: Vec<String>)
    ensures
        r@.len() == peers@.len(),
        forall|i: int| 0 <= i < r@.len() ==> #[trigger] r@[i]@ == peers@[i].address@,
{
    let mut r: Vec<String> = Vec::new();
    let mut i: usize = 0;
    while i < peers.len()
        invariant
            i <= peers@.len(),
            r@.len() == i,
            forall|j: int| 0 <= j < i ==> #[trigger] r@[j]@ == peers@[j].address@,
        decreases peers@.len() - i,
    {
        r.push(peers[i].address.clone());
        i = i + 1;
    }
    r
}

} // verus!
