//! Plain data shared by all modules.
use vstd::prelude::*;
use std::collections::BTreeSet;

verus! {

/// Public key of a consensus peer. The 32 bytes of the key are held as two
/// big-endian halves, so the order of the pair is the byte order of the key.
pub type PeerPubkey = (u128, u128);

/// Set of voting peers.
pub type PeerSet = BTreeSet<PeerPubkey>;

/// Identifier of a module instance in the consensus.
pub type ModuleId = u32;

/// Kind of a module (which implementation runs it).
pub type ModuleKind = u32;

/// Major part of a consensus version.
pub type ConsensusVersionMajor = u16;

/// Minor part of a consensus version.
pub type ConsensusVersionMinor = u16;

/// Consensus round of a block.
pub type BlockRound = u64;

/// Kind of the consensus control module.
pub const MODULE_KIND_CONSENSUS_CTRL: ModuleKind = 0;

/// Kind of the meta module.
pub const MODULE_KIND_META: ModuleKind = 1;

/// `a` comes strictly before `b` in the byte order of peer keys.
pub open spec fn peer_before(a: PeerPubkey, b: PeerPubkey) -> bool {
    a.0 < b.0 || (a.0 == b.0 && a.1 < b.1)
}

/// `a` comes strictly before `b` in the order of keys made of a byte and a
/// peer key.
pub open spec fn byte_peer_before(a: (u8, PeerPubkey), b: (u8, PeerPubkey)) -> bool {
    a.0 < b.0 || (a.0 == b.0 && peer_before(a.1, b.1))
}

/// Whether two peer keys are the same key.
pub fn peer_eq(a: PeerPubkey, b: PeerPubkey) -> (r: bool)
    ensures
        r == (a == b),
{
    a.0 == b.0 && a.1 == b.1
}

/// Consensus version of a module: a major and a minor number.
#[derive(PartialEq, Eq, Structural, Clone, Copy, Debug)]
pub struct ConsensusVersion {
    pub major: ConsensusVersionMajor,
    pub minor: ConsensusVersionMinor,
}

impl ConsensusVersion {
    #[verifier::allow_in_spec]
    pub fn new(major: ConsensusVersionMajor, minor: ConsensusVersionMinor) -> Self
        returns
            (ConsensusVersion { major, minor }),
    {
        ConsensusVersion { major, minor }
    }

    /// `self` is not newer than `other`: versions are ordered by major,
    /// then minor number.
    pub open spec fn spec_not_newer(self, other: Self) -> bool {
        self.major < other.major || (self.major == other.major && self.minor <= other.minor)
    }

    pub fn not_newer(&self, other: &Self) -> (r: bool)
        ensures
            r == self.spec_not_newer(*other),
    {
        self.major < other.major || (self.major == other.major && self.minor <= other.minor)
    }
}

/// Configuration of a module instance: its kind, its consensus version and
/// its encoded parameters.
#[derive(Debug)]
pub struct ModuleConfig {
    pub kind: ModuleKind,
    pub version: ConsensusVersion,
    pub params: Vec<u8>,
}

/// Plain mathematical form of a module configuration.
pub struct ModuleConfigView {
    pub kind: ModuleKind,
    pub version: ConsensusVersion,
    pub params: Seq<u8>,
}

impl View for ModuleConfig {
    type V = ModuleConfigView;

    open spec fn view(&self) -> ModuleConfigView {
        ModuleConfigView { kind: self.kind, version: self.version, params: self.params@ }
    }
}

impl Clone for ModuleConfig {
    fn clone(&self) -> (r: Self)
        ensures
            r@ == self@,
    {
        ModuleConfig { kind: self.kind, version: self.version, params: self.params.clone() }
    }
}

impl ModuleConfig {
    /// Whether two configurations are the same.
    pub fn same_as(&self, other: &ModuleConfig) -> (r: bool)
        ensures
            r == (self@ == other@),
    {
        if self.kind != other.kind || self.version != other.version {
            return false;
        }
        bytes_eq(&self.params, &other.params)
    }
}

/// Whether two byte strings are equal.
pub fn bytes_eq(a: &[u8], b: &[u8]) -> (r: bool)
    ensures
        r == (a@ == b@),
{
    if a.len() != b.len() {
        return false;
    }
    let mut i: usize = 0;
    while i < a.len()
        invariant
            a@.len() == b@.len(),
            0 <= i <= a@.len(),
            forall|j: int| 0 <= j < i ==> a@[j] == b@[j],
        decreases a@.len() - i,
    {
        if a[i] != b[i] {
            return false;
        }
        i = i + 1;
    }
    proof {
        assert(a@ =~= b@);
    }
    true
}

} // verus!

verus! {

/// Module identifiers listed in strictly increasing order.
pub open spec fn strictly_increasing_ids(q: Seq<ModuleId>) -> bool {
    forall|i: int, j: int| 0 <= i < j < q.len() ==> q[i] < q[j]
}

/// The identifiers of `s` listed in increasing order.
pub open spec fn ascending_ids(s: Set<ModuleId>) -> Seq<ModuleId> {
    choose|q: Seq<ModuleId>| strictly_increasing_ids(q) && q.to_set() == s
}

#[verifier::spinoff_prover]
proof fn lemma_increasing_ids_equal(a: Seq<ModuleId>, b: Seq<ModuleId>)
    requires
        strictly_increasing_ids(a),
        strictly_increasing_ids(b),
        a.to_set() == b.to_set(),
    ensures
        a == b,
    decreases a.len(),
{
    if a.len() == 0 {
        if b.len() > 0 {
            assert(b.to_set().contains(b[0]));
        }
        assert(a =~= b);
    } else {
        assert(a.to_set().contains(a[0]));
        assert(b.to_set().contains(a[0]));
        let k = choose|k: int| 0 <= k < b.len() && b[k] == a[0];
        assert(b.to_set().contains(b[0]));
        let m = choose|m: int| 0 <= m < a.len() && a[m] == b[0];
        assert(a[0] == b[0]);
        let a1 = a.drop_first();
        let b1 = b.drop_first();
        assert forall|x: ModuleId| a1.to_set().contains(x) implies b1.to_set().contains(x) by {
            let i = choose|i: int| 0 <= i < a1.len() && a1[i] == x;
            assert(a.to_set().contains(x));
            let j = choose|j: int| 0 <= j < b.len() && b[j] == x;
            assert(j != 0);
            assert(b1[j - 1] == x);
        }
        assert forall|x: ModuleId| b1.to_set().contains(x) implies a1.to_set().contains(x) by {
            let i = choose|i: int| 0 <= i < b1.len() && b1[i] == x;
            assert(b.to_set().contains(x));
            let j = choose|j: int| 0 <= j < a.len() && a[j] == x;
            assert(j != 0);
            assert(a1[j - 1] == x);
        }
        assert(a1.to_set() =~= b1.to_set());
        lemma_increasing_ids_equal(a1, b1);
        assert(a1 == b1);
        assert(a.len() == a1.len() + 1 && b.len() == b1.len() + 1);
        assert(a.len() == b.len());
        assert forall|i: int| 0 <= i < a.len() implies a[i] == b[i] by {
            if i > 0 {
                assert(a[i] == a1[i - 1]);
                assert(b[i] == b1[i - 1]);
            }
        }
        assert(a =~= b);
    }
}

/// A strictly increasing listing of a set is the ascending listing.
pub proof fn lemma_ascending_ids_unique(q: Seq<ModuleId>, s: Set<ModuleId>)
    requires
        strictly_increasing_ids(q),
        q.to_set() == s,
    ensures
        ascending_ids(s) == q,
{
    let t = ascending_ids(s);
    assert(strictly_increasing_ids(t) && t.to_set() == s);
    lemma_increasing_ids_equal(q, t);
}


/// Every finite set of module identifiers has an ascending listing.
pub proof fn lemma_ascending_ids_lists(s: Set<ModuleId>)
    requires
        s.finite(),
    ensures
        strictly_increasing_ids(ascending_ids(s)),
        ascending_ids(s).to_set() == s,
    decreases s.len(),
{
    if s.len() == 0 {
        let q = Seq::<ModuleId>::empty();
        assert(q.to_set() =~= s) by {
            if exists|x: ModuleId| s.contains(x) {
                let x = choose|x: ModuleId| s.contains(x);
                assert(s.remove(x).len() + 1 == s.len());
            }
        }
        assert(strictly_increasing_ids(q) && q.to_set() == s);
    } else {
        let leq = |a: ModuleId, b: ModuleId| a <= b;
        assert(vstd::relations::total_ordering(leq)) by {
            assert(vstd::relations::reflexive(leq));
            assert(vstd::relations::antisymmetric(leq));
            assert(vstd::relations::transitive(leq));
            assert(vstd::relations::strongly_connected(leq));
        }
        s.find_unique_maximal_ensures(leq);
        let mx = s.find_unique_maximal(leq);
        let t = s.remove(mx);
        lemma_ascending_ids_lists(t);
        let p = ascending_ids(t);
        let q = p.push(mx);
        assert forall|i: int| 0 <= i < p.len() implies p[i] < mx by {
            assert(p.to_set().contains(p[i]));
            assert(s.contains(p[i]));
            if leq(mx, p[i]) {
                assert(leq(p[i], mx));
            }
        }
        assert(strictly_increasing_ids(q)) by {
            assert forall|i: int, j: int| 0 <= i < j < q.len() implies q[i] < q[j] by {
                if j == q.len() - 1 {
                    assert(q[j] == mx);
                    assert(q[i] == p[i]);
                } else {
                    assert(q[i] == p[i] && q[j] == p[j]);
                }
            }
        }
        assert(q.to_set() =~= s) by {
            assert forall|x: ModuleId| q.to_set().contains(x) <==> s.contains(x) by {
                if s.contains(x) && x != mx {
                    assert(p.to_set().contains(x));
                    let k = choose|k: int| 0 <= k < p.len() && p[k] == x;
                    assert(q[k] == x);
                }
                if x == mx {
                    assert(q[q.len() - 1] == mx);
                }
                if q.to_set().contains(x) {
                    let k = choose|k: int| 0 <= k < q.len() && q[k] == x;
                    if k < p.len() {
                        assert(p[k] == x);
                        assert(p.to_set().contains(x));
                    }
                }
            }
        }
        assert(strictly_increasing_ids(q) && q.to_set() == s);
    }
}

/// Byte keys listed in strictly increasing order.
pub open spec fn strictly_increasing_bytes(q: Seq<u8>) -> bool {
    forall|i: int, j: int| 0 <= i < j < q.len() ==> q[i] < q[j]
}

/// The byte keys of `s` listed in increasing order.
pub open spec fn ascending_bytes(s: Set<u8>) -> Seq<u8> {
    choose|q: Seq<u8>| strictly_increasing_bytes(q) && q.to_set() == s
}

#[verifier::spinoff_prover]
proof fn lemma_increasing_bytes_equal(a: Seq<u8>, b: Seq<u8>)
    requires
        strictly_increasing_bytes(a),
        strictly_increasing_bytes(b),
        a.to_set() == b.to_set(),
    ensures
        a == b,
    decreases a.len(),
{
    if a.len() == 0 {
        if b.len() > 0 {
            assert(b.to_set().contains(b[0]));
        }
        assert(a =~= b);
    } else {
        assert(a.to_set().contains(a[0]));
        assert(b.to_set().contains(a[0]));
        let k = choose|k: int| 0 <= k < b.len() && b[k] == a[0];
        assert(b.to_set().contains(b[0]));
        let m = choose|m: int| 0 <= m < a.len() && a[m] == b[0];
        assert(a[0] == b[0]);
        let a1 = a.drop_first();
        let b1 = b.drop_first();
        assert forall|x: u8| a1.to_set().contains(x) implies b1.to_set().contains(x) by {
            let i = choose|i: int| 0 <= i < a1.len() && a1[i] == x;
            assert(a.to_set().contains(x));
            let j = choose|j: int| 0 <= j < b.len() && b[j] == x;
            assert(j != 0);
            assert(b1[j - 1] == x);
        }
        assert forall|x: u8| b1.to_set().contains(x) implies a1.to_set().contains(x) by {
            let i = choose|i: int| 0 <= i < b1.len() && b1[i] == x;
            assert(b.to_set().contains(x));
            let j = choose|j: int| 0 <= j < a.len() && a[j] == x;
            assert(j != 0);
            assert(a1[j - 1] == x);
        }
        assert(a1.to_set() =~= b1.to_set());
        lemma_increasing_bytes_equal(a1, b1);
        assert(a1 == b1);
        assert(a.len() == a1.len() + 1 && b.len() == b1.len() + 1);
        assert(a.len() == b.len());
        assert forall|i: int| 0 <= i < a.len() implies a[i] == b[i] by {
            if i > 0 {
                assert(a[i] == a1[i - 1]);
                assert(b[i] == b1[i - 1]);
            }
        }
        assert(a =~= b);
    }
}

/// A strictly increasing listing of a set of byte keys is the ascending
/// listing.
pub proof fn lemma_ascending_bytes_unique(q: Seq<u8>, s: Set<u8>)
    requires
        strictly_increasing_bytes(q),
        q.to_set() == s,
    ensures
        ascending_bytes(s) == q,
{
    let t = ascending_bytes(s);
    assert(strictly_increasing_bytes(t) && t.to_set() == s);
    lemma_increasing_bytes_equal(q, t);
}

/// Every finite set of byte keys has an ascending listing.
pub proof fn lemma_ascending_bytes_lists(s: Set<u8>)
    requires
        s.finite(),
    ensures
        strictly_increasing_bytes(ascending_bytes(s)),
        ascending_bytes(s).to_set() == s,
    decreases s.len(),
{
    if s.len() == 0 {
        let q = Seq::<u8>::empty();
        assert(q.to_set() =~= s) by {
            if exists|x: u8| s.contains(x) {
                let x = choose|x: u8| s.contains(x);
                assert(s.remove(x).len() + 1 == s.len());
            }
        }
        assert(strictly_increasing_bytes(q) && q.to_set() == s);
    } else {
        let leq = |a: u8, b: u8| a <= b;
        assert(vstd::relations::total_ordering(leq)) by {
            assert(vstd::relations::reflexive(leq));
            assert(vstd::relations::antisymmetric(leq));
            assert(vstd::relations::transitive(leq));
            assert(vstd::relations::strongly_connected(leq));
        }
        s.find_unique_maximal_ensures(leq);
        let mx = s.find_unique_maximal(leq);
        let t = s.remove(mx);
        lemma_ascending_bytes_lists(t);
        let p = ascending_bytes(t);
        let q = p.push(mx);
        assert forall|i: int| 0 <= i < p.len() implies p[i] < mx by {
            assert(p.to_set().contains(p[i]));
            assert(s.contains(p[i]));
            if leq(mx, p[i]) {
                assert(leq(p[i], mx));
            }
        }
        assert(strictly_increasing_bytes(q)) by {
            assert forall|i: int, j: int| 0 <= i < j < q.len() implies q[i] < q[j] by {
                if j == q.len() - 1 {
                    assert(q[j] == mx);
                    assert(q[i] == p[i]);
                } else {
                    assert(q[i] == p[i] && q[j] == p[j]);
                }
            }
        }
        assert(q.to_set() =~= s) by {
            assert forall|x: u8| q.to_set().contains(x) <==> s.contains(x) by {
                if s.contains(x) && x != mx {
                    assert(p.to_set().contains(x));
                    let k = choose|k: int| 0 <= k < p.len() && p[k] == x;
                    assert(q[k] == x);
                }
                if x == mx {
                    assert(q[q.len() - 1] == mx);
                }
                if q.to_set().contains(x) {
                    let k = choose|k: int| 0 <= k < q.len() && q[k] == x;
                    if k < p.len() {
                        assert(p[k] == x);
                        assert(p.to_set().contains(x));
                    }
                }
            }
        }
        assert(strictly_increasing_bytes(q) && q.to_set() == s);
    }
}

} // verus!
