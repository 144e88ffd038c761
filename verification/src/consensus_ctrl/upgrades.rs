//! Module version upgrades: a module moves to the newest minor version that
//! every voting peer supports.
use vstd::prelude::*;
use std::collections::BTreeMap;

use crate::effects::ModuleVersionUpgradeEffect;
use crate::keys::{lemma_ascending_u32, lemma_lawful_keys, set_elements, sorted_keys};
use crate::types::{
    ascending_ids, lemma_ascending_ids_unique, ConsensusVersion, ConsensusVersionMinor,
    ModuleConfig, ModuleId, PeerPubkey, PeerSet,
};

verus! {

/// Table of the versions peers voted for: `(voter, module) -> version`.
pub type VersionVotes = BTreeMap<(PeerPubkey, ModuleId), ConsensusVersion>;

/// Minor version `peer` voted for module `m`; a missing vote counts as 0.
pub open spec fn peer_minor_vote(
    votes: Map<(PeerPubkey, ModuleId), ConsensusVersion>,
    peer: PeerPubkey,
    m: ModuleId,
) -> ConsensusVersionMinor {
    if votes.contains_key((peer, m)) {
        votes[(peer, m)].minor
    } else {
        0
    }
}

/// `v` is the smallest minor version that a peer of `peers` voted for `m`.
pub open spec fn is_agreed_minor(
    votes: Map<(PeerPubkey, ModuleId), ConsensusVersion>,
    peers: Set<PeerPubkey>,
    m: ModuleId,
    v: ConsensusVersionMinor,
) -> bool {
    &&& exists|p: PeerPubkey| peers.contains(p) && peer_minor_vote(votes, p, m) == v
    &&& forall|p: PeerPubkey| peers.contains(p) ==> v <= peer_minor_vote(votes, p, m)
}

/// The minor version of `m` all peers of `peers` agree on.
pub open spec fn agreed_minor(
    votes: Map<(PeerPubkey, ModuleId), ConsensusVersion>,
    peers: Set<PeerPubkey>,
    m: ModuleId,
) -> ConsensusVersionMinor {
    choose|v: ConsensusVersionMinor| is_agreed_minor(votes, peers, m, v)
}

/// Module `m` is due an upgrade: the peers agree on a minor version above
/// its current one.
pub open spec fn upgrade_due(
    configs: Map<ModuleId, ModuleConfig>,
    votes: Map<(PeerPubkey, ModuleId), ConsensusVersion>,
    peers: Set<PeerPubkey>,
    m: ModuleId,
) -> bool {
    &&& configs.contains_key(m)
    &&& exists|p: PeerPubkey| peers.contains(p)
    &&& agreed_minor(votes, peers, m) > configs[m].version.minor
}

/// The upgrade of module `m`.
pub open spec fn spec_upgrade(
    configs: Map<ModuleId, ModuleConfig>,
    votes: Map<(PeerPubkey, ModuleId), ConsensusVersion>,
    peers: Set<PeerPubkey>,
    m: ModuleId,
) -> ModuleVersionUpgradeEffect {
    ModuleVersionUpgradeEffect {
        module_id: m,
        old_version: configs[m].version,
        new_version: ConsensusVersion {
            major: configs[m].version.major,
            minor: agreed_minor(votes, peers, m),
        },
    }
}

/// All upgrades due, in increasing module order.
pub open spec fn spec_upgrades(
    configs: Map<ModuleId, ModuleConfig>,
    votes: Map<(PeerPubkey, ModuleId), ConsensusVersion>,
    peers: Set<PeerPubkey>,
) -> Seq<ModuleVersionUpgradeEffect> {
    ascending_ids(configs.dom()).filter(|m: ModuleId| upgrade_due(configs, votes, peers, m)).map_values(
        |m: ModuleId| spec_upgrade(configs, votes, peers, m),
    )
}

/// `new` is `old` with every due upgrade applied.
pub open spec fn upgrades_applied(
    old: Map<ModuleId, ModuleConfig>,
    new: Map<ModuleId, ModuleConfig>,
    votes: Map<(PeerPubkey, ModuleId), ConsensusVersion>,
    peers: Set<PeerPubkey>,
) -> bool {
    &&& new.dom() == old.dom()
    &&& forall|m: ModuleId| #[trigger]
        old.contains_key(m) ==> {
            &&& new[m].kind == old[m].kind
            &&& new[m].params@ == old[m].params@
            &&& if upgrade_due(old, votes, peers, m) {
                new[m].version == spec_upgrade(old, votes, peers, m).new_version
            } else {
                new[m].version == old[m].version
            }
        }
}

/// The smallest agreed minor version is unique.
pub proof fn lemma_agreed_minor_unique(
    votes: Map<(PeerPubkey, ModuleId), ConsensusVersion>,
    peers: Set<PeerPubkey>,
    m: ModuleId,
    v: ConsensusVersionMinor,
)
    requires
        is_agreed_minor(votes, peers, m, v),
    ensures
        agreed_minor(votes, peers, m) == v,
{
    let w = agreed_minor(votes, peers, m);
    assert(is_agreed_minor(votes, peers, m, w));
    let p = choose|p: PeerPubkey| peers.contains(p) && peer_minor_vote(votes, p, m) == v;
    let q = choose|q: PeerPubkey| peers.contains(q) && peer_minor_vote(votes, q, m) == w;
    assert(w <= v);
    assert(v <= w);
}

/// Smallest minor version that a peer of `peers` voted for module `m`, or
/// `None` when there are no peers.
fn min_minor_vote(votes: &VersionVotes, peers: &Vec<PeerPubkey>, m: ModuleId) -> (r: Option<
    ConsensusVersionMinor,
>)
    ensures
        r is None <==> peers@.len() == 0,
        r matches Some(v) ==> is_agreed_minor(votes@, peers@.to_set(), m, v),
{
    proof {
        lemma_lawful_keys();
    }
    let mut min: Option<ConsensusVersionMinor> = None;
    let mut i: usize = 0;
    while i < peers.len()
        invariant
            0 <= i <= peers@.len(),
            min is None <==> i == 0,
            min matches Some(v) ==> {
                &&& exists|j: int|
                    0 <= j < i && peer_minor_vote(votes@, peers@[j], m) == v
                &&& forall|j: int| 0 <= j < i ==> v <= peer_minor_vote(votes@, peers@[j], m)
            },
        decreases peers@.len() - i,
    {
        let p = peers[i];
        let vote = match votes.get(&(p, m)) {
            Some(v) => v.minor,
            None => 0,
        };
        let next = match min {
            None => vote,
            Some(cur) => if vote < cur {
                vote
            } else {
                cur
            },
        };
        proof {
            assert(peer_minor_vote(votes@, peers@[i as int], m) == vote);
            if let Some(cur) = min {
                let j = choose|j: int| 0 <= j < i && peer_minor_vote(votes@, peers@[j], m) == cur;
                if vote < cur {
                    assert(0 <= i < i + 1 && peer_minor_vote(votes@, peers@[i as int], m) == next);
                } else {
                    assert(0 <= j < i + 1 && peer_minor_vote(votes@, peers@[j], m) == next);
                }
            } else {
                assert(0 <= i < i + 1 && peer_minor_vote(votes@, peers@[i as int], m) == next);
            }
        }
        min = Some(next);
        i = i + 1;
    }
    proof {
        if let Some(v) = min {
            let j = choose|j: int| 0 <= j < i && peer_minor_vote(votes@, peers@[j], m) == v;
            assert(peers@.to_set().contains(peers@[j]));
            assert forall|p: PeerPubkey| peers@.to_set().contains(p) implies v <= peer_minor_vote(
                votes@,
                p,
                m,
            ) by {
                let k = choose|k: int| 0 <= k < peers@.len() && peers@[k] == p;
            }
        }
    }
    min
}

/// Raises every module's version to the minor version all peers of
/// `peer_set` agree on, when that is above its current one, and returns the
/// upgrades in increasing module order.
pub fn check_module_version_upgrades(
    configs: &mut BTreeMap<ModuleId, ModuleConfig>,
    votes: &VersionVotes,
    peer_set: &PeerSet,
) -> (r: Vec<ModuleVersionUpgradeEffect>)
    ensures
        upgrades_applied(old(configs)@, final(configs)@, votes@, peer_set@),
        r@ == spec_upgrades(old(configs)@, votes@, peer_set@),
{
    proof {
        lemma_lawful_keys();
    }
    let ids = sorted_keys(configs);
    let peers = set_elements(peer_set);
    let ghost old_configs = configs@;
    let ghost due = |m: ModuleId| upgrade_due(old_configs, votes@, peer_set@, m);
    let ghost mk = |m: ModuleId| spec_upgrade(old_configs, votes@, peer_set@, m);
    proof {
        lemma_ascending_u32(ids@);
        lemma_ascending_ids_unique(ids@, old_configs.dom());
    }
    let mut upgrades: Vec<ModuleVersionUpgradeEffect> = Vec::new();
    let mut i: usize = 0;
    while i < ids.len()
        invariant
            0 <= i <= ids@.len(),
            ids@ == ascending_ids(old_configs.dom()),
            ids@.to_set() == old_configs.dom(),
            configs@ == old_configs,
            peers@.to_set() == peer_set@,
            due == (|m: ModuleId| upgrade_due(old_configs, votes@, peer_set@, m)),
            mk == (|m: ModuleId| spec_upgrade(old_configs, votes@, peer_set@, m)),
            upgrades@ == ids@.take(i as int).filter(due).map_values(mk),
        decreases ids@.len() - i,
    {
        let m = ids[i];
        proof {
            assert(ids@.to_set().contains(m));
        }
        let current = match configs.get(&m) {
            Some(c) => c.version,
            None => {
                proof {
                    assert(false);
                }
                ConsensusVersion { major: 0, minor: 0 }
            },
        };
        let agreed = min_minor_vote(votes, &peers, m);
        proof {
            assert(ids@.take(i as int + 1) =~= ids@.take(i as int).push(m));
            ids@.take(i as int).lemma_filter_push(m, due);
            ids@.take(i as int).filter(due).lemma_push_map_commute(mk, m);
            assert(current == old_configs[m].version);
            if let Some(v) = agreed {
                lemma_agreed_minor_unique(votes@, peer_set@, m, v);
                assert(peer_set@.contains(peers@[0]));
                assert(due(m) == (v > current.minor));
            } else {
                if exists|p: PeerPubkey| peer_set@.contains(p) {
                    let p = choose|p: PeerPubkey| peer_set@.contains(p);
                    assert(peers@.to_set().contains(p));
                }
                assert(!due(m));
            }
        }
        match agreed {
            Some(v) => {
                if v > current.minor {
                    upgrades.push(
                        ModuleVersionUpgradeEffect {
                            module_id: m,
                            old_version: current,
                            new_version: ConsensusVersion { major: current.major, minor: v },
                        },
                    );
                }
            },
            None => {},
        }
        i = i + 1;
    }
    proof {
        assert(ids@.take(i as int) =~= ids@);
    }
    let mut k: usize = 0;
    while k < upgrades.len()
        invariant
            0 <= k <= upgrades@.len(),
            upgrades@ == ids@.filter(due).map_values(mk),
            ids@.to_set() == old_configs.dom(),
            due == (|m: ModuleId| upgrade_due(old_configs, votes@, peer_set@, m)),
            mk == (|m: ModuleId| spec_upgrade(old_configs, votes@, peer_set@, m)),
            configs@.dom() == old_configs.dom(),
            forall|m: ModuleId| #[trigger]
                old_configs.contains_key(m) ==> {
                    &&& configs@[m].kind == old_configs[m].kind
                    &&& configs@[m].params@ == old_configs[m].params@
                    &&& if due(m) && ids@.filter(due).take(k as int).contains(m) {
                        configs@[m].version == mk(m).new_version
                    } else {
                        configs@[m].version == old_configs[m].version
                    }
                },
        decreases upgrades@.len() - k,
    {
        let u = upgrades[k];
        let ghost m = ids@.filter(due)[k as int];
        proof {
            assert(u == mk(m));
            assert(ids@.filter(due).contains(m));
            ids@.lemma_filter_contains_rev(due, m);
            assert(ids@.to_set().contains(m));
        }
        let updated = match configs.get(&u.module_id) {
            Some(c) => ModuleConfig {
                kind: c.kind,
                version: u.new_version,
                params: c.params.clone(),
            },
            None => {
                proof {
                    assert(false);
                }
                ModuleConfig { kind: 0, version: u.new_version, params: Vec::new() }
            },
        };
        proof {
            assert(updated.params@ =~= old_configs[m].params@);
        }
        configs.insert(u.module_id, updated);
        proof {
            assert(ids@.filter(due).take(k as int + 1) =~= ids@.filter(due).take(k as int).push(m));
            assert forall|x: ModuleId| #[trigger] old_configs.contains_key(x) implies {
                &&& configs@[x].kind == old_configs[x].kind
                &&& configs@[x].params@ == old_configs[x].params@
                &&& if due(x) && ids@.filter(due).take(k as int + 1).contains(x) {
                    configs@[x].version == mk(x).new_version
                } else {
                    configs@[x].version == old_configs[x].version
                }
            } by {
                if x != m {
                    assert(ids@.filter(due).take(k as int + 1).contains(x) == ids@.filter(
                        due,
                    ).take(k as int).contains(x));
                } else {
                    assert(ids@.filter(due).take(k as int + 1)[k as int] == m);
                }
            }
        }
        k = k + 1;
    }
    proof {
        assert(ids@.filter(due).take(k as int) =~= ids@.filter(due));
        assert forall|m: ModuleId| #[trigger] old_configs.contains_key(m) && due(m) implies ids@.filter(
            due,
        ).contains(m) by {
            assert(ids@.to_set().contains(m));
            let j = choose|j: int| 0 <= j < ids@.len() && ids@[j] == m;
            broadcast use vstd::seq_lib::group_filter_ensures;

            ids@.lemma_filter_contains(due, j);
        }
    }
    upgrades
}

} // verus!
