use std::collections::BTreeMap;

use bfte::consensus::{ConsensusModuleInit, CONSENSUS_KIND};
use bfte::consensus_ctrl::init::{AppConsensusModuleInit, CURRENT_VERSION_MAJOR, CURRENT_VERSION_MINOR};
use bfte::consensus_ctrl::module::{AppConsensusModule, ConsensusCtrlError};
use bfte::consensus_ctrl::upgrades::check_module_version_upgrades;
use bfte::consensus_ctrl::ConsensusCtrlCitem;
use bfte::effects::{CItemEffect, ModuleVersionUpgradeEffect};
use bfte::module_init::ModuleInitError;
use bfte::num_peers::{max_faulty, threshold};
use bfte::types::{ConsensusVersion, ModuleConfig, PeerPubkey, PeerSet, MODULE_KIND_META};

fn peer(n: u128) -> PeerPubkey {
    (n, 1000 + n)
}

fn set(peers: &[PeerPubkey]) -> PeerSet {
    peers.iter().copied().collect()
}

fn module(peers: &[PeerPubkey], me: Option<PeerPubkey>) -> AppConsensusModule {
    let init = AppConsensusModuleInit;
    let mut db = AppConsensusModule::init_db_tx();
    let config = init.bootstrap_consensus(&mut db, 0, &set(peers));
    init.init(config.version, db, me).unwrap()
}

fn add_meta(m: &mut AppConsensusModule, id: u32, minor: u16) {
    m.db.modules_configs.insert(
        id,
        ModuleConfig {
            kind: MODULE_KIND_META,
            version: ConsensusVersion { major: 0, minor },
            params: vec![],
        },
    );
}

#[test]
fn threshold_formula() {
    assert_eq!(max_faulty(1), 0);
    assert_eq!(max_faulty(4), 1);
    assert_eq!(max_faulty(7), 2);
    assert_eq!(threshold(1), 1);
    assert_eq!(threshold(2), 2);
    assert_eq!(threshold(3), 3);
    assert_eq!(threshold(4), 3);
    assert_eq!(threshold(10), 7);
}

#[test]
fn ctrl_single_peer_adds_peer_at_once() {
    let me = peer(1);
    let mut m = module(&[me], Some(me));
    let effects = m
        .process_citem(me, &set(&[me]), &ConsensusCtrlCitem::VoteAddPeer(peer(2)))
        .unwrap();
    assert_eq!(effects.len(), 2);
    assert!(matches!(&effects[0], CItemEffect::AddPeer(a) if a.peer == peer(2)));
    match &effects[1] {
        CItemEffect::ConsensusParamsChange(c) => assert_eq!(c.peer_set, set(&[me, peer(2)])),
        other => panic!("unexpected {other:?}"),
    }
    assert_eq!(m.get_peer_set(), set(&[me, peer(2)]));
    assert!(m.get_add_peer_votes().is_empty());
}

#[test]
fn ctrl_add_needs_threshold_of_current_peers() {
    let ps = [peer(1), peer(2), peer(3), peer(4)];
    let mut m = module(&ps, Some(peer(1)));
    let current = set(&ps);
    let citem = ConsensusCtrlCitem::VoteAddPeer(peer(9));
    assert!(m.process_citem(peer(1), &current, &citem).unwrap().is_empty());
    assert!(m.process_citem(peer(2), &current, &citem).unwrap().is_empty());
    assert_eq!(m.get_peer_set(), current);
    assert_eq!(m.get_add_peer_votes().len(), 2);
    let effects = m.process_citem(peer(3), &current, &citem).unwrap();
    assert_eq!(effects.len(), 2);
    assert!(matches!(&effects[0], CItemEffect::AddPeer(a) if a.peer == peer(9)));
    let mut grown = ps.to_vec();
    grown.push(peer(9));
    assert!(matches!(&effects[1], CItemEffect::ConsensusParamsChange(c) if c.peer_set == set(&grown)));
    assert_eq!(m.get_peer_set(), set(&grown));
    assert!(m.get_add_peer_votes().is_empty());
}

#[test]
fn ctrl_adding_existing_peer_is_refused() {
    let me = peer(1);
    let mut m = module(&[me], Some(me));
    let r = m.process_citem(me, &set(&[me]), &ConsensusCtrlCitem::VoteAddPeer(me));
    assert_eq!(r.unwrap_err(), ConsensusCtrlError::PeerAlreadyInPeerSet);
}

#[test]
fn ctrl_remove_needs_threshold_and_clears_votes() {
    let ps = [peer(1), peer(2), peer(3), peer(4)];
    let mut m = module(&ps, Some(peer(1)));
    let current = set(&ps);
    let citem = ConsensusCtrlCitem::VoteRemovePeer(peer(4));
    assert!(m.process_citem(peer(1), &current, &citem).unwrap().is_empty());
    assert!(m.process_citem(peer(2), &current, &citem).unwrap().is_empty());
    assert_eq!(m.get_remove_peer_votes().len(), 2);
    let effects = m.process_citem(peer(3), &current, &citem).unwrap();
    assert!(matches!(&effects[0], CItemEffect::RemovePeer(r) if r.peer == peer(4)));
    assert!(matches!(&effects[1], CItemEffect::ConsensusParamsChange(c) if c.peer_set == set(&ps[..3])));
    assert!(m.get_remove_peer_votes().is_empty());
    assert_eq!(m.get_peer_set(), set(&ps[..3]));
}

#[test]
fn ctrl_repeated_remove_vote_is_noop() {
    let ps = [peer(1), peer(2), peer(3)];
    let mut m = module(&ps, Some(peer(1)));
    let citem = ConsensusCtrlCitem::VoteRemovePeer(peer(3));
    assert!(m.process_citem(peer(1), &set(&ps), &citem).unwrap().is_empty());
    let before = m.get_remove_peer_votes();
    assert!(m.process_citem(peer(1), &set(&ps), &citem).unwrap().is_empty());
    assert_eq!(m.get_remove_peer_votes(), before);
}

#[test]
fn ctrl_cannot_remove_last_peer() {
    let me = peer(1);
    let mut m = module(&[me], Some(me));
    let r = m.process_citem(me, &set(&[me]), &ConsensusCtrlCitem::VoteRemovePeer(me));
    assert_eq!(r.unwrap_err(), ConsensusCtrlError::CannotRemoveLastPeer);
    let r = m.process_citem(me, &set(&[me]), &ConsensusCtrlCitem::VoteRemovePeer(peer(5)));
    assert_eq!(r.unwrap_err(), ConsensusCtrlError::PeerNotInLatestPeerSet);
    assert_eq!(m.set_pending_remove_peer_vote(me).unwrap_err(), ConsensusCtrlError::CannotRemoveLastPeer);
}

#[test]
fn ctrl_version_vote_upgrades_when_all_agree() {
    let ps = [peer(1), peer(2)];
    let mut m = module(&ps, Some(peer(1)));
    add_meta(&mut m, 1, 0);
    let vote = ConsensusCtrlCitem::VoteModuleVersion { module_id: 1, minor_consensus_version: 3 };
    assert!(m.process_citem(peer(1), &set(&ps), &vote).unwrap().is_empty());
    let effects = m.process_citem(peer(2), &set(&ps), &vote).unwrap();
    assert_eq!(effects.len(), 1);
    match &effects[0] {
        CItemEffect::ModuleVersionUpgrade(u) => assert_eq!(
            *u,
            ModuleVersionUpgradeEffect {
                module_id: 1,
                old_version: ConsensusVersion { major: 0, minor: 0 },
                new_version: ConsensusVersion { major: 0, minor: 3 },
            }
        ),
        other => panic!("unexpected {other:?}"),
    }
    assert_eq!(m.get_modules_configs()[&1].version, ConsensusVersion { major: 0, minor: 3 });
    let r = m.process_citem(
        peer(1),
        &set(&ps),
        &ConsensusCtrlCitem::VoteModuleVersion { module_id: 9, minor_consensus_version: 1 },
    );
    assert_eq!(r.unwrap_err(), ConsensusCtrlError::ModuleNotFound);
}

#[test]
fn ctrl_upgrade_takes_smallest_vote() {
    let ps = [peer(1), peer(2), peer(3)];
    let mut m = module(&ps, None);
    add_meta(&mut m, 1, 1);
    for (p, minor) in [(peer(1), 5u16), (peer(2), 4), (peer(3), 7)] {
        m.db.modules_versions_votes.insert((p, 1), ConsensusVersion { major: 0, minor });
    }
    let ups = check_module_version_upgrades(&mut m.db.modules_configs, &m.db.modules_versions_votes, &set(&ps));
    assert_eq!(ups.len(), 1);
    assert_eq!(ups[0].new_version.minor, 4);
    let again = check_module_version_upgrades(&mut m.db.modules_configs, &m.db.modules_versions_votes, &set(&ps));
    assert!(again.is_empty());
}

#[test]
fn ctrl_proposals_follow_pending_votes() {
    let ps = [peer(1), peer(2)];
    let mut m = module(&ps, Some(peer(1)));
    assert!(m.propose_citems().is_empty());
    m.set_pending_add_peer_vote(peer(8)).unwrap();
    m.set_pending_remove_peer_vote(peer(2)).unwrap();
    assert_eq!(
        m.propose_citems(),
        vec![ConsensusCtrlCitem::VoteAddPeer(peer(8)), ConsensusCtrlCitem::VoteRemovePeer(peer(2))]
    );
    m.process_citem(peer(1), &set(&ps), &ConsensusCtrlCitem::VoteAddPeer(peer(8))).unwrap();
    assert_eq!(m.propose_citems(), vec![ConsensusCtrlCitem::VoteRemovePeer(peer(2))]);
    m.process_citem(peer(1), &set(&ps), &ConsensusCtrlCitem::VoteRemovePeer(peer(2))).unwrap();
    assert!(m.propose_citems().is_empty());
    let mut observer = module(&ps, None);
    assert_eq!(observer.set_pending_add_peer_vote(peer(8)).unwrap_err(), ConsensusCtrlError::NotAVotingPeer);
}

#[test]
fn ctrl_records_supported_versions_as_votes() {
    let ps = [peer(1)];
    let mut m = module(&ps, Some(peer(1)));
    add_meta(&mut m, 1, 0);
    let mut supported = BTreeMap::new();
    supported.insert(0u32, AppConsensusModuleInit.supported_versions());
    supported.insert(MODULE_KIND_META, bfte::meta::init::MetaModuleInit::new().supported_versions());
    m.record_module_init_versions(&supported);
    assert_eq!(m.db.pending_modules_versions_votes.get(&0), Some(&CURRENT_VERSION_MINOR));
    assert_eq!(m.db.pending_modules_versions_votes.get(&1), Some(&0));
}

#[test]
fn ctrl_add_module_vote_is_unsupported() {
    let me = peer(1);
    let mut m = module(&[me], Some(me));
    let r = m.process_citem(
        me,
        &set(&[me]),
        &ConsensusCtrlCitem::VoteAddModule {
            module_kind: MODULE_KIND_META,
            consensus_version: ConsensusVersion { major: 0, minor: 0 },
        },
    );
    assert_eq!(r.unwrap_err(), ConsensusCtrlError::UnsupportedCitem);
}

#[test]
fn ctrl_init_checks_version() {
    let init = AppConsensusModuleInit;
    let ok = ConsensusVersion { major: CURRENT_VERSION_MAJOR, minor: 0 };
    assert!(init.init(ok, AppConsensusModule::init_db_tx(), None).is_ok());
    let bad = ConsensusVersion { major: 1, minor: 0 };
    match init.init(bad, AppConsensusModule::init_db_tx(), None) {
        Err(ModuleInitError::UnsupportedVersion { requested, .. }) => assert_eq!(requested, bad),
        Ok(_) => panic!("major 1 is not supported"),
    }
    let mut db = AppConsensusModule::init_db_tx();
    assert!(!init.is_bootstrapped(&db));
    init.bootstrap_consensus(&mut db, 0, &set(&[peer(1)]));
    assert!(init.is_bootstrapped(&db));
    assert_eq!(init.get_modules_configs(&db).len(), 1);
}

#[test]
fn consensus_module_records_own_config() {
    let init = ConsensusModuleInit;
    let mut configs = BTreeMap::new();
    let config = init.init_consensus(&mut configs, 3, vec![1, 2, 3]);
    assert_eq!(config.kind, CONSENSUS_KIND);
    assert_eq!(config.params, vec![1, 2, 3]);
    let module = init.init(config.version, configs).unwrap();
    assert_eq!(module.get_modules_configs()[&3].params, vec![1, 2, 3]);
    assert!(init.init(ConsensusVersion { major: 0, minor: 1 }, BTreeMap::new()).is_err());
}
