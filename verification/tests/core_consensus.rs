use std::collections::BTreeSet;

use bfte::core_consensus::init::{CoreConsensusModuleInit, CORE_CONSENSUS_KIND};
use bfte::core_consensus::module::{CoreConsensusError, CoreConsensusModule};
use bfte::core_consensus::CoreConsensusCitem;
use bfte::effects::CItemEffect;
use bfte::module_init::ModuleInitError;
use bfte::types::{ConsensusVersion, PeerPubkey, PeerSet};

fn peer(n: u128) -> PeerPubkey {
    (n, n.wrapping_mul(0x9e37_79b9_7f4a_7c15) ^ 0x5555)
}

fn peer_set(peers: &[PeerPubkey]) -> PeerSet {
    peers.iter().copied().collect()
}

fn bootstrap(peers: &[PeerPubkey], me: PeerPubkey) -> CoreConsensusModule {
    let init = CoreConsensusModuleInit;
    let mut db = CoreConsensusModule::init_db_tx();
    let config = init.bootstrap_consensus(&mut db, 0, &peer_set(peers));
    init.init(config.version, db, Some(me)).expect("current version is supported")
}

fn added_peer(e: &CItemEffect) -> PeerPubkey {
    match e {
        CItemEffect::AddPeer(a) => a.peer,
        other => panic!("Failed to decode AddPeerEffect: {other:?}"),
    }
}

fn removed_peer(e: &CItemEffect) -> PeerPubkey {
    match e {
        CItemEffect::RemovePeer(a) => a.peer,
        other => panic!("Failed to decode RemovePeerEffect: {other:?}"),
    }
}

fn changed_peer_set(e: &CItemEffect) -> &PeerSet {
    match e {
        CItemEffect::ConsensusParamsChange(c) => &c.peer_set,
        other => panic!("Failed to decode PeerSetChange: {other:?}"),
    }
}

#[test]
fn test_vote_add_peer_produces_effect() {
    let me = peer(1);
    let mut module = bootstrap(&[me], me);
    let new_peer = peer(2);

    let citem = CoreConsensusCitem::VoteAddPeer(new_peer);
    let current = peer_set(&[me]);
    let effects = module.process_citem(me, &current, &citem).expect("vote is valid");

    assert_eq!(effects.len(), 2, "Expected exactly two effects");
    assert_eq!(
        added_peer(&effects[0]),
        new_peer,
        "AddPeerEffect should contain the new peer's pubkey"
    );
    let change = changed_peer_set(&effects[1]);
    assert_eq!(change.len(), 2, "PeerSetChange should contain 2 peers");
    assert!(change.contains(&me), "PeerSetChange should contain the initial peer");
    assert!(change.contains(&new_peer), "PeerSetChange should contain the new peer");

    let updated = module.get_peer_set();
    assert!(updated.contains(&new_peer), "New peer should be added to peer set");
    assert!(updated.contains(&me), "Initial peer should still be in peer set");
    assert_eq!(updated.len(), 2, "Peer set should now contain exactly 2 peers");
}

#[test]
fn test_two_peers_voting_to_add_third() {
    let peer1 = peer(1);
    let peer2 = peer(2);
    let mut module = bootstrap(&[peer1, peer2], peer1);
    let new_peer = peer(3);

    let citem = CoreConsensusCitem::VoteAddPeer(new_peer);
    let current = peer_set(&[peer1, peer2]);

    let effects1 = module.process_citem(peer1, &current, &citem).expect("vote is valid");
    assert_eq!(effects1.len(), 0, "No effects should be produced with only one vote");
    let after_first = module.get_peer_set();
    assert!(!after_first.contains(&new_peer), "New peer should NOT be added after first vote");
    assert_eq!(after_first.len(), 2, "Peer set should still contain exactly 2 peers");

    let effects2 = module.process_citem(peer2, &current, &citem).expect("vote is valid");
    assert_eq!(effects2.len(), 2, "Expected exactly two effects after reaching threshold");
    assert_eq!(
        added_peer(&effects2[0]),
        new_peer,
        "AddPeerEffect should contain the new peer's pubkey"
    );
    let change = changed_peer_set(&effects2[1]);
    assert_eq!(change.len(), 3, "PeerSetChange should contain 3 peers");
    assert!(change.contains(&peer1), "PeerSetChange should contain peer1");
    assert!(change.contains(&peer2), "PeerSetChange should contain peer2");
    assert!(change.contains(&new_peer), "PeerSetChange should contain the new peer");

    let updated = module.get_peer_set();
    assert!(updated.contains(&new_peer), "New peer should be added to peer set");
    assert!(updated.contains(&peer1), "First peer should still be in peer set");
    assert!(updated.contains(&peer2), "Second peer should still be in peer set");
    assert_eq!(updated.len(), 3, "Peer set should now contain exactly 3 peers");
}

#[test]
fn test_two_peers_voting_to_remove_one() {
    let peer1 = peer(1);
    let peer2 = peer(2);
    let mut module = bootstrap(&[peer1, peer2], peer1);

    let citem = CoreConsensusCitem::VoteRemovePeer(peer2);
    let current = peer_set(&[peer1, peer2]);

    let effects1 = module.process_citem(peer1, &current, &citem).expect("vote is valid");
    assert_eq!(effects1.len(), 0, "No effects should be produced with only one vote");
    let after_first = module.get_peer_set();
    assert!(after_first.contains(&peer2), "Peer2 should NOT be removed after first vote");
    assert_eq!(after_first.len(), 2, "Peer set should still contain exactly 2 peers");

    let effects2 = module.process_citem(peer2, &current, &citem).expect("vote is valid");
    assert_eq!(effects2.len(), 2, "Expected exactly two effects after reaching threshold");
    assert_eq!(
        removed_peer(&effects2[0]),
        peer2,
        "RemovePeerEffect should contain the removed peer's pubkey"
    );
    let change = changed_peer_set(&effects2[1]);
    assert_eq!(change.len(), 1, "PeerSetChange should contain 1 peer after removal");
    assert!(change.contains(&peer1), "PeerSetChange should contain only peer1 after removal");
    assert!(!change.contains(&peer2), "PeerSetChange should not contain the removed peer");

    let updated = module.get_peer_set();
    assert!(!updated.contains(&peer2), "Peer2 should be removed from peer set");
    assert!(updated.contains(&peer1), "Peer1 should still be in peer set");
    assert_eq!(updated.len(), 1, "Peer set should now contain exactly 1 peer");
}

#[test]
fn core_vote_from_outside_peer_set_is_refused() {
    let peer1 = peer(1);
    let mut module = bootstrap(&[peer1], peer1);
    let current = peer_set(&[peer1]);
    let r = module.process_citem(peer(9), &current, &CoreConsensusCitem::VoteAddPeer(peer(2)));
    assert_eq!(r.unwrap_err(), CoreConsensusError::VoterNotInPeerSet);
    assert_eq!(module.get_peer_set().len(), 1);
}

#[test]
fn core_last_peer_cannot_be_removed() {
    let peer1 = peer(1);
    let mut module = bootstrap(&[peer1], peer1);
    let current = peer_set(&[peer1]);
    let r = module.process_citem(peer1, &current, &CoreConsensusCitem::VoteRemovePeer(peer1));
    assert_eq!(r.unwrap_err(), CoreConsensusError::CannotRemoveLastPeer);
}

#[test]
fn core_removing_unknown_peer_is_refused() {
    let peer1 = peer(1);
    let peer2 = peer(2);
    let mut module = bootstrap(&[peer1, peer2], peer1);
    let current = peer_set(&[peer1, peer2]);
    let r = module.process_citem(peer1, &current, &CoreConsensusCitem::VoteRemovePeer(peer(7)));
    assert_eq!(r.unwrap_err(), CoreConsensusError::PeerNotInPeerSet);
}

#[test]
fn core_repeated_vote_changes_nothing() {
    let peer1 = peer(1);
    let peer2 = peer(2);
    let peer3 = peer(3);
    let mut module = bootstrap(&[peer1, peer2, peer3], peer1);
    let current = peer_set(&[peer1, peer2, peer3]);
    let citem = CoreConsensusCitem::VoteAddPeer(peer(4));
    assert!(module.process_citem(peer1, &current, &citem).unwrap().is_empty());
    let votes_before = module.db.add_peer_votes.clone();
    assert!(module.process_citem(peer1, &current, &citem).unwrap().is_empty());
    assert_eq!(module.db.add_peer_votes, votes_before);
    assert_eq!(module.get_peer_set().len(), 3);
}

#[test]
fn core_inputs_and_outputs_are_refused() {
    let module = bootstrap(&[peer(1)], peer(1));
    assert_eq!(module.process_input(&[1, 2]).unwrap_err(), CoreConsensusError::InputsNotSupported);
    assert_eq!(module.process_output(&[]).unwrap_err(), CoreConsensusError::OutputsNotSupported);
    assert!(module.process_effects(&Vec::new()).is_ok());
}

#[test]
fn core_pending_vote_is_proposed_until_recorded() {
    let peer1 = peer(1);
    let peer2 = peer(2);
    let mut module = bootstrap(&[peer1, peer2], peer1);
    assert!(module.proposed_citems.is_empty());
    module.set_pending_add_peer_vote(peer(5)).unwrap();
    assert_eq!(module.proposed_citems, vec![CoreConsensusCitem::VoteAddPeer(peer(5))]);
    let current = peer_set(&[peer1, peer2]);
    module
        .process_citem(peer1, &current, &CoreConsensusCitem::VoteAddPeer(peer(5)))
        .unwrap();
    module.refresh_consensus_proposals();
    assert!(module.proposed_citems.is_empty());
    // Already a peer: nothing recorded.
    module.set_pending_add_peer_vote(peer2).unwrap();
    assert_eq!(module.db.pending_add_peer_vote, Some(peer(5)));
}

#[test]
fn core_non_voting_node_cannot_vote() {
    let init = CoreConsensusModuleInit;
    let mut db = CoreConsensusModule::init_db_tx();
    let config = init.bootstrap_consensus(&mut db, 0, &peer_set(&[peer(1)]));
    let mut module = init.init(config.version, db, None).unwrap();
    assert_eq!(
        module.set_pending_add_peer_vote(peer(2)).unwrap_err(),
        CoreConsensusError::NotAVotingPeer
    );
}

#[test]
fn core_bootstrap_and_version_check() {
    let init = CoreConsensusModuleInit;
    assert_eq!(init.kind(), CORE_CONSENSUS_KIND);
    let mut db = CoreConsensusModule::init_db_tx();
    let peers: BTreeSet<PeerPubkey> = [peer(1), peer(2)].into_iter().collect();
    let config = init.bootstrap_consensus(&mut db, 7, &peers);
    assert_eq!(config.kind, CORE_CONSENSUS_KIND);
    assert_eq!(config.version, ConsensusVersion { major: 0, minor: 0 });
    assert!(config.params.is_empty());
    assert_eq!(db.peers, peers);
    assert!(db.modules_configs.contains_key(&7));
    let newer = ConsensusVersion { major: 0, minor: 1 };
    match init.init(newer, db, None) {
        Err(ModuleInitError::UnsupportedVersion { requested, supported }) => {
            assert_eq!(requested, newer);
            assert_eq!(supported, ConsensusVersion { major: 0, minor: 0 });
        }
        Ok(_) => panic!("newer version must be refused"),
    }
}

#[test]
fn core_display_name() {
    let me = peer(1);
    let m = bootstrap(&[me], me);
    assert_eq!(m.display_name(), "Core Consensus");
}
