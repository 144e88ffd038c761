use bfte::effects::{CItemEffect, ModuleCItemEffect, RemovePeerEffect};
use bfte::meta::citem::MetaCitem;
use bfte::meta::init::MetaModuleInit;
use bfte::meta::module::{MetaError, MetaModule};
use bfte::types::{ConsensusVersion, PeerPubkey, PeerSet, MODULE_KIND_CONSENSUS_CTRL, MODULE_KIND_META};

fn peer(n: u128) -> PeerPubkey {
    (0, n)
}

fn set(peers: &[PeerPubkey]) -> PeerSet {
    peers.iter().copied().collect()
}

fn meta(me: Option<PeerPubkey>) -> MetaModule {
    MetaModuleInit::new()
        .init(ConsensusVersion { major: 0, minor: 0 }, MetaModule::init_db_tx(), me)
        .unwrap()
}

fn propose(key: u8, value: &[u8]) -> MetaCitem {
    MetaCitem::ProposeValue { key, value: value.to_vec() }
}

#[test]
fn meta_init_facts() {
    let init = MetaModuleInit::default();
    assert_eq!(init.kind(), MODULE_KIND_META);
    assert!(init.singleton());
    assert_eq!(init.display_name(), "Meta");
    assert!(init.init(ConsensusVersion { major: 0, minor: 1 }, MetaModule::init_db_tx(), None).is_err());
}

#[test]
fn meta_value_agreed_at_threshold() {
    let ps = [peer(1), peer(2), peer(3)];
    let mut m = meta(Some(peer(1)));
    assert!(m.process_citem(peer(1), &set(&ps), propose(4, b"v")).unwrap().is_empty());
    assert!(m.process_citem(peer(2), &set(&ps), propose(4, b"v")).unwrap().is_empty());
    let effects = m.process_citem(peer(3), &set(&ps), propose(4, b"v")).unwrap();
    assert_eq!(effects.len(), 1);
    match &effects[0] {
        CItemEffect::KeyValueConsensus(e) => {
            assert_eq!(e.key, 4);
            assert_eq!(e.value, b"v".to_vec());
        }
        other => panic!("unexpected {other:?}"),
    }
    assert_eq!(m.get_consensus_values().get(&4), Some(&b"v".to_vec()));
    assert!(m.get_votes_for_key(4).is_empty());
}

#[test]
fn meta_split_votes_do_not_agree() {
    let ps = [peer(1), peer(2)];
    let mut m = meta(None);
    assert!(m.process_citem(peer(1), &set(&ps), propose(1, b"a")).unwrap().is_empty());
    assert!(m.process_citem(peer(2), &set(&ps), propose(1, b"b")).unwrap().is_empty());
    assert!(m.get_consensus_values().is_empty());
    let votes = m.get_votes_for_key(1);
    assert_eq!(votes.get(&peer(1)), Some(&b"a".to_vec()));
    assert_eq!(votes.get(&peer(2)), Some(&b"b".to_vec()));
}

#[test]
fn meta_approve_copies_vote() {
    let ps = [peer(1), peer(2)];
    let mut m = meta(None);
    m.process_citem(peer(1), &set(&ps), propose(2, b"x")).unwrap();
    let effects = m
        .process_citem(peer(2), &set(&ps), MetaCitem::ApproveVote { key: 2, peer_pubkey: peer(1) })
        .unwrap();
    assert_eq!(effects.len(), 1);
    assert_eq!(m.get_consensus_values().get(&2), Some(&b"x".to_vec()));
    let r = m.process_citem(peer(2), &set(&ps), MetaCitem::ApproveVote { key: 3, peer_pubkey: peer(1) });
    assert_eq!(r.unwrap_err(), MetaError::InvalidPeerPubkey);
}

#[test]
fn meta_recheck_after_peer_removal() {
    let ps = [peer(1), peer(2), peer(3)];
    let mut m = meta(None);
    m.process_citem(peer(1), &set(&ps), propose(5, b"z")).unwrap();
    m.process_citem(peer(2), &set(&ps), propose(5, b"z")).unwrap();
    assert!(m.get_consensus_values().is_empty());
    let remaining = set(&ps[..2]);
    let effects = vec![ModuleCItemEffect {
        module_kind: MODULE_KIND_CONSENSUS_CTRL,
        inner: CItemEffect::RemovePeer(RemovePeerEffect { peer: peer(3) }),
    }];
    m.process_effects(&remaining, &effects);
    assert_eq!(m.get_consensus_values().get(&5), Some(&b"z".to_vec()));
}

#[test]
fn meta_effects_without_removal_change_nothing() {
    let ps = [peer(1), peer(2), peer(3)];
    let mut m = meta(None);
    m.process_citem(peer(1), &set(&ps), propose(5, b"z")).unwrap();
    m.process_citem(peer(2), &set(&ps), propose(5, b"z")).unwrap();
    m.process_effects(&set(&ps[..2]), &Vec::new());
    assert!(m.get_consensus_values().is_empty());
}

#[test]
fn meta_proposal_is_offered_until_voted() {
    let ps = [peer(1), peer(2)];
    let mut m = meta(Some(peer(1)));
    m.propose_key_value(9, b"hello".to_vec()).unwrap();
    assert_eq!(m.proposed_citems.len(), 1);
    m.process_citem(peer(1), &set(&ps), propose(9, b"hello")).unwrap();
    assert!(m.proposed_citems.is_empty());
    assert_eq!(m.process_input(&[]).unwrap_err(), MetaError::InputsNotSupported);
    assert_eq!(m.process_output(&[]).unwrap_err(), MetaError::OutputsNotSupported);
}
