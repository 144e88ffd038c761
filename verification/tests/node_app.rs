use std::collections::{BTreeMap, BTreeSet};

use bfte::consensus_ctrl::ConsensusCtrlCitem;
use bfte::effects::CItemEffect;
use bfte::meta::citem::MetaCitem;
use bfte::module_init::ModuleInitError;
use bfte::node_app::app::{NodeApp, CONSENSUS_CTRL_MODULE_ID};
use bfte::node_app::hosted::{AppModule, ModuleError, ModuleTables};
use bfte::node_app::process::ProcessCItemError;
use bfte::node_app::setup::{setup_modules_to_static, SetupError};
use bfte::node_app::{BlockCItemIdx, CItem, ModuleCItem};
use bfte::consensus_ctrl::module::ConsensusCtrlError;
use bfte::shared_modules::{get, get_modules_ids, get_modules_kinds, next_consensus_proposal, ModuleGetError};
use bfte::types::{ConsensusVersion, ModuleConfig, PeerPubkey, PeerSet, MODULE_KIND_CONSENSUS_CTRL, MODULE_KIND_META};

fn peer(n: u128) -> PeerPubkey {
    (n, 7)
}

fn set(peers: &[PeerPubkey]) -> PeerSet {
    peers.iter().copied().collect()
}

fn inits() -> BTreeSet<u32> {
    [MODULE_KIND_CONSENSUS_CTRL, MODULE_KIND_META].into_iter().collect()
}

fn started(peers: &[PeerPubkey], me: PeerPubkey) -> NodeApp {
    let mut app = NodeApp::new(Some(me), inits(), BTreeMap::new(), 0, BlockCItemIdx::new(0));
    app.start_modules(&set(peers)).expect("start");
    app
}

fn ctrl_item(c: ConsensusCtrlCitem) -> CItem {
    CItem::PeerCItem { module_id: CONSENSUS_CTRL_MODULE_ID, citem: ModuleCItem::ConsensusCtrl(c) }
}

#[test]
fn block_citem_idx_counts_up() {
    let idx = BlockCItemIdx::new(5);
    assert_eq!(idx.value(), 5);
    assert_eq!(idx.next(), BlockCItemIdx::new(6));
    assert_eq!(BlockCItemIdx::default(), BlockCItemIdx::new(0));
    assert!(BlockCItemIdx::new(1) < BlockCItemIdx::new(2));
}

#[test]
fn start_bootstraps_consensus_ctrl() {
    let app = started(&[peer(1), peer(2)], peer(1));
    assert_eq!(get_modules_ids(&app.modules), [0u32].into_iter().collect());
    assert_eq!(get_modules_kinds(&app.modules).get(&0), Some(&MODULE_KIND_CONSENSUS_CTRL));
    match &app.modules[&0].inner {
        AppModule::ConsensusCtrl(m) => {
            assert_eq!(m.get_peer_set(), set(&[peer(1), peer(2)]));
            // The node queued its own version vote for the control module.
            assert_eq!(m.db.pending_modules_versions_votes.get(&0), Some(&1));
        }
        AppModule::Meta(_) => panic!("module 0 must be the control module"),
    }
    assert!(app.stored_tables.is_empty());
}

#[test]
fn start_without_ctrl_init_fails() {
    let only_meta: BTreeSet<u32> = [MODULE_KIND_META].into_iter().collect();
    let mut app = NodeApp::new(None, inits(), BTreeMap::new(), 0, BlockCItemIdx::new(0));
    app.modules_inits = only_meta;
    assert_eq!(
        app.start_modules(&set(&[peer(1)])).unwrap_err(),
        SetupError::MissingModuleInit { kind: MODULE_KIND_CONSENSUS_CTRL }
    );
}

#[test]
fn process_citem_applies_peer_set_change() {
    let me = peer(1);
    let mut app = started(&[me], me);
    let mut peer_set = Some(set(&[me]));
    let mut configs = None;
    let outcome = app
        .process_citem(3, BlockCItemIdx::new(4), me, &mut peer_set, &mut configs, ctrl_item(ConsensusCtrlCitem::VoteAddPeer(peer(2))))
        .unwrap();
    assert_eq!(outcome.peer_set, set(&[me, peer(2)]));
    assert_eq!(outcome.consensus_params_changes, vec![set(&[me, peer(2)])]);
    assert!(!outcome.modules_configs_invalidated);
    assert_eq!(outcome.effects.len(), 2);
    assert_eq!(outcome.effects[0].module_kind, MODULE_KIND_CONSENSUS_CTRL);
    assert!(matches!(outcome.effects[0].inner, CItemEffect::AddPeer(_)));
    assert_eq!(peer_set, Some(set(&[me, peer(2)])));
    assert_eq!((app.cur_round, app.cur_idx), (3, BlockCItemIdx::new(4)));
}

#[test]
fn failed_citem_moves_past_it_and_drops_caches() {
    let me = peer(1);
    let mut app = started(&[me], me);
    let mut peer_set = Some(set(&[me]));
    let mut configs = Some(BTreeMap::new());
    let r = app.process_citem(
        3,
        BlockCItemIdx::new(4),
        me,
        &mut peer_set,
        &mut configs,
        ctrl_item(ConsensusCtrlCitem::VoteAddPeer(me)),
    );
    assert_eq!(
        r.err(),
        Some(ProcessCItemError::ProcessingCItemFailed {
            module_id: 0,
            source: ModuleError::ConsensusCtrl(ConsensusCtrlError::PeerAlreadyInPeerSet),
        })
    );
    assert_eq!(peer_set, None);
    assert!(configs.is_none());
    assert_eq!((app.cur_round, app.cur_idx), (3, BlockCItemIdx::new(5)));
}

#[test]
fn citem_errors_name_the_cause() {
    let me = peer(1);
    let mut app = started(&[me], me);
    let current = set(&[me]);
    let r = app.process_citem_try(peer(9), &current, ctrl_item(ConsensusCtrlCitem::VoteAddPeer(peer(2))));
    assert_eq!(
        r.err(),
        Some(ProcessCItemError::ProcessingCItemFailed { module_id: 0, source: ModuleError::PeerNotInPeerSet })
    );
    let r = app.process_citem_try(me, &current, CItem::PeerCItem { module_id: 5, citem: ModuleCItem::Undecodable });
    assert_eq!(r.err(), Some(ProcessCItemError::UnknownModuleId { module_id: 5 }));
    let r = app.process_citem_try(me, &current, CItem::PeerCItem { module_id: 0, citem: ModuleCItem::Undecodable });
    assert_eq!(
        r.err(),
        Some(ProcessCItemError::ProcessingCItemFailed { module_id: 0, source: ModuleError::UndecodableCItem })
    );
    let r = app.process_citem_try(me, &current, CItem::Transaction { inputs: vec![(0, vec![1])], outputs: vec![] });
    assert_eq!(
        r.err(),
        Some(ProcessCItemError::ProcessingInputFailed {
            module_id: 0,
            source: ModuleError::ConsensusCtrl(ConsensusCtrlError::InputsNotSupported),
        })
    );
    let r = app.process_citem_try(me, &current, CItem::Transaction { inputs: vec![], outputs: vec![(2, vec![])] });
    assert_eq!(r.err(), Some(ProcessCItemError::UnknownModuleId { module_id: 2 }));
    let r = app
        .process_citem_try(me, &current, CItem::Transaction { inputs: vec![], outputs: vec![] })
        .unwrap();
    assert!(r.effects.is_empty());
    assert_eq!(r.peer_set, current);
}

#[test]
fn process_block_moves_to_next_round() {
    let me = peer(1);
    let mut app = started(&[me], me);
    let mut peer_set = None;
    let mut configs = None;
    let changes = app
        .process_block(
            0,
            me,
            vec![
                ctrl_item(ConsensusCtrlCitem::VoteAddPeer(peer(2))),
                ctrl_item(ConsensusCtrlCitem::VoteAddPeer(peer(2))),
            ],
            &mut peer_set,
            &mut configs,
        )
        .unwrap();
    // The first item adds the peer; the second is refused (already a peer).
    assert_eq!(changes, vec![set(&[me, peer(2)])]);
    assert_eq!((app.cur_round, app.cur_idx), (1, BlockCItemIdx::new(0)));
    assert_eq!(peer_set, None);
    match &app.modules[&0].inner {
        AppModule::ConsensusCtrl(m) => assert_eq!(m.get_peer_set(), set(&[me, peer(2)])),
        AppModule::Meta(_) => panic!("module 0 must be the control module"),
    }
}

#[test]
fn setup_creates_and_keeps_modules() {
    let me = peer(1);
    let mut app = started(&[me], me);
    let mut configs = match &app.modules[&0].inner {
        AppModule::ConsensusCtrl(m) => m.get_modules_configs(),
        AppModule::Meta(_) => unreachable!(),
    };
    configs.insert(
        1,
        ModuleConfig { kind: MODULE_KIND_META, version: ConsensusVersion { major: 0, minor: 0 }, params: vec![] },
    );
    let changed = app.setup_modules_to(&configs).unwrap();
    assert!(changed);
    assert!(matches!(app.modules[&1].inner, AppModule::Meta(_)));
    let changed = app.setup_modules_to(&configs).unwrap();
    assert!(!changed);

    configs.insert(
        2,
        ModuleConfig { kind: MODULE_KIND_META, version: ConsensusVersion { major: 0, minor: 2 }, params: vec![] },
    );
    configs.insert(3, ModuleConfig { kind: 42, version: ConsensusVersion { major: 0, minor: 0 }, params: vec![] });
    let before = get_modules_ids(&app.modules);
    let err = app.setup_modules_to(&configs).unwrap_err();
    assert_eq!(
        err,
        SetupError::ModuleInitFailed {
            module_id: 2,
            source: ModuleInitError::UnsupportedVersion {
                requested: ConsensusVersion { major: 0, minor: 2 },
                supported: ConsensusVersion { major: 0, minor: 0 },
            },
        }
    );
    assert_eq!(get_modules_ids(&app.modules), before);
}

#[test]
fn setup_reports_missing_kind() {
    let mut modules = BTreeMap::new();
    let mut stored = BTreeMap::new();
    let mut configs = BTreeMap::new();
    configs.insert(3, ModuleConfig { kind: 42, version: ConsensusVersion { major: 0, minor: 0 }, params: vec![] });
    let r = setup_modules_to_static(&mut modules, &mut stored, &configs, &inits(), None);
    assert_eq!(r.unwrap_err(), SetupError::MissingModuleInit { kind: 42 });
    assert!(modules.is_empty());
}

#[test]
fn setup_uses_stored_tables() {
    let mut modules = BTreeMap::new();
    let mut tables = bfte::meta::module::MetaModule::init_db_tx();
    tables.consensus_values.insert(1, vec![9]);
    let mut stored = BTreeMap::new();
    stored.insert(4u32, ModuleTables::Meta(tables));
    let mut configs = BTreeMap::new();
    configs.insert(4, ModuleConfig { kind: MODULE_KIND_META, version: ConsensusVersion { major: 0, minor: 0 }, params: vec![] });
    assert!(setup_modules_to_static(&mut modules, &mut stored, &configs, &inits(), None).unwrap());
    assert!(stored.is_empty());
    match &modules[&4].inner {
        AppModule::Meta(m) => assert_eq!(m.get_consensus_values().get(&1), Some(&vec![9])),
        AppModule::ConsensusCtrl(_) => panic!("module 4 must be a meta module"),
    }
}

#[test]
fn meta_items_reach_meta_module_and_proposals_are_collected() {
    let me = peer(1);
    let mut app = started(&[me], me);
    let mut configs = match &app.modules[&0].inner {
        AppModule::ConsensusCtrl(m) => m.get_modules_configs(),
        AppModule::Meta(_) => unreachable!(),
    };
    configs.insert(1, ModuleConfig { kind: MODULE_KIND_META, version: ConsensusVersion { major: 0, minor: 0 }, params: vec![] });
    app.setup_modules_to(&configs).unwrap();

    // The control module proposes its version vote first.
    let proposal = next_consensus_proposal(&mut app.modules).expect("a proposal");
    assert!(matches!(proposal[0], CItem::PeerCItem { module_id: 0, .. }));

    let outcome = app
        .process_citem_try(
            me,
            &set(&[me]),
            CItem::PeerCItem {
                module_id: 1,
                citem: ModuleCItem::Meta(MetaCitem::ProposeValue { key: 1, value: vec![7] }),
            },
        )
        .unwrap();
    assert_eq!(outcome.effects.len(), 1);
    assert_eq!(outcome.effects[0].module_kind, MODULE_KIND_META);
    assert!(outcome.consensus_params_changes.is_empty());
}

#[test]
fn shared_modules_lookup() {
    let app = started(&[peer(1)], peer(1));
    assert_eq!(get(None, 0).err(), Some(ModuleGetError::ShuttingDown));
    assert!(get(Some(&app.modules), 0).unwrap().is_some());
    assert!(get(Some(&app.modules), 9).unwrap().is_none());
}

#[test]
fn iroh_address_keeps_its_bytes() {
    let mut bytes = [0u8; 32];
    bytes[0] = 7;
    bytes[31] = 9;
    let a = bfte::address::IrohAddress::from_bytes(bytes);
    assert_eq!(a.to_bytes(), bytes);
    assert_eq!(bfte::address::IrohAddress::default().to_bytes(), [0u8; 32]);
    let p = bfte::address::PeerAddress::Iroh(a);
    assert!(matches!(p, bfte::address::PeerAddress::Iroh(x) if x.to_bytes() == bytes));
}

#[test]
fn failed_setup_stops_modules_above_the_failing_one() {
    let me = peer(1);
    let mut app = started(&[me], me);
    let mut configs = match &app.modules[&0].inner {
        AppModule::ConsensusCtrl(m) => m.get_modules_configs(),
        AppModule::Meta(_) => unreachable!(),
    };
    let meta = ModuleConfig { kind: MODULE_KIND_META, version: ConsensusVersion { major: 0, minor: 0 }, params: vec![] };
    configs.insert(1, meta.clone());
    configs.insert(5, meta.clone());
    app.setup_modules_to(&configs).unwrap();
    assert_eq!(get_modules_ids(&app.modules), [0u32, 1, 5].into_iter().collect());

    configs.insert(3, ModuleConfig { kind: 42, version: ConsensusVersion { major: 0, minor: 0 }, params: vec![] });
    let err = app.setup_modules_to(&configs).unwrap_err();
    assert_eq!(err, SetupError::MissingModuleInit { kind: 42 });
    // Modules below the failing identifier stay; module 5 is stopped and
    // its tables are kept with the stored ones.
    assert_eq!(get_modules_ids(&app.modules), [0u32, 1].into_iter().collect());
    assert!(matches!(app.stored_tables.get(&5), Some(ModuleTables::Meta(_))));
}

#[test]
fn process_block_resumes_from_saved_position() {
    let me = peer(1);
    let mut app = NodeApp::new(Some(me), inits(), BTreeMap::new(), 0, BlockCItemIdx::new(2));
    app.start_modules(&set(&[me])).expect("start");
    let mut peer_set = None;
    let mut configs = None;
    let changes = app
        .process_block(
            0,
            me,
            vec![
                ctrl_item(ConsensusCtrlCitem::VoteAddPeer(peer(2))),
                ctrl_item(ConsensusCtrlCitem::VoteAddPeer(peer(3))),
                ctrl_item(ConsensusCtrlCitem::VoteAddPeer(peer(4))),
            ],
            &mut peer_set,
            &mut configs,
        )
        .unwrap();
    // The in-memory position starts at the saved one (2) and then follows
    // each item: item 0 is skipped, items 1 and 2 are applied. Item 1 adds
    // peer 3 at once; item 2 is then one vote of the two now needed.
    assert_eq!(changes, vec![set(&[me, peer(3)])]);
    match &app.modules[&0].inner {
        AppModule::ConsensusCtrl(m) => {
            assert_eq!(m.get_peer_set(), set(&[me, peer(3)]));
            assert_eq!(m.get_add_peer_votes().get(&me), Some(&peer(4)));
        }
        AppModule::Meta(_) => panic!("module 0 must be the control module"),
    }
    assert_eq!((app.cur_round, app.cur_idx), (1, BlockCItemIdx::new(0)));
}

#[test]
fn start_fails_on_a_module_that_cannot_be_set_up() {
    let me = peer(1);
    let mut app = started(&[me], me);
    let mut configs = match &app.modules[&0].inner {
        AppModule::ConsensusCtrl(m) => m.get_modules_configs(),
        AppModule::Meta(_) => unreachable!(),
    };
    configs.insert(3, ModuleConfig { kind: 42, version: ConsensusVersion { major: 0, minor: 0 }, params: vec![] });
    let mut tables = bfte::consensus_ctrl::module::AppConsensusModule::init_db_tx();
    tables.self_version = Some(ConsensusVersion { major: 0, minor: 1 });
    tables.peers = set(&[me]);
    tables.modules_configs = configs;
    let mut stored = BTreeMap::new();
    stored.insert(0u32, ModuleTables::ConsensusCtrl(tables));
    let mut restarted = NodeApp::new(Some(me), inits(), stored, 1, BlockCItemIdx::new(0));
    assert_eq!(
        restarted.start_modules(&set(&[me])).unwrap_err(),
        SetupError::MissingModuleInit { kind: 42 }
    );
    assert_eq!(get_modules_ids(&restarted.modules), [0u32].into_iter().collect());
}

#[test]
fn stored_tables_are_checked_before_start() {
    assert!(bfte::node_app::block::check_stored_tables(&BTreeMap::new()));
    let ctrl_cfg = ModuleConfig {
        kind: MODULE_KIND_CONSENSUS_CTRL,
        version: ConsensusVersion { major: 0, minor: 1 },
        params: vec![],
    };
    let mut tables = bfte::consensus_ctrl::module::AppConsensusModule::init_db_tx();
    tables.self_version = Some(ConsensusVersion { major: 0, minor: 1 });
    let mut stored = BTreeMap::new();
    stored.insert(0u32, ModuleTables::ConsensusCtrl(tables));
    // Bootstrapped tables without the control module's own configuration.
    assert!(!bfte::node_app::block::check_stored_tables(&stored));
    if let Some(ModuleTables::ConsensusCtrl(t)) = stored.get_mut(&0) {
        t.modules_configs.insert(0, ctrl_cfg.clone());
    }
    assert!(bfte::node_app::block::check_stored_tables(&stored));
    // A second control module is refused.
    if let Some(ModuleTables::ConsensusCtrl(t)) = stored.get_mut(&0) {
        t.modules_configs.insert(4, ctrl_cfg);
    }
    assert!(!bfte::node_app::block::check_stored_tables(&stored));
}
