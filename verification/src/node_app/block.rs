use vstd::prelude::*;
use std::collections::BTreeMap;

use super::app::NodeApp;
use super::citem::CItem;
use super::position::BlockCItemIdx;
use super::caches::{caches_consistent, lemma_citem_keeps_caches, lemma_peer_set_after_last_change};
use super::process::{
    citem_applied, collect_step, module_effects_view, sets_view, CItemOutcome, ProcessCItemError,
};
use crate::keys::{lemma_lawful_keys, sorted_keys};
use super::processable::{app_invariant, ctrl_configs_valid, lemma_citem_keeps_app_invariant, lemma_setup_keeps_app_invariant};
use super::app::CONSENSUS_CTRL_MODULE_ID;
use super::hosted::{ModuleTables, ModuleWithConfig};
use super::setup::{
    ctrl_module, setup_applied, setup_error, setup_fails, setup_stopped_at_failure, stored_ctrl_configs,
    stored_ctrl_peers, stored_ctrl_tables, supported_version, SetupError,
};
use crate::effects::EffectView;
use crate::types::{
    BlockRound, ConsensusVersion, ModuleConfig, ModuleId, ModuleKind, PeerPubkey, PeerSet,
    MODULE_KIND_CONSENSUS_CTRL,
};

verus! {

/// The stored consensus control tables, if any, name a consensus control
/// module at no identifier but its own, and, once bootstrapped, hold its
/// own configuration: the modules can start from them.
pub open spec fn stored_tables_ready(stored: Map<ModuleId, ModuleTables>) -> bool {
    match stored_ctrl_tables(stored) {
        Some(t) => {
            &&& t.self_version is Some ==> ctrl_configs_valid(t.modules_configs@)
            &&& forall|id: ModuleId|
                #[trigger] t.modules_configs@.contains_key(id) && id != CONSENSUS_CTRL_MODULE_ID
                    ==> t.modules_configs@[id].kind != MODULE_KIND_CONSENSUS_CTRL
        },
        None => true,
    }
}

/// Whether the modules can start from the stored tables `stored`.
pub fn check_stored_tables(stored: &BTreeMap<ModuleId, ModuleTables>) -> (r: bool)
    ensures
        r == stored_tables_ready(stored@),
{
    proof {
        lemma_lawful_keys();
    }
    let t = match stored.get(&CONSENSUS_CTRL_MODULE_ID) {
        Some(ModuleTables::ConsensusCtrl(t)) => t,
        _ => {
            return true;
        },
    };
    proof {
        assert(stored_ctrl_tables(stored@) == Some(*t));
    }
    let ids = sorted_keys(&t.modules_configs);
    let mut i: usize = 0;
    while i < ids.len()
        invariant
            0 <= i <= ids@.len(),
            stored_ctrl_tables(stored@) == Some(*t),
            ids@.to_set() == t.modules_configs@.dom(),
            forall|k: int|
                0 <= k < i && ids@[k] != CONSENSUS_CTRL_MODULE_ID ==> #[trigger] t.modules_configs@[ids@[k]].kind
                    != MODULE_KIND_CONSENSUS_CTRL,
        decreases ids@.len() - i,
    {
        let id = ids[i];
        proof {
            assert(ids@.to_set().contains(id));
        }
        if id != CONSENSUS_CTRL_MODULE_ID {
            match t.modules_configs.get(&id) {
                Some(c) => {
                    if c.kind == MODULE_KIND_CONSENSUS_CTRL {
                        return false;
                    }
                },
                None => {
                    proof {
                        assert(false);
                    }
                },
            }
        }
        i = i + 1;
    }
    proof {
        assert forall|id: ModuleId|
            #[trigger] t.modules_configs@.contains_key(id) && id != CONSENSUS_CTRL_MODULE_ID implies t.modules_configs@[id].kind
                != MODULE_KIND_CONSENSUS_CTRL by {
            assert(ids@.to_set().contains(id));
            let k = choose|k: int| 0 <= k < ids@.len() && ids@[k] == id;
            assert(t.modules_configs@[ids@[k]].kind != MODULE_KIND_CONSENSUS_CTRL);
        }
    }
    if t.self_version.is_none() {
        return true;
    }
    match t.modules_configs.get(&CONSENSUS_CTRL_MODULE_ID) {
        Some(c) => c.kind == MODULE_KIND_CONSENSUS_CTRL,
        None => false,
    }
}

/// Every module configured when the modules start can be set up: those
/// recorded by bootstrapped consensus control tables, or else, besides the
/// control module's own, those in the stored tables.
pub open spec fn start_configs_ok(stored: Map<ModuleId, ModuleTables>, inits: Set<ModuleKind>) -> bool {
    match stored_ctrl_tables(stored) {
        Some(t) if t.self_version is Some => forall|id: ModuleId| #[trigger]
            t.modules_configs@.contains_key(id) ==> setup_error(inits, id, t.modules_configs@[id]) is None,
        _ => forall|id: ModuleId| #[trigger]
            stored_ctrl_configs(stored).contains_key(id) && id != CONSENSUS_CTRL_MODULE_ID ==> setup_error(
                inits,
                id,
                stored_ctrl_configs(stored)[id],
            ) is None,
    }
}

/// The configurations the modules start from can all be set up exactly
/// when `start_configs_ok` holds.
proof fn lemma_start_configs(
    stored: Map<ModuleId, ModuleTables>,
    new_stored: Map<ModuleId, ModuleTables>,
    inits: Set<ModuleKind>,
    configs: Map<ModuleId, ModuleConfig>,
)
    requires
        inits.contains(MODULE_KIND_CONSENSUS_CTRL),
        new_stored.contains_key(CONSENSUS_CTRL_MODULE_ID),
        new_stored[CONSENSUS_CTRL_MODULE_ID] matches ModuleTables::ConsensusCtrl(t) && match stored_ctrl_tables(stored) {
            Some(old_t) if old_t.self_version is Some => configs == old_t.modules_configs@,
            _ => {
                &&& configs.dom() == stored_ctrl_configs(stored).dom().insert(CONSENSUS_CTRL_MODULE_ID)
                &&& forall|m: ModuleId|
                    m != CONSENSUS_CTRL_MODULE_ID && #[trigger] stored_ctrl_configs(stored).contains_key(m)
                        ==> configs[m] == stored_ctrl_configs(stored)[m]
                &&& configs[CONSENSUS_CTRL_MODULE_ID].kind == MODULE_KIND_CONSENSUS_CTRL
                &&& configs[CONSENSUS_CTRL_MODULE_ID].version == ConsensusVersion::new(
                    crate::consensus_ctrl::init::CURRENT_VERSION_MAJOR,
                    crate::consensus_ctrl::init::CURRENT_VERSION_MINOR,
                )
            },
        },
    ensures
        start_configs_ok(stored, inits) <==> forall|id: ModuleId|
            !#[trigger] setup_fails(Map::<ModuleId, ModuleWithConfig>::empty(), inits, configs, id),
{
    let empty = Map::<ModuleId, ModuleWithConfig>::empty();
    if start_configs_ok(stored, inits) {
        assert forall|id: ModuleId| !#[trigger] setup_fails(empty, inits, configs, id) by {
            if configs.contains_key(id) {
                match stored_ctrl_tables(stored) {
                    Some(t) if t.self_version is Some => {},
                    _ => {
                        if id != CONSENSUS_CTRL_MODULE_ID {
                            assert(stored_ctrl_configs(stored).contains_key(id));
                        }
                    },
                }
            }
        }
    } else {
        match stored_ctrl_tables(stored) {
            Some(t) if t.self_version is Some => {
                let id = choose|id: ModuleId|
                    #[trigger] t.modules_configs@.contains_key(id) && !(setup_error(inits, id, t.modules_configs@[id]) is None);
                assert(setup_fails(empty, inits, configs, id));
            },
            _ => {
                let id = choose|id: ModuleId|
                    #[trigger] stored_ctrl_configs(stored).contains_key(id) && id != CONSENSUS_CTRL_MODULE_ID
                        && !(setup_error(inits, id, stored_ctrl_configs(stored)[id]) is None);
                assert(configs.contains_key(id));
                assert(setup_fails(empty, inits, configs, id));
            },
        }
    }
}

/// The state the block step works on: the running modules, the stored
/// tables, and whether the module configurations are cached.
pub type AppState = (Map<ModuleId, ModuleWithConfig>, Map<ModuleId, ModuleTables>, bool);

/// Reloading the dropped caches in state `s` succeeds and gives `mid`:
/// with the configurations cached nothing changes; otherwise the modules
/// are set up again for the consensus control module's configurations.
pub open spec fn reload_ok(s: AppState, me: Option<PeerPubkey>, mid: AppState) -> bool {
    if s.2 {
        mid == s
    } else {
        &&& setup_applied(s.0, s.1, ctrl_module(s.0).db.modules_configs@, me, mid.0, mid.1)
        &&& mid.2
    }
}

/// Applying `citem` from `voter` in state `s`, through the reloaded state
/// `mid`, gives the state `t` and the peer sets `changes` the consensus
/// must switch to. The peer set is the consensus control module's; an item
/// that fails changes nothing and drops the cached configurations.
pub open spec fn item_applied_via(
    s: AppState,
    me: Option<PeerPubkey>,
    voter: PeerPubkey,
    citem: CItem,
    t: AppState,
    changes: Seq<Set<PeerPubkey>>,
    mid: AppState,
) -> bool {
    let peers = ctrl_module(s.0).db.peers@;
    &&& reload_ok(s, me, mid)
    &&& {
        ||| exists|o: CItemOutcome|
            {
                &&& #[trigger] citem_applied(mid.0, t.0, voter, peers, citem, o)
                &&& t.1 == mid.1
                &&& t.2 == !o.modules_configs_invalidated
                &&& changes == sets_view(o.consensus_params_changes@)
            }
        ||| exists|e: ProcessCItemError|
            {
                &&& #[trigger] collect_step(
                    mid.0,
                    t.0,
                    voter,
                    peers,
                    citem,
                    Err::<Seq<(ModuleKind, EffectView)>, ProcessCItemError>(e),
                )
                &&& t.0 == mid.0
                &&& t.1 == mid.1
                &&& !t.2
                &&& changes == Seq::<Set<PeerPubkey>>::empty()
            }
    }
}

/// Applying `citem` from `voter` in state `s` gives `t` and `changes`.
pub open spec fn item_applied(
    s: AppState,
    me: Option<PeerPubkey>,
    voter: PeerPubkey,
    citem: CItem,
    t: AppState,
    changes: Seq<Set<PeerPubkey>>,
) -> bool {
    exists|mid: AppState| #[trigger] item_applied_via(s, me, voter, citem, t, changes, mid)
}

/// The in-memory position when item `i` of a block comes up, for the saved
/// position `start`: it starts at the saved one and then moves to the index
/// of each item in turn.
pub open spec fn position_before(start: int, i: int) -> int {
    if i == 0 {
        start
    } else {
        i - 1
    }
}

/// Step `i` of a block whose saved position is `start`: an item below the
/// in-memory position is skipped, any other is applied. Only the first
/// item can be below it.
pub open spec fn block_step(
    states: Seq<AppState>,
    chs: Seq<Seq<Set<PeerPubkey>>>,
    i: int,
    start: int,
    me: Option<PeerPubkey>,
    voter: PeerPubkey,
    citems: Seq<CItem>,
) -> bool {
    if i < position_before(start, i) {
        states[i + 1] == states[i] && chs[i] == Seq::<Set<PeerPubkey>>::empty()
    } else {
        item_applied(states[i], me, voter, citems[i], states[i + 1], chs[i])
    }
}

/// `states` are the states before and after each of the first
/// `chs.len()` items of `citems`, and `chs` the peer sets each reported.
pub open spec fn block_trace(
    states: Seq<AppState>,
    chs: Seq<Seq<Set<PeerPubkey>>>,
    start: int,
    me: Option<PeerPubkey>,
    voter: PeerPubkey,
    citems: Seq<CItem>,
) -> bool {
    &&& states.len() == chs.len() + 1
    &&& chs.len() <= citems.len()
    &&& forall|i: int|
        0 <= i < chs.len() ==> #[trigger] block_step(states, chs, i, start, me, voter, citems)
}

/// The peer sets of all steps, in order.
pub open spec fn flatten_changes(chs: Seq<Seq<Set<PeerPubkey>>>) -> Seq<Set<PeerPubkey>>
    decreases chs.len(),
{
    if chs.len() == 0 {
        seq![]
    } else {
        flatten_changes(chs.drop_last()) + chs.last()
    }
}

proof fn lemma_flatten_push(chs: Seq<Seq<Set<PeerPubkey>>>, c: Seq<Set<PeerPubkey>>)
    ensures
        flatten_changes(chs.push(c)) == flatten_changes(chs) + c,
{
    assert(chs.push(c).drop_last() =~= chs);
}

proof fn lemma_block_trace_extends(
    states: Seq<AppState>,
    chs: Seq<Seq<Set<PeerPubkey>>>,
    start: int,
    me: Option<PeerPubkey>,
    voter: PeerPubkey,
    citems: Seq<CItem>,
    t: AppState,
    c: Seq<Set<PeerPubkey>>,
)
    requires
        block_trace(states, chs, start, me, voter, citems),
        chs.len() < citems.len(),
        if chs.len() < position_before(start, chs.len() as int) {
            t == states.last() && c == Seq::<Set<PeerPubkey>>::empty()
        } else {
            item_applied(states.last(), me, voter, citems[chs.len() as int], t, c)
        },
    ensures
        block_trace(states.push(t), chs.push(c), start, me, voter, citems),
{
    let s2 = states.push(t);
    let c2 = chs.push(c);
    assert forall|i: int| 0 <= i < c2.len() implies #[trigger] block_step(s2, c2, i, start, me, voter, citems) by {
        if i < chs.len() {
            assert(block_step(states, chs, i, start, me, voter, citems));
            assert(s2[i] == states[i]);
            assert(s2[i + 1] == states[i + 1]);
            assert(c2[i] == chs[i]);
        } else {
            assert(s2[i] == states.last());
            assert(s2[i + 1] == t);
            assert(c2[i] == c);
        }
    }
}

impl NodeApp {
    /// Processes the consensus items `citems` of the finalized block of
    /// round `block_round`, proposed by `voter`, and moves the saved
    /// position to the start of the next round. Returns the peer sets the
    /// consensus must switch to, in order.
    ///
    /// The in-memory position starts at the saved one and moves to the index
    /// of each item in turn; an item below it is skipped, so only the first
    /// item can be. Every other item is applied, in order, as `block_step`
    /// describes: first the dropped caches are reloaded (and the modules set
    /// up again when the configurations were reloaded), then the item is
    /// processed. A failure of the reload ends processing with its error.
    pub fn process_block(
        &mut self,
        block_round: BlockRound,
        voter: PeerPubkey,
        citems: Vec<CItem>,
        peer_set: &mut Option<PeerSet>,
        modules_configs: &mut Option<BTreeMap<ModuleId, ModuleConfig>>,
    ) -> (r: Result<Vec<PeerSet>, SetupError>)
        requires
            caches_consistent(old(self).modules@, *old(peer_set), *old(modules_configs)),
            citems@.len() <= u32::MAX,
            block_round < u64::MAX,
        ensures
            r is Ok ==> {
                &&& caches_consistent(final(self).modules@, *final(peer_set), *final(modules_configs))
                &&& final(self).cur_round == block_round + 1
                &&& final(self).cur_idx.0 == 0
            },
            r matches Ok(changes) ==> exists|states: Seq<AppState>, chs: Seq<Seq<Set<PeerPubkey>>>|
                {
                    &&& #[trigger] block_trace(
                        states,
                        chs,
                        old(self).cur_idx.0 as int,
                        old(self).peer_pubkey,
                        voter,
                        citems@,
                    )
                    &&& chs.len() == citems@.len()
                    &&& states[0] == (
                        old(self).modules@,
                        old(self).stored_tables@,
                        *old(modules_configs) is Some,
                    )
                    &&& states.last() == (
                        final(self).modules@,
                        final(self).stored_tables@,
                        *final(modules_configs) is Some,
                    )
                    &&& sets_view(changes@) == flatten_changes(chs)
                },
            r matches Ok(changes) ==> if changes@.len() > 0 {
                changes@.last()@ == ctrl_module(final(self).modules@).db.peers@
            } else {
                ctrl_module(final(self).modules@).db.peers@ == ctrl_module(old(self).modules@).db.peers@
            },
            r is Err ==> exists|states: Seq<AppState>, chs: Seq<Seq<Set<PeerPubkey>>>|
                {
                    &&& #[trigger] block_trace(
                        states,
                        chs,
                        old(self).cur_idx.0 as int,
                        old(self).peer_pubkey,
                        voter,
                        citems@,
                    )
                    &&& position_before(old(self).cur_idx.0 as int, chs.len() as int) <= chs.len()
                    &&& chs.len() < citems@.len()
                    &&& states[0] == (
                        old(self).modules@,
                        old(self).stored_tables@,
                        *old(modules_configs) is Some,
                    )
                    &&& !states.last().2
                    &&& setup_stopped_at_failure(
                        states.last().0,
                        states.last().1,
                        old(self).modules_inits@,
                        ctrl_module(states.last().0).db.modules_configs@,
                        old(self).peer_pubkey,
                        final(self).modules@,
                        final(self).stored_tables@,
                    )
                },
            final(self).peer_pubkey == old(self).peer_pubkey,
            final(self).modules_inits == old(self).modules_inits,
    {
        let n = citems.len();
        let mut pending = citems;
        let mut reversed: Vec<CItem> = Vec::new();
        while pending.len() > 0
            invariant
                pending@.len() + reversed@.len() == n,
                n == citems@.len(),
                pending@ == citems@.take(pending@.len() as int),
                forall|k: int| 0 <= k < reversed@.len() ==> #[trigger] reversed@[k] == citems@[n - 1 - k],
            decreases pending@.len(),
        {
            let c = pending.pop().unwrap();
            proof {
                assert(c == citems@[pending@.len() as int]);
            }
            reversed.push(c);
            proof {
                assert(pending@ =~= citems@.take(pending@.len() as int));
            }
        }
        let ghost me = self.peer_pubkey;
        let ghost inits = self.modules_inits@;
        let ghost mut states: Seq<AppState> = seq![
            (self.modules@, self.stored_tables@, *modules_configs is Some),
        ];
        let ghost mut chs: Seq<Seq<Set<PeerPubkey>>> = Seq::empty();
        let start: u32 = self.cur_idx.0;
        let mut cur_idx: u32 = start;
        let mut changes: Vec<PeerSet> = Vec::new();
        let mut idx: u32 = 0;
        while reversed.len() > 0
            invariant
                reversed@.len() + idx == n,
                n == citems@.len(),
                n <= u32::MAX,
                forall|k: int| 0 <= k < reversed@.len() ==> #[trigger] reversed@[k] == citems@[n - 1 - k],
                caches_consistent(self.modules@, *peer_set, *modules_configs),
                self.peer_pubkey == me,
                me == old(self).peer_pubkey,
                self.modules_inits@ == inits,
                inits == old(self).modules_inits@,
                self.modules_inits == old(self).modules_inits,
                start == old(self).cur_idx.0,
                cur_idx as int == position_before(start as int, idx as int),
                block_trace(states, chs, start as int, me, voter, citems@),
                chs.len() == idx,
                states[0] == (old(self).modules@, old(self).stored_tables@, *old(modules_configs) is Some),
                states.last() == (self.modules@, self.stored_tables@, *modules_configs is Some),
                sets_view(changes@) == flatten_changes(chs),
                if changes@.len() > 0 {
                    changes@.last()@ == ctrl_module(self.modules@).db.peers@
                } else {
                    ctrl_module(self.modules@).db.peers@ == ctrl_module(old(self).modules@).db.peers@
                },
            decreases reversed@.len(),
        {
            let citem = reversed.pop().unwrap();
            proof {
                assert(citem == citems@[idx as int]);
            }
            let ghost s: AppState = (self.modules@, self.stored_tables@, *modules_configs is Some);
            let ghost mut c: Seq<Set<PeerPubkey>> = Seq::empty();
            if cur_idx <= idx {
                let ghost before = self.modules@;
                let ghost before_stored = self.stored_tables@;
                let ghost configs_cached = *modules_configs;
                let ghost peers_before = ctrl_module(self.modules@).db.peers@;
                match self.reload_invalidated_copies(peer_set, modules_configs) {
                    Ok(()) => {},
                    Err(e) => {
                        proof {
                            assert(block_trace(states, chs, start as int, me, voter, citems@));
                        }
                        return Err(e);
                    },
                }
                proof {
                    if configs_cached is None {
                        lemma_setup_keeps_app_invariant(
                            before,
                            before_stored,
                            self.peer_pubkey,
                            self.modules@,
                            self.stored_tables@,
                        );
                    }
                    assert(caches_consistent(self.modules@, *peer_set, *modules_configs));
                    assert(ctrl_module(self.modules@).db.peers@ == peers_before);
                }
                let ghost mid: AppState = (self.modules@, self.stored_tables@, true);
                proof {
                    assert(reload_ok(s, me, mid));
                }
                let ghost before = self.modules@;
                let ghost current = peer_set.unwrap();
                let ghost cached_configs = *modules_configs;
                match self.process_citem(
                    block_round,
                    BlockCItemIdx::new(idx),
                    voter,
                    peer_set,
                    modules_configs,
                    citem,
                ) {
                    Ok(outcome) => {
                        proof {
                            lemma_citem_keeps_caches(
                                before,
                                self.modules@,
                                voter,
                                current,
                                cached_configs,
                                citem,
                                outcome,
                            );
                            lemma_peer_set_after_last_change(
                                current@,
                                module_effects_view(outcome.effects@),
                            );
                            assert(sets_view(outcome.consensus_params_changes@).len()
                                == outcome.consensus_params_changes@.len());
                            c = sets_view(outcome.consensus_params_changes@);
                            let t: AppState = (self.modules@, self.stored_tables@, *modules_configs is Some);
                            assert(citem_applied(mid.0, t.0, voter, peers_before, citem, outcome));
                            assert(item_applied_via(s, me, voter, citem, t, c, mid));
                        }
                        let ghost changes_before = changes@;
                        let mut k: usize = 0;
                        while k < outcome.consensus_params_changes.len()
                            invariant
                                0 <= k <= outcome.consensus_params_changes@.len(),
                                changes@.len() == changes_before.len() + k,
                                forall|i: int|
                                    0 <= i < changes_before.len() ==> #[trigger] changes@[i]
                                        == changes_before[i],
                                forall|i: int|
                                    0 <= i < k ==> #[trigger] changes@[changes_before.len() + i]@
                                        == outcome.consensus_params_changes@[i]@,
                            decreases outcome.consensus_params_changes@.len() - k,
                        {
                            changes.push(outcome.consensus_params_changes[k].clone());
                            k = k + 1;
                        }
                        proof {
                            let n_new = outcome.consensus_params_changes@.len();
                            if n_new > 0 {
                                let j = (n_new - 1) as int;
                                assert(changes@[changes_before.len() + j]@
                                    == outcome.consensus_params_changes@[j]@);
                                assert(changes@.last()@ == outcome.consensus_params_changes@[n_new
                                    - 1]@);
                                assert(sets_view(outcome.consensus_params_changes@)[n_new - 1]
                                    == outcome.consensus_params_changes@[n_new - 1]@);
                            } else if changes_before.len() > 0 {
                                assert(changes@.last() == changes_before.last());
                            }
                            assert(sets_view(changes@) =~= sets_view(changes_before) + c) by {
                                assert forall|i: int| 0 <= i < changes@.len() implies #[trigger] sets_view(
                                    changes@,
                                )[i] == (sets_view(changes_before) + c)[i] by {
                                    if i >= changes_before.len() {
                                        assert(changes@[changes_before.len() + (i
                                            - changes_before.len())]@
                                            == outcome.consensus_params_changes@[i
                                            - changes_before.len()]@);
                                    }
                                }
                            }
                        }
                    },
                    Err(e) => {
                        proof {
                            let t: AppState = (self.modules@, self.stored_tables@, *modules_configs is Some);
                            assert(collect_step(
                                mid.0,
                                t.0,
                                voter,
                                peers_before,
                                citem,
                                Err::<Seq<(ModuleKind, EffectView)>, ProcessCItemError>(e),
                            ));
                            assert(item_applied_via(s, me, voter, citem, t, c, mid));
                            assert(sets_view(changes@) =~= sets_view(changes@) + c);
                        }
                    },
                }
                proof {
                    let t: AppState = (self.modules@, self.stored_tables@, *modules_configs is Some);
                    assert(item_applied(s, me, voter, citem, t, c));
                }
            } else {
                proof {
                    assert(sets_view(changes@) =~= sets_view(changes@) + c);
                }
            }
            proof {
                let t: AppState = (self.modules@, self.stored_tables@, *modules_configs is Some);
                lemma_block_trace_extends(states, chs, start as int, me, voter, citems@, t, c);
                lemma_flatten_push(chs, c);
                states = states.push(t);
                chs = chs.push(c);
            }
            cur_idx = idx;
            idx = idx + 1;
        }
        self.cur_round = block_round + 1;
        self.cur_idx = BlockCItemIdx::new(0);
        Ok(changes)
    }

    /// Starts the modules: prepares the consensus control module's tables
    /// (bootstrapping them for the initial peer set `peers` on a fresh
    /// consensus), sets up the configured modules and queues this node's
    /// module version votes.
    pub fn start_modules(&mut self, peers: &PeerSet) -> (r: Result<(), SetupError>)
        requires
            old(self).modules@.is_empty(),
            stored_tables_ready(old(self).stored_tables@),
        ensures
            !old(self).modules_inits@.contains(MODULE_KIND_CONSENSUS_CTRL) ==> r == Err::<(), SetupError>(
                SetupError::MissingModuleInit { kind: MODULE_KIND_CONSENSUS_CTRL },
            ),
            r is Ok <==> old(self).modules_inits@.contains(MODULE_KIND_CONSENSUS_CTRL)
                && start_configs_ok(old(self).stored_tables@, old(self).modules_inits@),
            r is Ok ==> {
                &&& app_invariant(final(self).modules@)
                &&& forall|m: ModuleId| #[trigger]
                    ctrl_module(final(self).modules@).db.modules_configs@.contains_key(m) ==> {
                        &&& ctrl_module(final(self).modules@).db.pending_modules_versions_votes@.contains_key(m)
                        &&& ctrl_module(final(self).modules@).db.pending_modules_versions_votes@[m]
                            == supported_version(
                            ctrl_module(final(self).modules@).db.modules_configs@[m].kind,
                        ).minor
                    }
                &&& final(self).modules@.dom() == ctrl_module(final(self).modules@).db.modules_configs@.dom()
                &&& ctrl_module(final(self).modules@).db.peers@ == if stored_ctrl_tables(
                    old(self).stored_tables@,
                ) matches Some(t) && t.self_version is Some {
                    stored_ctrl_peers(old(self).stored_tables@)
                } else {
                    stored_ctrl_peers(old(self).stored_tables@).union(peers@)
                }
            },
            final(self).peer_pubkey == old(self).peer_pubkey,
            final(self).modules_inits == old(self).modules_inits,
            final(self).cur_round == old(self).cur_round,
            final(self).cur_idx == old(self).cur_idx,
    {
        let ghost before_stored_at_start = self.stored_tables@;
        let configs = match self.init_consensus_ctrl(peers) {
            Ok(c) => c,
            Err(e) => {
                return Err(e);
            },
        };
        let ghost before = self.modules@;
        let ghost before_stored = self.stored_tables@;
        proof {
            assert(before =~= Map::<ModuleId, ModuleWithConfig>::empty());
            lemma_start_configs(before_stored_at_start, self.stored_tables@, self.modules_inits@, configs@);
        }
        match self.setup_modules_to(&configs) {
            Ok(_) => {},
            Err(e) => {
                proof {
                    let id = choose|id: ModuleId|
                        #[trigger] setup_fails(before, self.modules_inits@, configs@, id);
                    assert(setup_fails(before, self.modules_inits@, configs@, id));
                }
                return Err(e);
            },
        }
        proof {
            let id = CONSENSUS_CTRL_MODULE_ID;
            assert(configs@.contains_key(id));
            assert(super::setup::needs_setup(before, id, configs@[id]));
            assert(!super::setup::setup_fails(before, self.modules_inits@, configs@, id));
            assert(super::setup::entry(before, id) is None);
            assert forall|m: ModuleId| #[trigger] configs@.contains_key(m) implies {
                let c = configs@[m];
                &&& self.modules_inits@.contains(c.kind)
                &&& (c.kind == MODULE_KIND_CONSENSUS_CTRL || c.kind == crate::types::MODULE_KIND_META)
                &&& c.version.major == super::setup::supported_version(c.kind).major
            } by {
                assert(!super::setup::setup_fails(before, self.modules_inits@, configs@, m));
                assert(super::setup::needs_setup(before, m, configs@[m]));
            }
        }
        self.record_supported_modules_versions();
        Ok(())
    }
}

} // verus!
