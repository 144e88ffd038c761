use vstd::prelude::*;
use std::collections::{BTreeMap, BTreeSet};

use super::citem::{CItem, ModuleCItem};
use super::hosted::{
    input_refusal, module_citem_step, module_effects_step, output_refusal, AppModule, ModuleError,
    ModuleWithConfig,
};
use super::app::NodeApp;
use super::position::BlockCItemIdx;
use crate::consensus_ctrl::module::result_view;
use crate::effects::{CItemEffect, EffectView, ModuleCItemEffect};
use crate::keys::{lemma_ascending_u32, lemma_lawful_keys, sorted_keys};
use crate::types::{
    BlockRound, ModuleConfig, ModuleId, ModuleKind, PeerPubkey, PeerSet,
    MODULE_KIND_CONSENSUS_CTRL,
};

verus! {

/// Why a consensus item was not applied.
#[derive(PartialEq, Eq, Structural, Clone, Copy, Debug)]
pub enum ProcessCItemError {
    /// No module runs under this identifier.
    UnknownModuleId { module_id: ModuleId },
    /// The module refused the peer's consensus item.
    ProcessingCItemFailed { module_id: ModuleId, source: ModuleError },
    /// The module refused an input of the transaction.
    ProcessingInputFailed { module_id: ModuleId, source: ModuleError },
    /// The module refused an output of the transaction.
    ProcessingOutputFailed { module_id: ModuleId, source: ModuleError },
}

/// What applying a consensus item did beyond the modules' tables.
pub struct CItemOutcome {
    /// The effects the modules reported, in order.
    pub effects: Vec<ModuleCItemEffect>,
    /// The peer set after the item.
    pub peer_set: PeerSet,
    /// Each peer set the consensus must switch to, in order.
    pub consensus_params_changes: Vec<PeerSet>,
    /// Whether module configurations changed, so running modules must be
    /// set up again.
    pub modules_configs_invalidated: bool,
}

/// Effects in plain form, each with the kind of module that emitted it.
pub open spec fn module_effects_view(s: Seq<ModuleCItemEffect>) -> Seq<(ModuleKind, EffectView)> {
    s.map_values(|e: ModuleCItemEffect| (e.module_kind, e.inner@))
}

/// Effects of a module of kind `kind`, tagged with that kind.
pub open spec fn tag_effects(kind: ModuleKind, s: Seq<EffectView>) -> Seq<(ModuleKind, EffectView)> {
    s.map_values(|e: EffectView| (kind, e))
}

/// The effects without their module kinds.
pub open spec fn untag_effects(s: Seq<(ModuleKind, EffectView)>) -> Seq<EffectView> {
    s.map_values(|e: (ModuleKind, EffectView)| e.1)
}

/// `effect` is a change of the consensus peer set reported by the
/// consensus control module.
pub open spec fn is_peer_set_change(effect: (ModuleKind, EffectView)) -> bool {
    effect.0 == MODULE_KIND_CONSENSUS_CTRL && effect.1 is ConsensusParamsChange
}

/// The peer set after the effects `effects`, starting from `peers`: the
/// one carried by the last peer set change, if any.
pub open spec fn peer_set_after(peers: Set<PeerPubkey>, effects: Seq<(ModuleKind, EffectView)>) -> Set<
    PeerPubkey,
>
    decreases effects.len(),
{
    if effects.len() == 0 {
        peers
    } else if is_peer_set_change(effects.last()) {
        effects.last().1->ConsensusParamsChange_0
    } else {
        peer_set_after(peers, effects.drop_last())
    }
}

/// The peer sets carried by the peer set changes of `effects`, in order.
pub open spec fn peer_set_changes(effects: Seq<(ModuleKind, EffectView)>) -> Seq<Set<PeerPubkey>>
    decreases effects.len(),
{
    if effects.len() == 0 {
        seq![]
    } else if is_peer_set_change(effects.last()) {
        peer_set_changes(effects.drop_last()).push(effects.last().1->ConsensusParamsChange_0)
    } else {
        peer_set_changes(effects.drop_last())
    }
}

/// Some effect of `effects` changes module configurations: a module was
/// added or upgraded by the consensus control module.
pub open spec fn invalidates_configs(effects: Seq<(ModuleKind, EffectView)>) -> bool {
    exists|i: int|
        0 <= i < effects.len() && effects[i].0 == MODULE_KIND_CONSENSUS_CTRL && (
        #[trigger] effects[i].1 is ModuleVersionUpgrade || effects[i].1 is AddModule)
}

/// Handing `citem` from `voter` to the modules, with peer set `peers`,
/// takes the running modules from `old` to `new` and collects the effects
/// `r` (or fails).
///
/// A peer's item goes to the module it names, if the peer is in the peer
/// set and the module runs. A transaction hands its inputs, then its
/// outputs, to their modules; the hosted modules refuse both, so the first
/// one fails the transaction and an empty transaction does nothing.
pub open spec fn collect_step(
    old: Map<ModuleId, ModuleWithConfig>,
    new: Map<ModuleId, ModuleWithConfig>,
    voter: PeerPubkey,
    peers: Set<PeerPubkey>,
    citem: CItem,
    r: Result<Seq<(ModuleKind, EffectView)>, ProcessCItemError>,
) -> bool {
    match citem {
        CItem::PeerCItem { module_id, citem: mc } => if !peers.contains(voter) {
            &&& r == Err::<Seq<(ModuleKind, EffectView)>, _>(
                ProcessCItemError::ProcessingCItemFailed {
                    module_id,
                    source: ModuleError::PeerNotInPeerSet,
                },
            )
            &&& new == old
        } else if !old.contains_key(module_id) {
            &&& r == Err::<Seq<(ModuleKind, EffectView)>, _>(
                ProcessCItemError::UnknownModuleId { module_id },
            )
            &&& new == old
        } else {
            let m = old[module_id];
            &&& new.dom() == old.dom()
            &&& forall|j: ModuleId| j != module_id && #[trigger] old.contains_key(j) ==> new[j] == old[j]
            &&& new[module_id].config == m.config
            &&& match r {
                Ok(effects) => {
                    &&& effects == tag_effects(m.config.kind, untag_effects(effects))
                    &&& module_citem_step(
                        m.inner,
                        new[module_id].inner,
                        voter,
                        peers,
                        mc,
                        Ok(untag_effects(effects)),
                    )
                },
                Err(ProcessCItemError::ProcessingCItemFailed { module_id: i, source }) => {
                    &&& i == module_id
                    &&& module_citem_step(m.inner, new[module_id].inner, voter, peers, mc, Err(source))
                    &&& new == old
                },
                Err(_) => false,
            }
        },
        CItem::Transaction { inputs, outputs } => {
            &&& new == old
            &&& if inputs@.len() > 0 {
                let id = inputs@[0].0;
                r == Err::<Seq<(ModuleKind, EffectView)>, _>(
                    if old.contains_key(id) {
                        ProcessCItemError::ProcessingInputFailed {
                            module_id: id,
                            source: input_refusal(old[id].inner),
                        }
                    } else {
                        ProcessCItemError::UnknownModuleId { module_id: id }
                    },
                )
            } else if outputs@.len() > 0 {
                let id = outputs@[0].0;
                r == Err::<Seq<(ModuleKind, EffectView)>, _>(
                    if old.contains_key(id) {
                        ProcessCItemError::ProcessingOutputFailed {
                            module_id: id,
                            source: output_refusal(old[id].inner),
                        }
                    } else {
                        ProcessCItemError::UnknownModuleId { module_id: id }
                    },
                )
            } else {
                r == Ok::<_, ProcessCItemError>(Seq::<(ModuleKind, EffectView)>::empty())
            }
        },
    }
}

/// Every running module reacted to `effects` with peer set `peers`, taking
/// the modules from `old` to `new`.
pub open spec fn effects_applied(
    old: Map<ModuleId, ModuleWithConfig>,
    new: Map<ModuleId, ModuleWithConfig>,
    peers: Set<PeerPubkey>,
    effects: Seq<ModuleCItemEffect>,
) -> bool {
    &&& new.dom() == old.dom()
    &&& forall|j: ModuleId| #[trigger]
        old.contains_key(j) ==> {
            &&& new[j].config == old[j].config
            &&& module_effects_step(old[j].inner, new[j].inner, peers, effects)
        }
}

/// The result of a processing call in plain form.
pub open spec fn collected_view(r: Result<Vec<ModuleCItemEffect>, ProcessCItemError>) -> Result<
    Seq<(ModuleKind, EffectView)>,
    ProcessCItemError,
> {
    match r {
        Ok(e) => Ok(module_effects_view(e@)),
        Err(x) => Err(x),
    }
}

/// Tags each effect with the kind of the module that emitted it.
fn tag_with_kind(kind: ModuleKind, effects: Vec<CItemEffect>) -> (r: Vec<ModuleCItemEffect>)
    ensures
        module_effects_view(r@) == tag_effects(kind, effects@.map_values(|e: CItemEffect| e@)),
{
    let ghost src = effects@;
    let mut effects = effects;
    let mut rev: Vec<ModuleCItemEffect> = Vec::new();
    while effects.len() > 0
        invariant
            effects@.len() + rev@.len() == src.len(),
            effects@ == src.take(effects@.len() as int),
            forall|k: int|
                0 <= k < rev@.len() ==> (#[trigger] rev@[k]).module_kind == kind && rev@[k].inner@
                    == src[src.len() - 1 - k]@,
        decreases effects@.len(),
    {
        let e = effects.pop().unwrap();
        proof {
            assert(effects@ =~= src.take(effects@.len() as int));
        }
        rev.push(ModuleCItemEffect { module_kind: kind, inner: e });
    }
    let mut out: Vec<ModuleCItemEffect> = Vec::new();
    while rev.len() > 0
        invariant
            rev@.len() + out@.len() == src.len(),
            forall|k: int|
                0 <= k < rev@.len() ==> (#[trigger] rev@[k]).module_kind == kind && rev@[k].inner@
                    == src[src.len() - 1 - k]@,
            forall|k: int|
                0 <= k < out@.len() ==> (#[trigger] out@[k]).module_kind == kind && out@[k].inner@
                    == src[k]@,
        decreases rev@.len(),
    {
        let e = rev.pop().unwrap();
        out.push(e);
    }
    proof {
        assert(module_effects_view(out@) =~= tag_effects(kind, src.map_values(|e: CItemEffect| e@)));
    }
    out
}

/// Hands `citem` from `voter` to the module it names and collects the
/// effects, each tagged with the module's kind. On error nothing changes.
pub fn collect_effects(
    modules: &mut BTreeMap<ModuleId, ModuleWithConfig>,
    voter: PeerPubkey,
    peer_set: &PeerSet,
    citem: CItem,
) -> (r: Result<Vec<ModuleCItemEffect>, ProcessCItemError>)
    ensures
        collect_step(old(modules)@, final(modules)@, voter, peer_set@, citem, collected_view(r)),
{
    proof {
        lemma_lawful_keys();
    }
    let ghost c0 = citem;
    match citem {
        CItem::PeerCItem { module_id, citem: mc } => {
            if !peer_set.contains(&voter) {
                return Err(
                    ProcessCItemError::ProcessingCItemFailed {
                        module_id,
                        source: ModuleError::PeerNotInPeerSet,
                    },
                );
            }
            let ghost before = modules@;
            let ghost mcv = mc;
            let mut m = match modules.remove(&module_id) {
                Some(m) => m,
                None => {
                    proof {
                        assert(modules@ =~= before);
                    }
                    return Err(ProcessCItemError::UnknownModuleId { module_id });
                },
            };
            let kind = m.config.kind;
            let res = m.inner.process_citem(voter, peer_set, mc);
            let ghost new_inner = m.inner;
            modules.insert(module_id, m);
            proof {
                assert forall|j: ModuleId| j != module_id && #[trigger] before.contains_key(j)
                    implies modules@[j] == before[j] by {}
                assert(modules@.dom() =~= before.dom());
            }
            match res {
                Ok(effects) => {
                    let tagged = tag_with_kind(kind, effects);
                    proof {
                        let ev = effects@.map_values(|e: CItemEffect| e@);
                        assert(untag_effects(module_effects_view(tagged@)) =~= ev);
                        assert(result_view::<ModuleError>(Ok(effects)) == Ok::<_, ModuleError>(ev));
                    }
                    Ok(tagged)
                },
                Err(source) => {
                    proof {
                        assert(modules@ =~= before);
                    }
                    Err(ProcessCItemError::ProcessingCItemFailed { module_id, source })
                },
            }
        },
        CItem::Transaction { inputs, outputs } => {
            if inputs.len() > 0 {
                let id = inputs[0].0;
                match modules.get(&id) {
                    Some(m) => {
                        let res = m.inner.process_input(&inputs[0].1);
                        return match res {
                            Ok(_) => Err(ProcessCItemError::UnknownModuleId { module_id: id }),
                            Err(source) => Err(
                                ProcessCItemError::ProcessingInputFailed { module_id: id, source },
                            ),
                        };
                    },
                    None => {
                        return Err(ProcessCItemError::UnknownModuleId { module_id: id });
                    },
                }
            }
            if outputs.len() > 0 {
                let id = outputs[0].0;
                match modules.get(&id) {
                    Some(m) => {
                        let res = m.inner.process_output(&outputs[0].1);
                        return match res {
                            Ok(_) => Err(ProcessCItemError::UnknownModuleId { module_id: id }),
                            Err(source) => Err(
                                ProcessCItemError::ProcessingOutputFailed { module_id: id, source },
                            ),
                        };
                    },
                    None => {
                        return Err(ProcessCItemError::UnknownModuleId { module_id: id });
                    },
                }
            }
            let none: Vec<ModuleCItemEffect> = Vec::new();
            proof {
                assert(module_effects_view(none@) =~= Seq::<(ModuleKind, EffectView)>::empty());
            }
            Ok(none)
        },
    }
}

/// The peer sets of a sequence, in plain form.
pub open spec fn sets_view(s: Seq<PeerSet>) -> Seq<Set<PeerPubkey>> {
    s.map_values(|p: PeerSet| p@)
}

/// Scans `effects` for peer set changes: returns the peer set after them
/// (starting from `peer_set`) and every peer set they carry, in order.
pub fn scan_peer_set_changes(peer_set: &PeerSet, effects: &Vec<ModuleCItemEffect>) -> (r: (
    PeerSet,
    Vec<PeerSet>,
))
    ensures
        r.0@ == peer_set_after(peer_set@, module_effects_view(effects@)),
        sets_view(r.1@) == peer_set_changes(module_effects_view(effects@)),
{
    let ghost ev = module_effects_view(effects@);
    let mut current = peer_set.clone();
    let mut changes: Vec<PeerSet> = Vec::new();
    let mut i: usize = 0;
    proof {
        assert(ev.take(0) =~= Seq::<(ModuleKind, EffectView)>::empty());
        assert(sets_view(changes@) =~= Seq::<Set<PeerPubkey>>::empty());
    }
    while i < effects.len()
        invariant
            0 <= i <= effects@.len(),
            ev == module_effects_view(effects@),
            current@ == peer_set_after(peer_set@, ev.take(i as int)),
            sets_view(changes@) == peer_set_changes(ev.take(i as int)),
        decreases effects@.len() - i,
    {
        let effect = &effects[i];
        proof {
            assert(ev.take(i as int + 1).drop_last() =~= ev.take(i as int));
            assert(ev.take(i as int + 1).last() == ev[i as int]);
        }
        if effect.module_kind == MODULE_KIND_CONSENSUS_CTRL {
            match &effect.inner {
                CItemEffect::ConsensusParamsChange(change) => {
                    current = change.peer_set.clone();
                    let ghost before = changes@;
                    changes.push(change.peer_set.clone());
                    proof {
                        assert(sets_view(changes@) =~= sets_view(before).push(change.peer_set@));
                    }
                },
                _ => {},
            }
        }
        i = i + 1;
    }
    proof {
        assert(ev.take(i as int) =~= ev);
    }
    (current, changes)
}

/// Whether some effect of `effects` changes module configurations.
pub fn configs_invalidated(effects: &Vec<ModuleCItemEffect>) -> (r: bool)
    ensures
        r == invalidates_configs(module_effects_view(effects@)),
{
    let ghost ev = module_effects_view(effects@);
    let mut i: usize = 0;
    while i < effects.len()
        invariant
            0 <= i <= effects@.len(),
            ev == module_effects_view(effects@),
            forall|k: int|
                0 <= k < i ==> !(ev[k].0 == MODULE_KIND_CONSENSUS_CTRL && (
                #[trigger] ev[k].1 is ModuleVersionUpgrade || ev[k].1 is AddModule)),
        decreases effects@.len() - i,
    {
        let effect = &effects[i];
        if effect.module_kind == MODULE_KIND_CONSENSUS_CTRL {
            match &effect.inner {
                CItemEffect::ModuleVersionUpgrade(_) => {
                    proof {
                        assert(ev[i as int].1 is ModuleVersionUpgrade);
                    }
                    return true;
                },
                CItemEffect::AddModule(_) => {
                    proof {
                        assert(ev[i as int].1 is AddModule);
                    }
                    return true;
                },
                _ => {},
            }
        }
        i = i + 1;
    }
    false
}

/// Lets every running module react to `effects`, with peer set
/// `peer_set`, in increasing module order.
pub fn apply_effects_to_modules(
    modules: &mut BTreeMap<ModuleId, ModuleWithConfig>,
    peer_set: &PeerSet,
    effects: &Vec<ModuleCItemEffect>,
)
    ensures
        effects_applied(old(modules)@, final(modules)@, peer_set@, effects@),
{
    proof {
        lemma_lawful_keys();
    }
    let ids = sorted_keys(modules);
    let ghost start = modules@;
    proof {
        lemma_ascending_u32(ids@);
    }
    let mut i: usize = 0;
    while i < ids.len()
        invariant
            0 <= i <= ids@.len(),
            ids@.to_set() == start.dom(),
            ids@.no_duplicates(),
            modules@.dom() == start.dom(),
            forall|j: ModuleId| #[trigger]
                start.contains_key(j) ==> {
                    &&& modules@[j].config == start[j].config
                    &&& if ids@.take(i as int).contains(j) {
                        module_effects_step(start[j].inner, modules@[j].inner, peer_set@, effects@)
                    } else {
                        modules@[j] == start[j]
                    }
                },
        decreases ids@.len() - i,
    {
        let id = ids[i];
        proof {
            assert(ids@.to_set().contains(id));
            assert(!ids@.take(i as int).contains(id));
        }
        let ghost before = modules@;
        let mut m = match modules.remove(&id) {
            Some(m) => m,
            None => {
                proof {
                    assert(false);
                }
                return;
            },
        };
        m.inner.process_effects(peer_set, effects);
        modules.insert(id, m);
        proof {
            assert(ids@.take(i as int + 1) =~= ids@.take(i as int).push(id));
            assert forall|j: ModuleId| #[trigger] start.contains_key(j) implies {
                &&& modules@[j].config == start[j].config
                &&& if ids@.take(i as int + 1).contains(j) {
                    module_effects_step(start[j].inner, modules@[j].inner, peer_set@, effects@)
                } else {
                    modules@[j] == start[j]
                }
            } by {
                if j != id {
                    assert(modules@[j] == before[j]);
                    assert(ids@.take(i as int + 1).contains(j) == ids@.take(i as int).contains(j));
                } else {
                    assert(ids@.take(i as int + 1)[i as int] == id);
                    assert(ids@.take(i as int + 1).contains(j));
                }
            }
            assert(modules@.dom() =~= start.dom());
        }
        i = i + 1;
    }
    proof {
        assert(ids@.take(i as int) =~= ids@);
        assert forall|j: ModuleId| #[trigger] start.contains_key(j) implies ids@.contains(j) by {
            assert(ids@.to_set().contains(j));
        }
    }
}

/// Applying `citem` from `voter` with peer set `peers` took the running
/// modules from `old` to `new` with outcome `outcome`: the modules handed
/// the item collected its effects, the peer set followed the peer set
/// changes among them, and then every module reacted to the effects with
/// the new peer set.
pub open spec fn citem_applied(
    old: Map<ModuleId, ModuleWithConfig>,
    new: Map<ModuleId, ModuleWithConfig>,
    voter: PeerPubkey,
    peers: Set<PeerPubkey>,
    citem: CItem,
    outcome: CItemOutcome,
) -> bool {
    let ev = module_effects_view(outcome.effects@);
    &&& exists|mid: Map<ModuleId, ModuleWithConfig>|
        #[trigger] collect_step(old, mid, voter, peers, citem, Ok(ev)) && effects_applied(
            mid,
            new,
            outcome.peer_set@,
            outcome.effects@,
        )
    &&& outcome.peer_set@ == peer_set_after(peers, ev)
    &&& sets_view(outcome.consensus_params_changes@) == peer_set_changes(ev)
    &&& outcome.modules_configs_invalidated == invalidates_configs(ev)
}

impl NodeApp {
    /// Applies `citem` from `voter`, where `peer_set` is the current peer
    /// set, to the running modules, as one transaction: on error nothing
    /// changes.
    pub fn process_citem_try(&mut self, voter: PeerPubkey, peer_set: &PeerSet, citem: CItem) -> (r:
        Result<CItemOutcome, ProcessCItemError>)
        ensures
            match r {
                Ok(o) => citem_applied(old(self).modules@, final(self).modules@, voter, peer_set@, citem, o),
                Err(e) => collect_step(
                    old(self).modules@,
                    final(self).modules@,
                    voter,
                    peer_set@,
                    citem,
                    Err(e),
                ),
            },
            r is Err ==> final(self).modules@ == old(self).modules@,
            final(self).peer_pubkey == old(self).peer_pubkey,
            final(self).modules_inits == old(self).modules_inits,
            final(self).stored_tables == old(self).stored_tables,
            final(self).cur_round == old(self).cur_round,
            final(self).cur_idx == old(self).cur_idx,
    {
        let effects = match collect_effects(&mut self.modules, voter, peer_set, citem) {
            Ok(effects) => effects,
            Err(e) => {
                return Err(e);
            },
        };
        let ghost mid = self.modules@;
        let (new_peer_set, changes) = scan_peer_set_changes(peer_set, &effects);
        apply_effects_to_modules(&mut self.modules, &new_peer_set, &effects);
        let invalidated = configs_invalidated(&effects);
        let outcome = CItemOutcome {
            effects,
            peer_set: new_peer_set,
            consensus_params_changes: changes,
            modules_configs_invalidated: invalidated,
        };
        proof {
            assert(collect_step(
                old(self).modules@,
                mid,
                voter,
                peer_set@,
                citem,
                Ok(module_effects_view(outcome.effects@)),
            ));
        }
        Ok(outcome)
    }

    /// Applies the consensus item at position `cur_idx` of the block of
    /// round `cur_round`, from `voter`, with the cached peer set and module
    /// configurations.
    ///
    /// On success the caches follow the item (the configurations are
    /// dropped when they changed) and the position saved is the item's. On
    /// error the modules are unchanged, both caches are dropped and the
    /// position saved is the next item's.
    pub fn process_citem(
        &mut self,
        cur_round: BlockRound,
        cur_idx: BlockCItemIdx,
        voter: PeerPubkey,
        peer_set: &mut Option<PeerSet>,
        modules_configs: &mut Option<BTreeMap<ModuleId, ModuleConfig>>,
        citem: CItem,
    ) -> (r: Result<CItemOutcome, ProcessCItemError>)
        requires
            *old(peer_set) is Some,
            cur_idx.0 < u32::MAX,
        ensures
            match r {
                Ok(o) => {
                    &&& citem_applied(
                        old(self).modules@,
                        final(self).modules@,
                        voter,
                        old(peer_set).unwrap()@,
                        citem,
                        o,
                    )
                    &&& *final(peer_set) matches Some(p) && p@ == o.peer_set@
                    &&& if o.modules_configs_invalidated {
                        *final(modules_configs) is None
                    } else {
                        *final(modules_configs) == *old(modules_configs)
                    }
                    &&& final(self).cur_round == cur_round
                    &&& final(self).cur_idx == cur_idx
                },
                Err(e) => {
                    &&& collect_step(
                        old(self).modules@,
                        final(self).modules@,
                        voter,
                        old(peer_set).unwrap()@,
                        citem,
                        Err(e),
                    )
                    &&& final(self).modules@ == old(self).modules@
                    &&& *final(peer_set) is None
                    &&& *final(modules_configs) is None
                    &&& final(self).cur_round == cur_round
                    &&& final(self).cur_idx.0 == cur_idx.0 + 1
                },
            },
            final(self).peer_pubkey == old(self).peer_pubkey,
            final(self).modules_inits == old(self).modules_inits,
            final(self).stored_tables == old(self).stored_tables,
    {
        let current = match peer_set {
            Some(p) => p.clone(),
            None => {
                proof {
                    assert(false);
                }
                BTreeSet::new()
            },
        };
        match self.process_citem_try(voter, &current, citem) {
            Ok(outcome) => {
                *peer_set = Some(outcome.peer_set.clone());
                if outcome.modules_configs_invalidated {
                    *modules_configs = None;
                }
                self.cur_round = cur_round;
                self.cur_idx = cur_idx;
                Ok(outcome)
            },
            Err(e) => {
                *peer_set = None;
                *modules_configs = None;
                self.cur_round = cur_round;
                self.cur_idx = cur_idx.next();
                Err(e)
            },
        }
    }
}

} // verus!
