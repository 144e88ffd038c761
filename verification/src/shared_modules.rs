//! Read-only access to the running modules for the rest of the node: their
//! identifiers and kinds, one module by identifier, and the consensus items
//! they want proposed.
use vstd::prelude::*;
use std::collections::{BTreeMap, BTreeSet};

use crate::keys::{lemma_ascending_u32, lemma_lawful_keys, sorted_keys};
use crate::meta::citem::MetaCitem;
use crate::node_app::citem::{CItem, ModuleCItem};
use crate::node_app::hosted::{proposals_refreshed, AppModule, ModuleWithConfig};
use crate::types::{ModuleId, ModuleKind};

verus! {

/// Why a module could not be looked up.
#[derive(PartialEq, Eq, Structural, Clone, Copy, Debug)]
pub enum ModuleGetError {
    /// The modules are gone: their owner, the node, is shutting down.
    ShuttingDown,
}

/// The identifiers of the running modules.
pub fn get_modules_ids(modules: &BTreeMap<ModuleId, ModuleWithConfig>) -> (r: BTreeSet<ModuleId>)
    ensures
        r@ == modules@.dom(),
{
    proof {
        lemma_lawful_keys();
    }
    let ids = sorted_keys(modules);
    let mut r: BTreeSet<ModuleId> = BTreeSet::new();
    let mut i: usize = 0;
    while i < ids.len()
        invariant
            0 <= i <= ids@.len(),
            r@ == ids@.take(i as int).to_set(),
        decreases ids@.len() - i,
    {
        r.insert(ids[i]);
        proof {
            assert(ids@.take(i as int + 1) =~= ids@.take(i as int).push(ids@[i as int]));
            ids@.take(i as int).lemma_push_to_set_commute(ids@[i as int]);
        }
        i = i + 1;
    }
    proof {
        assert(ids@.take(i as int) =~= ids@);
    }
    r
}

/// The kind of each running module.
pub fn get_modules_kinds(modules: &BTreeMap<ModuleId, ModuleWithConfig>) -> (r: BTreeMap<
    ModuleId,
    ModuleKind,
>)
    ensures
        r@ == Map::new(|id: ModuleId| modules@.contains_key(id), |id: ModuleId| modules@[id].config.kind),
{
    proof {
        lemma_lawful_keys();
    }
    let ids = sorted_keys(modules);
    let ghost f = |id: ModuleId| modules@[id].config.kind;
    let mut r: BTreeMap<ModuleId, ModuleKind> = BTreeMap::new();
    let mut i: usize = 0;
    while i < ids.len()
        invariant
            0 <= i <= ids@.len(),
            ids@.to_set() == modules@.dom(),
            f == (|id: ModuleId| modules@[id].config.kind),
            r@ == Map::new(|id: ModuleId| ids@.take(i as int).contains(id), f),
        decreases ids@.len() - i,
    {
        let id = ids[i];
        proof {
            assert(ids@.to_set().contains(id));
        }
        let kind = match modules.get(&id) {
            Some(m) => m.config.kind,
            None => {
                proof {
                    assert(false);
                }
                0
            },
        };
        r.insert(id, kind);
        proof {
            assert forall|x: ModuleId| #[trigger] ids@.take(i as int + 1).contains(x) <==> (ids@.take(
                i as int,
            ).contains(x) || x == id) by {
                if x == id {
                    assert(ids@.take(i as int + 1)[i as int] == id);
                }
                if ids@.take(i as int).contains(x) {
                    let k = choose|k: int| 0 <= k < i && ids@.take(i as int)[k] == x;
                    assert(ids@.take(i as int + 1)[k] == x);
                }
                if ids@.take(i as int + 1).contains(x) && x != id {
                    let k = choose|k: int| 0 <= k < i + 1 && #[trigger] ids@.take(i as int + 1)[k] == x;
                    assert(k < i);
                    assert(ids@.take(i as int)[k] == x);
                }
            }
            assert(r@ =~= Map::new(|x: ModuleId| ids@.take(i as int + 1).contains(x), f));
        }
        i = i + 1;
    }
    proof {
        assert(ids@.take(i as int) =~= ids@);
        assert forall|x: ModuleId| ids@.contains(x) <==> modules@.contains_key(x) by {
            if modules@.contains_key(x) {
                assert(ids@.to_set().contains(x));
            }
        }
        assert(r@ =~= Map::new(|id: ModuleId| modules@.contains_key(id), f));
    }
    r
}

/// The running module `module_id`, if any.
pub fn get_module(modules: &BTreeMap<ModuleId, ModuleWithConfig>, module_id: ModuleId) -> (r: Option<
    &ModuleWithConfig,
>)
    ensures
        r matches Some(m) ==> modules@.contains_key(module_id) && *m == modules@[module_id],
        r is None ==> !modules@.contains_key(module_id),
{
    proof {
        lemma_lawful_keys();
    }
    modules.get(&module_id)
}

/// The running module `module_id` of the modules `modules`, which are gone
/// (`None`) once their owner shut down.
pub fn get(modules: Option<&BTreeMap<ModuleId, ModuleWithConfig>>, module_id: ModuleId) -> (r:
    Result<Option<&ModuleWithConfig>, ModuleGetError>)
    ensures
        modules is None ==> r == Err::<Option<&ModuleWithConfig>, _>(ModuleGetError::ShuttingDown),
        modules matches Some(ms) ==> match r {
            Ok(Some(m)) => ms@.contains_key(module_id) && *m == ms@[module_id],
            Ok(None) => !ms@.contains_key(module_id),
            Err(_) => false,
        },
{
    match modules {
        None => Err(ModuleGetError::ShuttingDown),
        Some(ms) => Ok(get_module(ms, module_id)),
    }
}

/// Number of consensus items a module instance wants proposed.
pub open spec fn proposal_count(m: AppModule) -> nat {
    match m {
        AppModule::ConsensusCtrl(c) => c.proposed_citems@.len(),
        AppModule::Meta(x) => x.proposed_citems@.len(),
    }
}

/// `c` is the `k`-th consensus item module `module_id`, running as `m`,
/// wants proposed.
pub open spec fn is_proposal(c: CItem, module_id: ModuleId, m: AppModule, k: int) -> bool {
    match c {
        CItem::PeerCItem { module_id: id, citem } => id == module_id && match m {
            AppModule::ConsensusCtrl(x) => citem == ModuleCItem::ConsensusCtrl(x.proposed_citems@[k]),
            AppModule::Meta(x) => citem matches ModuleCItem::Meta(mc) && mc@ == x.proposed_citems@[k]@,
        },
        _ => false,
    }
}

fn copy_meta_citem(c: &MetaCitem) -> (r: MetaCitem)
    ensures
        r@ == c@,
{
    match c {
        MetaCitem::ProposeValue { key, value } => MetaCitem::ProposeValue {
            key: *key,
            value: crate::meta::module::copy_bytes(value),
        },
        MetaCitem::ApproveVote { key, peer_pubkey } => MetaCitem::ApproveVote {
            key: *key,
            peer_pubkey: *peer_pubkey,
        },
    }
}

/// The consensus items module `module_id`, running as `m`, wants proposed.
fn module_proposals(module_id: ModuleId, m: &AppModule) -> (r: Vec<CItem>)
    ensures
        r@.len() == proposal_count(*m),
        forall|k: int| 0 <= k < r@.len() ==> is_proposal(#[trigger] r@[k], module_id, *m, k),
{
    let mut r: Vec<CItem> = Vec::new();
    match m {
        AppModule::ConsensusCtrl(x) => {
            let mut k: usize = 0;
            while k < x.proposed_citems.len()
                invariant
                    *m == AppModule::ConsensusCtrl(*x),
                    0 <= k <= x.proposed_citems@.len(),
                    r@.len() == k,
                    forall|j: int| 0 <= j < k ==> is_proposal(#[trigger] r@[j], module_id, *m, j),
                decreases x.proposed_citems@.len() - k,
            {
                r.push(
                    CItem::PeerCItem {
                        module_id,
                        citem: ModuleCItem::ConsensusCtrl(x.proposed_citems[k]),
                    },
                );
                k = k + 1;
            }
        },
        AppModule::Meta(x) => {
            let mut k: usize = 0;
            while k < x.proposed_citems.len()
                invariant
                    *m == AppModule::Meta(*x),
                    0 <= k <= x.proposed_citems@.len(),
                    r@.len() == k,
                    forall|j: int| 0 <= j < k ==> is_proposal(#[trigger] r@[j], module_id, *m, j),
                decreases x.proposed_citems@.len() - k,
            {
                let c = copy_meta_citem(&x.proposed_citems[k]);
                r.push(CItem::PeerCItem { module_id, citem: ModuleCItem::Meta(c) });
                k = k + 1;
            }
        },
    }
    r
}

/// The consensus items to propose next: each module, in identifier order,
/// refreshes its proposals until one proposes anything, and its items are
/// the answer; none when no module proposes anything. Modules after that
/// one are left as they are.
pub fn next_consensus_proposal(modules: &mut BTreeMap<ModuleId, ModuleWithConfig>) -> (r: Option<
    Vec<CItem>,
>)
    ensures
        final(modules)@.dom() == old(modules)@.dom(),
        forall|id: ModuleId| #[trigger]
            old(modules)@.contains_key(id) ==> final(modules)@[id].config == old(
                modules,
            )@[id].config,
        r is None ==> forall|id: ModuleId| #[trigger]
            old(modules)@.contains_key(id) ==> {
                &&& proposals_refreshed(old(modules)@[id].inner, final(modules)@[id].inner)
                &&& proposal_count(final(modules)@[id].inner) == 0
            },
        r matches Some(items) ==> exists|id: ModuleId|
            {
                &&& #[trigger] old(modules)@.contains_key(id)
                &&& proposals_refreshed(old(modules)@[id].inner, final(modules)@[id].inner)
                &&& proposal_count(final(modules)@[id].inner) > 0
                &&& forall|j: ModuleId|
                    #[trigger] old(modules)@.contains_key(j) && j < id ==> {
                        &&& proposals_refreshed(old(modules)@[j].inner, final(modules)@[j].inner)
                        &&& proposal_count(final(modules)@[j].inner) == 0
                    }
                &&& forall|j: ModuleId|
                    #[trigger] old(modules)@.contains_key(j) && j > id ==> final(modules)@[j] == old(
                        modules,
                    )@[j]
                &&& items@.len() == proposal_count(final(modules)@[id].inner)
                &&& forall|k: int|
                    0 <= k < items@.len() ==> is_proposal(
                        #[trigger] items@[k],
                        id,
                        final(modules)@[id].inner,
                        k,
                    )
            },
{
    proof {
        lemma_lawful_keys();
    }
    let ghost start = modules@;
    let ids = sorted_keys(modules);
    proof {
        lemma_ascending_u32(ids@);
    }
    let mut i: usize = 0;
    while i < ids.len()
        invariant
            0 <= i <= ids@.len(),
            start == old(modules)@,
            ids@.to_set() == start.dom(),
            forall|a: int, b: int| 0 <= a < b < ids@.len() ==> ids@[a] < ids@[b],
            modules@.dom() == start.dom(),
            forall|k: int|
                0 <= k < i ==> {
                    &&& proposals_refreshed(start[#[trigger] ids@[k]].inner, modules@[ids@[k]].inner)
                    &&& proposal_count(modules@[ids@[k]].inner) == 0
                    &&& modules@[ids@[k]].config == start[ids@[k]].config
                },
            forall|k: int| i <= k < ids@.len() ==> modules@[#[trigger] ids@[k]] == start[ids@[k]],
        decreases ids@.len() - i,
    {
        let id = ids[i];
        proof {
            assert(ids@.to_set().contains(id));
        }
        let ghost before = modules@;
        let mut m = match modules.remove(&id) {
            Some(m) => m,
            None => {
                proof {
                    assert(false);
                }
                return None;
            },
        };
        m.inner.refresh_proposals();
        let items = module_proposals(id, &m.inner);
        let found = items.len() > 0;
        modules.insert(id, m);
        proof {
            assert(modules@.dom() =~= start.dom());
            assert forall|k: int| 0 <= k < ids@.len() && k != i implies modules@[#[trigger] ids@[k]]
                == before[ids@[k]] by {
                assert(ids@[k] != id);
            }
        }
        if found {
            proof {
                assert forall|j: ModuleId| #[trigger]
                    start.contains_key(j) && j < id implies {
                    &&& proposals_refreshed(start[j].inner, modules@[j].inner)
                    &&& proposal_count(modules@[j].inner) == 0
                } by {
                    assert(ids@.to_set().contains(j));
                    let k = choose|k: int| 0 <= k < ids@.len() && ids@[k] == j;
                    if k > i {
                        assert(ids@[i as int] < ids@[k]);
                    }
                    assert(k < i);
                }
                assert forall|j: ModuleId| #[trigger]
                    start.contains_key(j) && j > id implies modules@[j] == start[j] by {
                    assert(ids@.to_set().contains(j));
                    let k = choose|k: int| 0 <= k < ids@.len() && ids@[k] == j;
                    if k < i {
                        assert(ids@[k] < ids@[i as int]);
                    }
                    assert(k > i);
                }
                assert forall|j: ModuleId| #[trigger]
                    start.contains_key(j) implies modules@[j].config == start[j].config by {
                    assert(ids@.to_set().contains(j));
                    let k = choose|k: int| 0 <= k < ids@.len() && ids@[k] == j;
                }
            }
            return Some(items);
        }
        i = i + 1;
    }
    proof {
        assert forall|id: ModuleId| #[trigger] start.contains_key(id) implies {
            &&& proposals_refreshed(start[id].inner, modules@[id].inner)
            &&& proposal_count(modules@[id].inner) == 0
        } by {
            assert(ids@.to_set().contains(id));
            let k = choose|k: int| 0 <= k < ids@.len() && ids@[k] == id;
        }
        assert forall|j: ModuleId| #[trigger]
            start.contains_key(j) implies modules@[j].config == start[j].config by {
            assert(ids@.to_set().contains(j));
            let k = choose|k: int| 0 <= k < ids@.len() && ids@[k] == j;
        }
    }
    None
}

} // verus!
