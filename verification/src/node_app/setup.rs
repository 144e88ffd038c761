use vstd::prelude::*;
use std::collections::{BTreeMap, BTreeSet};

use super::app::{NodeApp, CONSENSUS_CTRL_MODULE_ID};
use super::hosted::{AppModule, ModuleTables, ModuleWithConfig};
use crate::consensus_ctrl::init::AppConsensusModuleInit;
use crate::consensus_ctrl::module::{
    newest_supported_minor, spec_proposals, AppConsensusModule, AppConsensusTables,
    ModuleSupportedConsensusVersions,
};
use crate::keys::{lemma_ascending_u32, lemma_lawful_keys, sorted_keys};
use crate::meta::init::MetaModuleInit;
use crate::meta::module::{MetaModule, MetaTables};
use crate::module_init::ModuleInitError;
use crate::types::{
    ConsensusVersion, ModuleConfig, ModuleId, ModuleKind, PeerPubkey, PeerSet,
    MODULE_KIND_CONSENSUS_CTRL, MODULE_KIND_META,
};

verus! {

/// Why the running modules could not be set up for new configurations.
#[derive(PartialEq, Eq, Structural, Clone, Copy, Debug)]
pub enum SetupError {
    /// This node cannot run modules of this kind.
    MissingModuleInit { kind: ModuleKind },
    /// The module refused to start at the configured version.
    ModuleInitFailed { module_id: ModuleId, source: ModuleInitError },
}

/// The version this node runs modules of kind `kind` at.
pub open spec fn supported_version(kind: ModuleKind) -> ConsensusVersion {
    if kind == MODULE_KIND_CONSENSUS_CTRL {
        ConsensusVersion {
            major: crate::consensus_ctrl::init::CURRENT_VERSION_MAJOR,
            minor: crate::consensus_ctrl::init::CURRENT_VERSION_MINOR,
        }
    } else {
        ConsensusVersion {
            major: crate::meta::init::CURRENT_VERSION_MAJOR,
            minor: crate::meta::init::CURRENT_VERSION_MINOR,
        }
    }
}

/// A module of kind `kind` starts at version `v`: the consensus control
/// module at any minor version of its major version up to the supported
/// one, the meta module only at its supported version.
pub open spec fn version_supported(kind: ModuleKind, v: ConsensusVersion) -> bool {
    if kind == MODULE_KIND_CONSENSUS_CTRL {
        v.major == supported_version(kind).major && v.minor <= supported_version(kind).minor
    } else {
        v == supported_version(kind)
    }
}

/// The module under `id` must be (re)created for configuration `cfg`: no
/// module runs there with that very configuration.
pub open spec fn needs_setup(old: Map<ModuleId, ModuleWithConfig>, id: ModuleId, cfg: ModuleConfig) -> bool {
    !(old.contains_key(id) && old[id].config@ == cfg@)
}

/// Why creating the module under `id` with configuration `cfg` fails, if
/// it does.
pub open spec fn setup_error(inits: Set<ModuleKind>, id: ModuleId, cfg: ModuleConfig) -> Option<
    SetupError,
> {
    if !(inits.contains(cfg.kind) && (cfg.kind == MODULE_KIND_CONSENSUS_CTRL || cfg.kind
        == MODULE_KIND_META)) {
        Some(SetupError::MissingModuleInit { kind: cfg.kind })
    } else if !version_supported(cfg.kind, cfg.version) {
        Some(
            SetupError::ModuleInitFailed {
                module_id: id,
                source: ModuleInitError::UnsupportedVersion {
                    requested: cfg.version,
                    supported: supported_version(cfg.kind),
                },
            },
        )
    } else {
        None
    }
}

/// Module `id` must be created and cannot be.
pub open spec fn setup_fails(
    old: Map<ModuleId, ModuleWithConfig>,
    inits: Set<ModuleKind>,
    configs: Map<ModuleId, ModuleConfig>,
    id: ModuleId,
) -> bool {
    configs.contains_key(id) && needs_setup(old, id, configs[id]) && setup_error(
        inits,
        id,
        configs[id],
    ) is Some
}

/// Tables with no record.
pub open spec fn ctrl_tables_empty(t: AppConsensusTables) -> bool {
    &&& t.self_version is None
    &&& t.peers@.is_empty()
    &&& t.add_peer_votes@.is_empty()
    &&& t.remove_peer_votes@.is_empty()
    &&& t.pending_add_peer_vote is None
    &&& t.pending_remove_peer_vote is None
    &&& t.modules_configs@.is_empty()
    &&& t.modules_versions_votes@.is_empty()
    &&& t.pending_modules_versions_votes@.is_empty()
}

/// Tables with no record.
pub open spec fn meta_tables_empty(t: MetaTables) -> bool {
    &&& t.key_value_votes@.is_empty()
    &&& t.consensus_values@.is_empty()
    &&& t.pending_proposals@.is_empty()
}

/// The consensus control tables a new instance starts from: those of the
/// instance it replaces, else those stored for its identifier.
pub open spec fn ctrl_tables_source(prev: Option<ModuleWithConfig>, stored: Option<ModuleTables>) -> Option<
    AppConsensusTables,
> {
    match prev {
        Some(ModuleWithConfig { inner: AppModule::ConsensusCtrl(m), .. }) => Some(m.db),
        _ => match stored {
            Some(ModuleTables::ConsensusCtrl(t)) => Some(t),
            _ => None,
        },
    }
}

/// The meta tables a new instance starts from: those of the instance it
/// replaces, else those stored for its identifier.
pub open spec fn meta_tables_source(prev: Option<ModuleWithConfig>, stored: Option<ModuleTables>) -> Option<
    MetaTables,
> {
    match prev {
        Some(ModuleWithConfig { inner: AppModule::Meta(m), .. }) => Some(m.db),
        _ => match stored {
            Some(ModuleTables::Meta(t)) => Some(t),
            _ => None,
        },
    }
}

/// `m` is a fresh instance for configuration `cfg`, voting as `me`, over
/// the tables of the instance `prev` it replaces, or else the tables
/// `stored`, or else empty tables.
pub open spec fn created_module(
    m: ModuleWithConfig,
    cfg: ModuleConfig,
    me: Option<PeerPubkey>,
    prev: Option<ModuleWithConfig>,
    stored: Option<ModuleTables>,
) -> bool {
    &&& m.config@ == cfg@
    &&& if cfg.kind == MODULE_KIND_CONSENSUS_CTRL {
        match m.inner {
            AppModule::ConsensusCtrl(c) => {
                &&& c.version == cfg.version
                &&& c.peer_pubkey == me
                &&& c.proposed_citems@ == spec_proposals(&c.db, me)
                &&& match ctrl_tables_source(prev, stored) {
                    Some(t) => c.db == t,
                    None => ctrl_tables_empty(c.db),
                }
            },
            AppModule::Meta(_) => false,
        }
    } else {
        match m.inner {
            AppModule::Meta(x) => {
                &&& x.version == cfg.version
                &&& x.peer_pubkey == me
                &&& x.proposed_citems@.len() == 0
                &&& match meta_tables_source(prev, stored) {
                    Some(t) => x.db == t,
                    None => meta_tables_empty(x.db),
                }
            },
            AppModule::ConsensusCtrl(_) => false,
        }
    }
}

/// The entry of a map, if any.
pub open spec fn entry<K, V>(m: Map<K, V>, k: K) -> Option<V> {
    if m.contains_key(k) {
        Some(m[k])
    } else {
        None
    }
}

/// Setting up the modules `old`, with stored tables `stored`, for the
/// configurations `configs` gave the modules `new` and stored tables
/// `new_stored`: a module whose configuration is unchanged keeps running;
/// every other one is created afresh and takes the tables stored for its
/// identifier out of the store.
pub open spec fn setup_applied(
    old: Map<ModuleId, ModuleWithConfig>,
    stored: Map<ModuleId, ModuleTables>,
    configs: Map<ModuleId, ModuleConfig>,
    me: Option<PeerPubkey>,
    new: Map<ModuleId, ModuleWithConfig>,
    new_stored: Map<ModuleId, ModuleTables>,
) -> bool {
    &&& new.dom() == configs.dom()
    &&& forall|id: ModuleId| #[trigger]
        configs.contains_key(id) ==> if needs_setup(old, id, configs[id]) {
            created_module(new[id], configs[id], me, entry(old, id), entry(stored, id))
        } else {
            new[id] == old[id]
        }
    &&& new_stored == stored.remove_keys(
        configs.dom().filter(|id: ModuleId| needs_setup(old, id, configs[id])),
    )
}

/// Creates the module instance for configuration `cfg`, voting as `me`,
/// over the tables of `prev` or else `stored`.
fn create_module(
    cfg: &ModuleConfig,
    me: Option<PeerPubkey>,
    prev: Option<ModuleWithConfig>,
    stored: Option<ModuleTables>,
) -> (r: Result<ModuleWithConfig, ModuleInitError>)
    requires
        cfg.kind == MODULE_KIND_CONSENSUS_CTRL || cfg.kind == MODULE_KIND_META,
        version_supported(cfg.kind, cfg.version),
    ensures
        r matches Ok(m) && created_module(m, *cfg, me, prev, stored),
{
    if cfg.kind == MODULE_KIND_CONSENSUS_CTRL {
        let tables = match prev {
            Some(ModuleWithConfig { inner: AppModule::ConsensusCtrl(m), .. }) => m.db,
            _ => match stored {
                Some(ModuleTables::ConsensusCtrl(t)) => t,
                _ => AppConsensusModule::init_db_tx(),
            },
        };
        match AppConsensusModuleInit.init(cfg.version, tables, me) {
            Ok(m) => Ok(ModuleWithConfig { config: cfg.clone(), inner: AppModule::ConsensusCtrl(m) }),
            Err(e) => Err(e),
        }
    } else {
        let tables = match prev {
            Some(ModuleWithConfig { inner: AppModule::Meta(m), .. }) => m.db,
            _ => match stored {
                Some(ModuleTables::Meta(t)) => t,
                _ => MetaModule::init_db_tx(),
            },
        };
        match MetaModuleInit.init(cfg.version, tables, me) {
            Ok(m) => Ok(ModuleWithConfig { config: cfg.clone(), inner: AppModule::Meta(m) }),
            Err(e) => Err(e),
        }
    }
}

/// Whether a module of kind `kind` starts at version `v`.
fn starts_at(kind: ModuleKind, v: ConsensusVersion) -> (r: bool)
    ensures
        r == version_supported(kind, v),
{
    if kind == MODULE_KIND_CONSENSUS_CTRL {
        v.major == crate::consensus_ctrl::init::CURRENT_VERSION_MAJOR && v.minor
            <= crate::consensus_ctrl::init::CURRENT_VERSION_MINOR
    } else {
        v.major == crate::meta::init::CURRENT_VERSION_MAJOR && v.minor
            == crate::meta::init::CURRENT_VERSION_MINOR
    }
}

/// The version this node runs modules of kind `kind` at.
fn version_for(kind: ModuleKind) -> (r: ConsensusVersion)
    ensures
        r == supported_version(kind),
{
    if kind == MODULE_KIND_CONSENSUS_CTRL {
        ConsensusVersion::new(
            crate::consensus_ctrl::init::CURRENT_VERSION_MAJOR,
            crate::consensus_ctrl::init::CURRENT_VERSION_MINOR,
        )
    } else {
        ConsensusVersion::new(
            crate::meta::init::CURRENT_VERSION_MAJOR,
            crate::meta::init::CURRENT_VERSION_MINOR,
        )
    }
}

/// Whether the module under `id` keeps running for configuration `cfg`.
fn keeps_running(modules: &BTreeMap<ModuleId, ModuleWithConfig>, id: ModuleId, cfg: &ModuleConfig) -> (r:
    bool)
    ensures
        r == !needs_setup(modules@, id, *cfg),
{
    proof {
        lemma_lawful_keys();
    }
    match modules.get(&id) {
        Some(m) => m.config.same_as(cfg),
        None => false,
    }
}

/// The tables a running module works on.
pub open spec fn spec_tables_of(m: ModuleWithConfig) -> ModuleTables {
    match m.inner {
        AppModule::ConsensusCtrl(c) => ModuleTables::ConsensusCtrl(c.db),
        AppModule::Meta(x) => ModuleTables::Meta(x.db),
    }
}

/// Takes the tables of a module that stops running.
fn tables_of(m: ModuleWithConfig) -> (r: ModuleTables)
    ensures
        r == spec_tables_of(m),
{
    match m.inner {
        AppModule::ConsensusCtrl(c) => ModuleTables::ConsensusCtrl(c.db),
        AppModule::Meta(x) => ModuleTables::Meta(x.db),
    }
}

/// Setting up the modules `old`, with stored tables `stored`, for the
/// configurations `configs` stopped at the module identifier `f`, leaving
/// the modules `new` and stored tables `new_stored`: the configurations
/// below `f` were handled as `setup_applied` describes, and every other
/// module that ran was stopped, its tables kept with the stored ones.
pub open spec fn setup_stopped(
    old: Map<ModuleId, ModuleWithConfig>,
    stored: Map<ModuleId, ModuleTables>,
    configs: Map<ModuleId, ModuleConfig>,
    me: Option<PeerPubkey>,
    f: ModuleId,
    new: Map<ModuleId, ModuleWithConfig>,
    new_stored: Map<ModuleId, ModuleTables>,
) -> bool {
    &&& new.dom() == configs.dom().filter(|j: ModuleId| j < f)
    &&& forall|j: ModuleId| #[trigger]
        configs.contains_key(j) && j < f ==> if needs_setup(old, j, configs[j]) {
            created_module(new[j], configs[j], me, entry(old, j), entry(stored, j))
        } else {
            new[j] == old[j]
        }
    &&& new_stored == stored.remove_keys(
        configs.dom().filter(|j: ModuleId| j < f && needs_setup(old, j, configs[j])),
    ).union_prefer_right(
        Map::new(|j: ModuleId| old.contains_key(j) && f <= j, |j: ModuleId| spec_tables_of(old[j])),
    )
}

/// Setting up the modules `old` for `configs` failed and stopped at the
/// smallest module identifier whose module cannot be created.
pub open spec fn setup_stopped_at_failure(
    old: Map<ModuleId, ModuleWithConfig>,
    stored: Map<ModuleId, ModuleTables>,
    inits: Set<ModuleKind>,
    configs: Map<ModuleId, ModuleConfig>,
    me: Option<PeerPubkey>,
    new: Map<ModuleId, ModuleWithConfig>,
    new_stored: Map<ModuleId, ModuleTables>,
) -> bool {
    exists|id: ModuleId|
        {
            &&& #[trigger] setup_fails(old, inits, configs, id)
            &&& forall|j: ModuleId| #[trigger] setup_fails(old, inits, configs, j) ==> id <= j
            &&& setup_stopped(old, stored, configs, me, id, new, new_stored)
        }
}

/// Stops the modules `existing`, keeping their tables with the stored ones.
fn stop_modules(existing: BTreeMap<ModuleId, ModuleWithConfig>, stored: &mut BTreeMap<ModuleId, ModuleTables>)
    ensures
        final(stored)@ == old(stored)@.union_prefer_right(
            Map::new(
                |j: ModuleId| existing@.contains_key(j),
                |j: ModuleId| spec_tables_of(existing@[j]),
            ),
        ),
{
    proof {
        lemma_lawful_keys();
    }
    let ghost ex0 = existing@;
    let ghost s0 = stored@;
    let keys = sorted_keys(&existing);
    let mut existing = existing;
    let mut t: usize = 0;
    while t < keys.len()
        invariant
            0 <= t <= keys@.len(),
            keys@.to_set() == ex0.dom(),
            keys@.no_duplicates(),
            forall|j: ModuleId| #[trigger]
                existing@.contains_key(j) <==> (ex0.contains_key(j) && !keys@.take(t as int).contains(j)),
            forall|j: ModuleId| #[trigger] existing@.contains_key(j) ==> existing@[j] == ex0[j],
            stored@ == s0.union_prefer_right(
                Map::new(
                    |j: ModuleId| keys@.take(t as int).contains(j),
                    |j: ModuleId| spec_tables_of(ex0[j]),
                ),
            ),
        decreases keys@.len() - t,
    {
        let k = keys[t];
        proof {
            assert(keys@.to_set().contains(k));
            assert(!keys@.take(t as int).contains(k));
            assert forall|j: ModuleId| #[trigger] keys@.take(t as int + 1).contains(j) <==> (keys@.take(
                t as int,
            ).contains(j) || j == k) by {
                if j == k {
                    assert(keys@.take(t as int + 1)[t as int] == k);
                }
                if keys@.take(t as int).contains(j) {
                    let a = choose|a: int| 0 <= a < t && keys@.take(t as int)[a] == j;
                    assert(keys@.take(t as int + 1)[a] == j);
                }
                if keys@.take(t as int + 1).contains(j) && j != k {
                    let a = choose|a: int| 0 <= a < t + 1 && #[trigger] keys@.take(t as int + 1)[a] == j;
                    assert(keys@.take(t as int)[a] == j);
                }
            }
        }
        match existing.remove(&k) {
            Some(m) => {
                let tb = tables_of(m);
                stored.insert(k, tb);
            },
            None => {
                proof {
                    assert(false);
                }
            },
        }
        proof {
            assert(stored@ =~= s0.union_prefer_right(
                Map::new(
                    |j: ModuleId| keys@.take(t as int + 1).contains(j),
                    |j: ModuleId| spec_tables_of(ex0[j]),
                ),
            ));
        }
        t = t + 1;
    }
    proof {
        assert(keys@.take(t as int) =~= keys@);
        assert(Map::new(|j: ModuleId| keys@.take(t as int).contains(j), |j: ModuleId| spec_tables_of(ex0[j]))
            =~= Map::new(|j: ModuleId| ex0.contains_key(j), |j: ModuleId| spec_tables_of(ex0[j]))) by {
            assert forall|j: ModuleId| keys@.contains(j) <==> ex0.contains_key(j) by {
                if ex0.contains_key(j) {
                    assert(keys@.to_set().contains(j));
                }
            }
        }
    }
}

/// Sets up the running modules for the configurations `new_configs`, in
/// increasing identifier order: a module whose configuration is unchanged
/// keeps running, every other one is created afresh (over the tables of
/// the instance it replaces, or the tables stored for it). Returns whether
/// anything changed.
///
/// Fails at the smallest module identifier whose module cannot be created,
/// with that module's error: the modules below it stay as set up, and every
/// other module that was running is stopped, its tables kept with the
/// stored ones.
pub fn setup_modules_to_static(
    modules: &mut BTreeMap<ModuleId, ModuleWithConfig>,
    stored: &mut BTreeMap<ModuleId, ModuleTables>,
    new_configs: &BTreeMap<ModuleId, ModuleConfig>,
    modules_inits: &BTreeSet<ModuleKind>,
    peer_pubkey: Option<PeerPubkey>,
) -> (r: Result<bool, SetupError>)
    requires
        old(modules)@.dom().subset_of(new_configs@.dom()),
    ensures
        r is Err <==> exists|id: ModuleId|
            #[trigger] setup_fails(old(modules)@, modules_inits@, new_configs@, id),
        r matches Err(e) ==> exists|id: ModuleId|
            {
                &&& #[trigger] setup_fails(old(modules)@, modules_inits@, new_configs@, id)
                &&& forall|j: ModuleId|
                    #[trigger] setup_fails(old(modules)@, modules_inits@, new_configs@, j) ==> id
                        <= j
                &&& setup_error(modules_inits@, id, new_configs@[id]) == Some(e)
                &&& setup_stopped(
                    old(modules)@,
                    old(stored)@,
                    new_configs@,
                    peer_pubkey,
                    id,
                    final(modules)@,
                    final(stored)@,
                )
            },
        r matches Ok(changed) ==> {
            &&& setup_applied(
                old(modules)@,
                old(stored)@,
                new_configs@,
                peer_pubkey,
                final(modules)@,
                final(stored)@,
            )
            &&& changed == exists|id: ModuleId|
                new_configs@.contains_key(id) && #[trigger] needs_setup(
                    old(modules)@,
                    id,
                    new_configs@[id],
                )
        },
{
    proof {
        lemma_lawful_keys();
    }
    let ghost old_m = modules@;
    let ghost old_s = stored@;
    let ghost configs = new_configs@;
    let ghost inits = modules_inits@;
    let ids = sorted_keys(new_configs);
    proof {
        lemma_ascending_u32(ids@);
    }
    let mut existing: BTreeMap<ModuleId, ModuleWithConfig> = BTreeMap::new();
    std::mem::swap(&mut existing, modules);
    let mut changed = false;
    let mut i: usize = 0;
    while i < ids.len()
        invariant
            0 <= i <= ids@.len(),
            ids@.to_set() == configs.dom(),
            ids@.no_duplicates(),
            forall|a: int, b: int| 0 <= a < b < ids@.len() ==> ids@[a] < ids@[b],
            new_configs@ == configs,
            modules_inits@ == inits,
            old_m == old(modules)@,
            old_s == old(stored)@,
            old_m.dom().subset_of(configs.dom()),
            forall|k: int| 0 <= k < i ==> !setup_fails(old_m, inits, configs, #[trigger] ids@[k]),
            forall|j: ModuleId| #[trigger] modules@.contains_key(j) <==> ids@.take(i as int).contains(j),
            forall|j: ModuleId| #[trigger]
                ids@.take(i as int).contains(j) ==> if needs_setup(old_m, j, configs[j]) {
                    created_module(modules@[j], configs[j], peer_pubkey, entry(old_m, j), entry(old_s, j))
                } else {
                    modules@[j] == old_m[j]
                },
            forall|j: ModuleId| #[trigger]
                existing@.contains_key(j) <==> (old_m.contains_key(j) && !ids@.take(i as int).contains(j)),
            forall|j: ModuleId| #[trigger] existing@.contains_key(j) ==> existing@[j] == old_m[j],
            stored@ == old_s.remove_keys(
                Set::new(
                    |j: ModuleId|
                        ids@.take(i as int).contains(j) && needs_setup(old_m, j, configs[j]),
                ),
            ),
            changed == exists|k: int|
                0 <= k < i && #[trigger] needs_setup(old_m, ids@[k], configs[ids@[k]]),
        decreases ids@.len() - i,
    {
        let id = ids[i];
        proof {
            assert(ids@.to_set().contains(id));
            assert(!ids@.take(i as int).contains(id));
            assert forall|j: ModuleId| #[trigger] ids@.take(i as int + 1).contains(j) <==> (ids@.take(
                i as int,
            ).contains(j) || j == id) by {
                if j == id {
                    assert(ids@.take(i as int + 1)[i as int] == id);
                }
                if ids@.take(i as int).contains(j) {
                    let k = choose|k: int| 0 <= k < i && ids@.take(i as int)[k] == j;
                    assert(ids@.take(i as int + 1)[k] == j);
                }
                if ids@.take(i as int + 1).contains(j) && j != id {
                    let k = choose|k: int| 0 <= k < i + 1 && #[trigger] ids@.take(i as int + 1)[k] == j;
                    assert(ids@.take(i as int)[k] == j);
                }
            }
        }
        let ghost before_m = modules@;
        let cfg = match new_configs.get(&id) {
            Some(c) => c,
            None => {
                proof {
                    assert(false);
                }
                return Ok(false);
            },
        };
        proof {
            assert(existing@.contains_key(id) == old_m.contains_key(id));
            if old_m.contains_key(id) {
                assert(existing@[id] == old_m[id]);
            }
            assert(needs_setup(existing@, id, configs[id]) == needs_setup(old_m, id, configs[id]));
        }
        if !keeps_running(&existing, id, cfg) {
            let error = if !(modules_inits.contains(&cfg.kind) && (cfg.kind
                == MODULE_KIND_CONSENSUS_CTRL || cfg.kind == MODULE_KIND_META)) {
                Some(SetupError::MissingModuleInit { kind: cfg.kind })
            } else if !starts_at(cfg.kind, cfg.version) {
                Some(
                    SetupError::ModuleInitFailed {
                        module_id: id,
                        source: ModuleInitError::UnsupportedVersion {
                            requested: cfg.version,
                            supported: version_for(cfg.kind),
                        },
                    },
                )
            } else {
                None
            };
            match error {
                Some(e) => {
                    proof {
                        lemma_below_is_handled(ids@, i as int, configs);
                        assert(setup_fails(old_m, inits, configs, id));
                        assert forall|j: ModuleId| #[trigger]
                            setup_fails(old_m, inits, configs, j) implies id <= j by {
                            assert(ids@.to_set().contains(j));
                            let k = choose|k: int| 0 <= k < ids@.len() && ids@[k] == j;
                            if k < i {
                                assert(!setup_fails(old_m, inits, configs, ids@[k]));
                            }
                        }
                        assert(modules@.dom() =~= configs.dom().filter(|j: ModuleId| j < id));
                        assert(Set::new(
                            |j: ModuleId|
                                ids@.take(i as int).contains(j) && needs_setup(old_m, j, configs[j]),
                        ) =~= configs.dom().filter(|j: ModuleId| j < id && needs_setup(old_m, j, configs[j])));
                    }
                    let ghost ex = existing@;
                    stop_modules(existing, stored);
                    proof {
                        assert(Map::new(
                            |j: ModuleId| ex.contains_key(j),
                            |j: ModuleId| spec_tables_of(ex[j]),
                        ) =~= Map::new(
                            |j: ModuleId| old_m.contains_key(j) && id <= j,
                            |j: ModuleId| spec_tables_of(old_m[j]),
                        ));
                        assert forall|j: ModuleId| #[trigger]
                            configs.contains_key(j) && j < id implies if needs_setup(old_m, j, configs[j]) {
                            created_module(modules@[j], configs[j], peer_pubkey, entry(old_m, j), entry(old_s, j))
                        } else {
                            modules@[j] == old_m[j]
                        } by {
                            assert(ids@.take(i as int).contains(j));
                        }
                        assert(modules@.dom() == configs.dom().filter(|j: ModuleId| j < id));
                        assert(stored@ == old_s.remove_keys(
                            configs.dom().filter(|j: ModuleId| j < id && needs_setup(old_m, j, configs[j])),
                        ).union_prefer_right(
                            Map::new(|j: ModuleId| old_m.contains_key(j) && id <= j, |j: ModuleId| spec_tables_of(old_m[j])),
                        ));
                        assert(setup_stopped(old_m, old_s, configs, peer_pubkey, id, modules@, stored@));
                    }
                    return Err(e);
                },
                None => {},
            }
            proof {
                assert(!setup_fails(old_m, inits, configs, id));
            }
            changed = true;
            let prev = existing.remove(&id);
            let st = stored.remove(&id);
            proof {
                assert(prev == entry(old_m, id));
                assert(st == entry(old_s, id));
            }
            match create_module(cfg, peer_pubkey, prev, st) {
                Ok(m) => {
                    modules.insert(id, m);
                },
                Err(_) => {
                    proof {
                        assert(false);
                    }
                    return Ok(false);
                },
            }
            proof {
                assert(stored@ =~= old_s.remove_keys(
                    Set::new(
                        |j: ModuleId|
                            ids@.take(i as int + 1).contains(j) && needs_setup(old_m, j, configs[j]),
                    ),
                ));
            }
        } else {
            proof {
                assert(!needs_setup(old_m, id, configs[id]));
                assert(!setup_fails(old_m, inits, configs, id));
                assert(stored@ =~= old_s.remove_keys(
                    Set::new(
                        |j: ModuleId|
                            ids@.take(i as int + 1).contains(j) && needs_setup(old_m, j, configs[j]),
                    ),
                ));
            }
            match existing.remove(&id) {
                Some(m) => {
                    modules.insert(id, m);
                },
                None => {
                    proof {
                        assert(false);
                    }
                },
            }
        }
        proof {
            assert forall|j: ModuleId| #[trigger]
                ids@.take(i as int + 1).contains(j) implies if needs_setup(old_m, j, configs[j]) {
                created_module(modules@[j], configs[j], peer_pubkey, entry(old_m, j), entry(old_s, j))
            } else {
                modules@[j] == old_m[j]
            } by {
                if j != id {
                    assert(ids@.take(i as int).contains(j));
                }
            }
            assert(changed == exists|k: int|
                0 <= k < i + 1 && #[trigger] needs_setup(old_m, ids@[k], configs[ids@[k]])) by {
                if changed && !needs_setup(old_m, id, configs[id]) {
                    let k = choose|k: int|
                        0 <= k < i && #[trigger] needs_setup(old_m, ids@[k], configs[ids@[k]]);
                    assert(0 <= k < i + 1);
                }
                if !changed {
                    assert forall|k: int| 0 <= k < i + 1 implies !#[trigger] needs_setup(
                        old_m,
                        ids@[k],
                        configs[ids@[k]],
                    ) by {}
                }
            }
        }
        i = i + 1;
    }
    proof {
        assert(ids@.take(i as int) =~= ids@);
        assert forall|j: ModuleId| #[trigger] configs.contains_key(j) <==> ids@.contains(j) by {
            if configs.contains_key(j) {
                assert(ids@.to_set().contains(j));
            }
        }
        assert forall|j: ModuleId| !#[trigger] setup_fails(old_m, inits, configs, j) by {
            if configs.contains_key(j) {
                let k = choose|k: int| 0 <= k < ids@.len() && ids@[k] == j;
                assert(!setup_fails(old_m, inits, configs, ids@[k]));
            }
        }
        assert(modules@.dom() =~= configs.dom());
        assert(Set::new(|j: ModuleId| ids@.take(i as int).contains(j) && needs_setup(old_m, j, configs[j]))
            =~= configs.dom().filter(|j: ModuleId| needs_setup(old_m, j, configs[j])));
        assert(changed == exists|j: ModuleId|
            configs.contains_key(j) && #[trigger] needs_setup(old_m, j, configs[j])) by {
            if changed {
                let k = choose|k: int|
                    0 <= k < i && #[trigger] needs_setup(old_m, ids@[k], configs[ids@[k]]);
                assert(configs.contains_key(ids@[k]));
            } else {
                assert forall|j: ModuleId|
                    configs.contains_key(j) implies !#[trigger] needs_setup(old_m, j, configs[j]) by {
                    let k = choose|k: int| 0 <= k < ids@.len() && ids@[k] == j;
                    assert(!needs_setup(old_m, ids@[k], configs[ids@[k]]));
                }
            }
        }
    }
    Ok(changed)
}

/// In an increasing list of the configured identifiers, those before
/// position `i` are exactly the configured identifiers below the one at `i`.
proof fn lemma_below_is_handled(ids: Seq<ModuleId>, i: int, configs: Map<ModuleId, ModuleConfig>)
    requires
        0 <= i < ids.len(),
        ids.to_set() == configs.dom(),
        forall|a: int, b: int| 0 <= a < b < ids.len() ==> ids[a] < ids[b],
    ensures
        forall|j: ModuleId| #[trigger] ids.take(i).contains(j) <==> (configs.contains_key(j) && j < ids[i]),
{
    assert forall|j: ModuleId| #[trigger] ids.take(i).contains(j) <==> (configs.contains_key(j) && j < ids[i]) by {
        if ids.take(i).contains(j) {
            let k = choose|k: int| 0 <= k < i && ids.take(i)[k] == j;
            assert(ids[k] == j);
            assert(ids.to_set().contains(j));
        }
        if configs.contains_key(j) && j < ids[i] {
            assert(ids.to_set().contains(j));
            let k = choose|k: int| 0 <= k < ids.len() && ids[k] == j;
            if k >= i {
                if k > i {
                    assert(ids[i] < ids[k]);
                }
            }
            assert(k < i);
            assert(ids.take(i)[k] == j);
        }
    }
}

/// The consensus control module runs under its fixed identifier.
pub open spec fn ctrl_running(modules: Map<ModuleId, ModuleWithConfig>) -> bool {
    modules.contains_key(CONSENSUS_CTRL_MODULE_ID) && modules[CONSENSUS_CTRL_MODULE_ID].inner is ConsensusCtrl
}

/// The running consensus control module.
pub open spec fn ctrl_module(modules: Map<ModuleId, ModuleWithConfig>) -> AppConsensusModule {
    modules[CONSENSUS_CTRL_MODULE_ID].inner->ConsensusCtrl_0
}

/// The consensus control tables stored for its fixed identifier, if any.
pub open spec fn stored_ctrl_tables(stored: Map<ModuleId, ModuleTables>) -> Option<AppConsensusTables> {
    match entry(stored, CONSENSUS_CTRL_MODULE_ID) {
        Some(ModuleTables::ConsensusCtrl(t)) => Some(t),
        _ => None,
    }
}

/// The peers recorded in the consensus control tables stored for its fixed
/// identifier, if any.
pub open spec fn stored_ctrl_peers(stored: Map<ModuleId, ModuleTables>) -> Set<PeerPubkey> {
    match stored_ctrl_tables(stored) {
        Some(t) => t.peers@,
        None => Set::empty(),
    }
}

/// The module configurations recorded in the consensus control tables
/// stored for its fixed identifier, if any.
pub open spec fn stored_ctrl_configs(stored: Map<ModuleId, ModuleTables>) -> Map<ModuleId, ModuleConfig> {
    match stored_ctrl_tables(stored) {
        Some(t) => t.modules_configs@,
        None => Map::empty(),
    }
}

impl NodeApp {
    /// The running consensus control module, if it runs.
    fn consensus_ctrl_module(&self) -> (r: Option<&AppConsensusModule>)
        ensures
            ctrl_running(self.modules@) ==> (r matches Some(m) && *m == ctrl_module(self.modules@)),
    {
        proof {
            lemma_lawful_keys();
        }
        match self.modules.get(&CONSENSUS_CTRL_MODULE_ID) {
            Some(ModuleWithConfig { inner: AppModule::ConsensusCtrl(m), .. }) => Some(m),
            _ => None,
        }
    }

    /// Sets up the running modules for `new_modules_configs`; see
    /// [`setup_modules_to_static`].
    pub fn setup_modules_to(&mut self, new_modules_configs: &BTreeMap<ModuleId, ModuleConfig>) -> (r:
        Result<bool, SetupError>)
        requires
            old(self).modules@.dom().subset_of(new_modules_configs@.dom()),
        ensures
            r is Err <==> exists|id: ModuleId|
                #[trigger] setup_fails(old(self).modules@, old(self).modules_inits@, new_modules_configs@, id),
            r is Err ==> setup_stopped_at_failure(
                old(self).modules@,
                old(self).stored_tables@,
                old(self).modules_inits@,
                new_modules_configs@,
                old(self).peer_pubkey,
                final(self).modules@,
                final(self).stored_tables@,
            ),
            r matches Ok(changed) ==> {
                &&& setup_applied(
                    old(self).modules@,
                    old(self).stored_tables@,
                    new_modules_configs@,
                    old(self).peer_pubkey,
                    final(self).modules@,
                    final(self).stored_tables@,
                )
                &&& changed == exists|id: ModuleId|
                    new_modules_configs@.contains_key(id) && #[trigger] needs_setup(
                        old(self).modules@,
                        id,
                        new_modules_configs@[id],
                    )
            },
            final(self).peer_pubkey == old(self).peer_pubkey,
            final(self).modules_inits == old(self).modules_inits,
            final(self).cur_round == old(self).cur_round,
            final(self).cur_idx == old(self).cur_idx,
    {
        setup_modules_to_static(
            &mut self.modules,
            &mut self.stored_tables,
            new_modules_configs,
            &self.modules_inits,
            self.peer_pubkey,
        )
    }

    /// Prepares the consensus control module's tables on start and returns
    /// the module configurations to start from: the recorded ones if the
    /// tables were bootstrapped before, else the tables are bootstrapped
    /// for the initial peer set `peers` and the only configuration is the
    /// consensus control module's own.
    pub fn init_consensus_ctrl(&mut self, peers: &PeerSet) -> (r: Result<
        BTreeMap<ModuleId, ModuleConfig>,
        SetupError,
    >)
        requires
            old(self).modules@.is_empty(),
        ensures
            !old(self).modules_inits@.contains(MODULE_KIND_CONSENSUS_CTRL) ==> r == Err::<
                BTreeMap<ModuleId, ModuleConfig>,
                _,
            >(SetupError::MissingModuleInit { kind: MODULE_KIND_CONSENSUS_CTRL })
                && *final(self) == *old(self),
            old(self).modules_inits@.contains(MODULE_KIND_CONSENSUS_CTRL) ==> {
                &&& r is Ok
                &&& final(self).stored_tables@.dom() == old(self).stored_tables@.dom().insert(
                    CONSENSUS_CTRL_MODULE_ID,
                )
                &&& forall|id: ModuleId|
                    id != CONSENSUS_CTRL_MODULE_ID && #[trigger] old(
                        self,
                    ).stored_tables@.contains_key(id) ==> final(self).stored_tables@[id] == old(
                        self,
                    ).stored_tables@[id]
                &&& final(self).stored_tables@[CONSENSUS_CTRL_MODULE_ID] matches ModuleTables::ConsensusCtrl(
                    t,
                ) && match stored_ctrl_tables(old(self).stored_tables@) {
                    Some(old_t) if old_t.self_version is Some => {
                        &&& t == old_t
                        &&& r->Ok_0@ == old_t.modules_configs@
                    },
                    _ => {
                        &&& t.self_version is Some
                        &&& t.peers@ == stored_ctrl_peers(old(self).stored_tables@).union(peers@)
                        &&& t.modules_configs@.dom() == stored_ctrl_configs(
                            old(self).stored_tables@,
                        ).dom().insert(CONSENSUS_CTRL_MODULE_ID)
                        &&& forall|m: ModuleId|
                            m != CONSENSUS_CTRL_MODULE_ID && #[trigger] stored_ctrl_configs(
                                old(self).stored_tables@,
                            ).contains_key(m) ==> t.modules_configs@[m] == stored_ctrl_configs(
                                old(self).stored_tables@,
                            )[m]
                        &&& r->Ok_0@ == t.modules_configs@
                        &&& t.modules_configs@[CONSENSUS_CTRL_MODULE_ID].kind
                            == MODULE_KIND_CONSENSUS_CTRL
                        &&& t.modules_configs@[CONSENSUS_CTRL_MODULE_ID].version == ConsensusVersion::new(
                            crate::consensus_ctrl::init::CURRENT_VERSION_MAJOR,
                            crate::consensus_ctrl::init::CURRENT_VERSION_MINOR,
                        )
                    },
                }
                &&& final(self).modules == old(self).modules
                &&& final(self).peer_pubkey == old(self).peer_pubkey
                &&& final(self).modules_inits == old(self).modules_inits
                &&& final(self).cur_round == old(self).cur_round
                &&& final(self).cur_idx == old(self).cur_idx
            },
    {
        proof {
            lemma_lawful_keys();
        }
        if !self.modules_inits.contains(&MODULE_KIND_CONSENSUS_CTRL) {
            return Err(SetupError::MissingModuleInit { kind: MODULE_KIND_CONSENSUS_CTRL });
        }
        let init = AppConsensusModuleInit;
        let ghost old_stored = self.stored_tables@;
        let mut tables = match self.stored_tables.remove(&CONSENSUS_CTRL_MODULE_ID) {
            Some(ModuleTables::ConsensusCtrl(t)) => t,
            _ => AppConsensusModule::init_db_tx(),
        };
        let configs = if init.is_bootstrapped(&tables) {
            init.get_modules_configs(&tables)
        } else {
            let config = init.bootstrap_consensus(&mut tables, CONSENSUS_CTRL_MODULE_ID, peers);
            init.get_modules_configs(&tables)
        };
        self.stored_tables.insert(CONSENSUS_CTRL_MODULE_ID, ModuleTables::ConsensusCtrl(tables));
        proof {
            assert(self.stored_tables@.dom() =~= old_stored.dom().insert(CONSENSUS_CTRL_MODULE_ID));
        }
        Ok(configs)
    }

    /// Fills the caches of the peer set and of the module configurations
    /// that were dropped, from the consensus control module; after the
    /// configurations are reloaded the running modules are set up for them.
    pub fn reload_invalidated_copies(
        &mut self,
        peer_set: &mut Option<PeerSet>,
        modules_configs: &mut Option<BTreeMap<ModuleId, ModuleConfig>>,
    ) -> (r: Result<(), SetupError>)
        requires
            ctrl_running(old(self).modules@),
            *old(modules_configs) is None ==> old(self).modules@.dom().subset_of(
                ctrl_module(old(self).modules@).db.modules_configs@.dom(),
            ),
        ensures
            match *old(peer_set) {
                Some(p) => *final(peer_set) == Some(p),
                None => *final(peer_set) matches Some(p) && p@ == ctrl_module(
                    old(self).modules@,
                ).db.peers@,
            },
            match *old(modules_configs) {
                Some(c) => {
                    &&& r is Ok
                    &&& *final(modules_configs) == Some(c)
                    &&& *final(self) == *old(self)
                },
                None => {
                    let configs = ctrl_module(old(self).modules@).db.modules_configs@;
                    &&& *final(modules_configs) matches Some(c) && c@ == configs
                    &&& r is Err <==> exists|id: ModuleId|
                        #[trigger] setup_fails(old(self).modules@, old(self).modules_inits@, configs, id)
                    &&& r is Err ==> setup_stopped_at_failure(
                        old(self).modules@,
                        old(self).stored_tables@,
                        old(self).modules_inits@,
                        configs,
                        old(self).peer_pubkey,
                        final(self).modules@,
                        final(self).stored_tables@,
                    )
                    &&& r is Ok ==> setup_applied(
                        old(self).modules@,
                        old(self).stored_tables@,
                        configs,
                        old(self).peer_pubkey,
                        final(self).modules@,
                        final(self).stored_tables@,
                    )
                    &&& final(self).peer_pubkey == old(self).peer_pubkey
                    &&& final(self).modules_inits == old(self).modules_inits
                    &&& final(self).cur_round == old(self).cur_round
                    &&& final(self).cur_idx == old(self).cur_idx
                },
            },
    {
        let ctrl = match self.consensus_ctrl_module() {
            Some(m) => m,
            None => {
                proof {
                    assert(false);
                }
                return Ok(());
            },
        };
        if peer_set.is_none() {
            *peer_set = Some(ctrl.get_peer_set());
        }
        if modules_configs.is_none() {
            let configs = ctrl.get_modules_configs();
            let res = self.setup_modules_to(&configs);
            *modules_configs = Some(configs);
            match res {
                Ok(_) => Ok(()),
                Err(e) => Err(e),
            }
        } else {
            Ok(())
        }
    }

    /// Queues the consensus control module's votes for every module to run
    /// at the newest minor version this node supports for its major version.
    pub fn record_supported_modules_versions(&mut self)
        requires
            ctrl_running(old(self).modules@),
            forall|m: ModuleId| #[trigger]
                ctrl_module(old(self).modules@).db.modules_configs@.contains_key(m) ==> {
                    let c = ctrl_module(old(self).modules@).db.modules_configs@[m];
                    &&& old(self).modules_inits@.contains(c.kind)
                    &&& (c.kind == MODULE_KIND_CONSENSUS_CTRL || c.kind == MODULE_KIND_META)
                    &&& c.version.major == supported_version(c.kind).major
                },
        ensures
            ctrl_running(final(self).modules@),
            final(self).modules@.dom() == old(self).modules@.dom(),
            forall|id: ModuleId|
                id != CONSENSUS_CTRL_MODULE_ID && #[trigger] old(self).modules@.contains_key(id)
                    ==> final(self).modules@[id] == old(self).modules@[id],
            final(self).modules@[CONSENSUS_CTRL_MODULE_ID].config == old(
                self,
            ).modules@[CONSENSUS_CTRL_MODULE_ID].config,
            ({
                let o = ctrl_module(old(self).modules@);
                let n = ctrl_module(final(self).modules@);
                &&& n.db.pending_modules_versions_votes@
                    == o.db.pending_modules_versions_votes@.union_prefer_right(
                    Map::new(
                        |m: ModuleId| o.db.modules_configs@.contains_key(m),
                        |m: ModuleId| supported_version(o.db.modules_configs@[m].kind).minor,
                    ),
                )
                &&& n.db == (AppConsensusTables {
                    pending_modules_versions_votes: n.db.pending_modules_versions_votes,
                    ..o.db
                })
                &&& n.version == o.version
                &&& n.peer_pubkey == o.peer_pubkey
                &&& n.proposed_citems == o.proposed_citems
            }),
            final(self).peer_pubkey == old(self).peer_pubkey,
            final(self).modules_inits == old(self).modules_inits,
            final(self).stored_tables == old(self).stored_tables,
            final(self).cur_round == old(self).cur_round,
            final(self).cur_idx == old(self).cur_idx,
    {
        proof {
            lemma_lawful_keys();
        }
        let mut supported: BTreeMap<ModuleKind, ModuleSupportedConsensusVersions> = BTreeMap::new();
        if self.modules_inits.contains(&MODULE_KIND_CONSENSUS_CTRL) {
            supported.insert(
                MODULE_KIND_CONSENSUS_CTRL,
                AppConsensusModuleInit.supported_versions(),
            );
        }
        if self.modules_inits.contains(&MODULE_KIND_META) {
            supported.insert(MODULE_KIND_META, MetaModuleInit.supported_versions());
        }
        let ghost before = self.modules@;
        let mut entry = match self.modules.remove(&CONSENSUS_CTRL_MODULE_ID) {
            Some(e) => e,
            None => {
                proof {
                    assert(false);
                }
                return;
            },
        };
        match &mut entry.inner {
            AppModule::ConsensusCtrl(m) => {
                m.record_module_init_versions(&supported);
                proof {
                    assert(Map::new(
                        |x: ModuleId| old(self).modules@[CONSENSUS_CTRL_MODULE_ID].inner->ConsensusCtrl_0.db.modules_configs@.contains_key(x),
                        |x: ModuleId| newest_supported_minor(supported@, old(self).modules@[CONSENSUS_CTRL_MODULE_ID].inner->ConsensusCtrl_0.db.modules_configs@[x]),
                    ) =~= Map::new(
                        |x: ModuleId| old(self).modules@[CONSENSUS_CTRL_MODULE_ID].inner->ConsensusCtrl_0.db.modules_configs@.contains_key(x),
                        |x: ModuleId| supported_version(old(self).modules@[CONSENSUS_CTRL_MODULE_ID].inner->ConsensusCtrl_0.db.modules_configs@[x].kind).minor,
                    ));
                }
            },
            AppModule::Meta(_) => {
                proof {
                    assert(false);
                }
            },
        }
        self.modules.insert(CONSENSUS_CTRL_MODULE_ID, entry);
        proof {
            assert(self.modules@.dom() =~= before.dom());
        }
    }
}

} // verus!
