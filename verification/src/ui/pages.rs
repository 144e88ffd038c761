//! What the web UI's pages show, apart from the markup.
use vstd::prelude::*;
use std::collections::BTreeMap;

use super::forms::ModuleKindVersion;
use crate::keys::{lemma_ascending_u32, lemma_lawful_keys, sorted_keys};
use crate::types::{
    ascending_ids, lemma_ascending_ids_unique, ConsensusVersion, ConsensusVersionMajor,
    ConsensusVersionMinor, ModuleConfig, ModuleId,
    ModuleKind, PeerSet, MODULE_KIND_CONSENSUS_CTRL, MODULE_KIND_META,
};
use crate::node_app::app::CONSENSUS_CTRL_MODULE_ID;
use crate::node_app::hosted::{AppModule, ModuleWithConfig};

verus! {

/// Human readable name of the module kinds this node knows.
pub fn get_module_kind_name(kind: ModuleKind) -> (r: Option<&'static str>)
    ensures
        kind == MODULE_KIND_CONSENSUS_CTRL ==> (r matches Some(n) && n@ == "App Consensus"@),
        kind == MODULE_KIND_META ==> (r matches Some(n) && n@ == "Meta"@),
        kind != MODULE_KIND_CONSENSUS_CTRL && kind != MODULE_KIND_META ==> r is None,
{
    if kind == MODULE_KIND_CONSENSUS_CTRL {
        Some("App Consensus")
    } else if kind == MODULE_KIND_META {
        Some("Meta")
    } else {
        None
    }
}

/// Which entry of the navigation bar is active.
#[derive(PartialEq, Eq, Structural, Clone, Copy, Debug)]
pub enum NavbarSelector {
    Consensus,
    General,
    Explorer,
    Module(ModuleId),
}

impl NavbarSelector {
    /// The consensus entry is active.
    pub fn is_consensus(self) -> (r: bool)
        ensures
            r == (self is Consensus),
    {
        match self {
            NavbarSelector::Consensus => true,
            _ => false,
        }
    }

    /// Some module's entry is active.
    pub fn is_module(self) -> (r: bool)
        ensures
            r == (self is Module),
    {
        match self {
            NavbarSelector::Module(_) => true,
            _ => false,
        }
    }

    /// The entry of module `module_id` is active.
    pub fn is_module_id(self, module_id: ModuleId) -> (r: bool)
        ensures
            r == (self == NavbarSelector::Module(module_id)),
    {
        match self {
            NavbarSelector::Module(id) => id == module_id,
            _ => false,
        }
    }
}

/// What the page needs to know of a kind of module this node can run.
pub struct ModuleInitInfo {
    pub kind: ModuleKind,
    /// At most one module of the kind may exist.
    pub singleton: bool,
    /// Each supported major version with its newest supported minor one.
    pub supported_versions: BTreeMap<ConsensusVersionMajor, ConsensusVersionMinor>,
}

/// A module kind the page offers to add, at its newest supported version.
#[derive(PartialEq, Eq, Structural, Clone, Copy, Debug)]
pub struct AddModuleOption {
    pub kind_version: ModuleKindVersion,
}

/// Some module of kind `kind` is configured in `existing`.
pub open spec fn kind_exists(existing: Map<ModuleId, ModuleConfig>, kind: ModuleKind) -> bool {
    exists|id: ModuleId| existing.contains_key(id) && #[trigger] existing[id].kind == kind
}

/// `major` is the newest major version in `versions`.
pub open spec fn is_newest_major(
    versions: Map<ConsensusVersionMajor, ConsensusVersionMinor>,
    major: ConsensusVersionMajor,
) -> bool {
    versions.contains_key(major) && forall|m: ConsensusVersionMajor|
        #[trigger] versions.contains_key(m) ==> m <= major
}

/// The newest supported version of a kind of module, if any.
pub open spec fn newest_version(versions: Map<ConsensusVersionMajor, ConsensusVersionMinor>) -> Option<
    ConsensusVersion,
> {
    if exists|major: ConsensusVersionMajor| is_newest_major(versions, major) {
        let major = choose|major: ConsensusVersionMajor| is_newest_major(versions, major);
        Some(ConsensusVersion { major, minor: versions[major] })
    } else {
        None
    }
}

/// The option offered for `info`, if any: kinds of which at most one may
/// exist are not offered once one exists, nor kinds without a supported
/// version.
pub open spec fn add_module_option(info: ModuleInitInfo, existing: Map<ModuleId, ModuleConfig>) -> Option<
    AddModuleOption,
> {
    if info.singleton && kind_exists(existing, info.kind) {
        None
    } else {
        match newest_version(info.supported_versions@) {
            Some(v) => Some(
                AddModuleOption { kind_version: ModuleKindVersion { kind: info.kind, version: v } },
            ),
            None => None,
        }
    }
}

/// The options offered for `infos`, in order.
pub open spec fn add_module_options_spec(
    infos: Seq<ModuleInitInfo>,
    existing: Map<ModuleId, ModuleConfig>,
) -> Seq<AddModuleOption>
    decreases infos.len(),
{
    if infos.len() == 0 {
        seq![]
    } else {
        let prev = add_module_options_spec(infos.drop_last(), existing);
        match add_module_option(infos.last(), existing) {
            Some(o) => prev.push(o),
            None => prev,
        }
    }
}

/// Whether some module of kind `kind` is configured.
fn kind_configured(existing: &BTreeMap<ModuleId, ModuleConfig>, kind: ModuleKind) -> (r: bool)
    ensures
        r == kind_exists(existing@, kind),
{
    proof {
        lemma_lawful_keys();
    }
    let ids = sorted_keys(existing);
    let mut i: usize = 0;
    while i < ids.len()
        invariant
            0 <= i <= ids@.len(),
            ids@.to_set() == existing@.dom(),
            forall|k: int| 0 <= k < i ==> existing@[#[trigger] ids@[k]].kind != kind,
        decreases ids@.len() - i,
    {
        let id = ids[i];
        proof {
            assert(ids@.to_set().contains(id));
        }
        match existing.get(&id) {
            Some(c) => {
                if c.kind == kind {
                    return true;
                }
            },
            None => {},
        }
        i = i + 1;
    }
    proof {
        if kind_exists(existing@, kind) {
            let id = choose|id: ModuleId| existing@.contains_key(id) && #[trigger] existing@[id].kind
                == kind;
            assert(ids@.to_set().contains(id));
            let k = choose|k: int| 0 <= k < ids@.len() && ids@[k] == id;
            assert(existing@[ids@[k]].kind != kind);
        }
    }
    false
}

/// The newest supported version in `versions`, if any.
fn newest_supported(versions: &BTreeMap<ConsensusVersionMajor, ConsensusVersionMinor>) -> (r: Option<
    ConsensusVersion,
>)
    ensures
        r == newest_version(versions@),
{
    proof {
        lemma_lawful_keys();
    }
    let majors = sorted_keys(versions);
    if majors.len() == 0 {
        proof {
            assert forall|major: ConsensusVersionMajor| !is_newest_major(versions@, major) by {
                if versions@.contains_key(major) {
                    assert(majors@.to_set().contains(major));
                }
            }
        }
        return None;
    }
    let major = majors[majors.len() - 1];
    proof {
        crate::keys::lemma_ascending_u16(majors@);
        assert(majors@.to_set().contains(major));
        assert forall|m: ConsensusVersionMajor| #[trigger] versions@.contains_key(m) implies m
            <= major by {
            assert(majors@.to_set().contains(m));
            let k = choose|k: int| 0 <= k < majors@.len() && majors@[k] == m;
            if k < majors@.len() - 1 {
                assert(majors@[k] < majors@[majors@.len() - 1]);
            }
        }
        assert(is_newest_major(versions@, major));
        let chosen = choose|m: ConsensusVersionMajor| is_newest_major(versions@, m);
        assert(chosen <= major && major <= chosen);
    }
    let minor = match versions.get(&major) {
        Some(v) => *v,
        None => {
            proof {
                assert(false);
            }
            0
        },
    };
    Some(ConsensusVersion { major, minor })
}

/// The options `add_module_options` gives for the module inits `inits` and
/// the configured modules `existing`.
pub open spec fn offered_options(
    inits: Map<ModuleKind, ModuleInitInfo>,
    existing: Map<ModuleId, ModuleConfig>,
) -> Seq<AddModuleOption> {
    add_module_options_spec(ascending_ids(inits.dom()).map_values(|k: ModuleKind| inits[k]), existing)
}

/// Each option offered for `infos` is the option of one of them, and the
/// option of each of them, if it has one, is offered.
proof fn lemma_options_come_from_infos(infos: Seq<ModuleInitInfo>, existing: Map<ModuleId, ModuleConfig>)
    ensures
        forall|j: int|
            0 <= j < infos.len() && #[trigger] add_module_option(infos[j], existing) is Some
                ==> add_module_options_spec(infos, existing).contains(
                add_module_option(infos[j], existing)->Some_0,
            ),
        forall|i: int| #![trigger add_module_options_spec(infos, existing)[i]]
            0 <= i < add_module_options_spec(infos, existing).len() ==> exists|j: int|
                0 <= j < infos.len() && #[trigger] add_module_option(infos[j], existing) == Some(
                    add_module_options_spec(infos, existing)[i],
                ),
    decreases infos.len(),
{
    if infos.len() > 0 {
        let init = infos.drop_last();
        lemma_options_come_from_infos(init, existing);
        let prev = add_module_options_spec(init, existing);
        let all = add_module_options_spec(infos, existing);
        assert forall|j: int|
            0 <= j < infos.len() && #[trigger] add_module_option(infos[j], existing) is Some implies all.contains(
            add_module_option(infos[j], existing)->Some_0,
        ) by {
            if j < infos.len() - 1 {
                assert(infos[j] == init[j]);
                let o = add_module_option(init[j], existing)->Some_0;
                assert(prev.contains(o));
                let x = choose|x: int| 0 <= x < prev.len() && prev[x] == o;
                assert(all[x] == o);
            } else {
                assert(all[all.len() - 1] == add_module_option(infos[j], existing)->Some_0);
            }
        }
        assert forall|i: int| #![trigger all[i]] 0 <= i < all.len() implies exists|j: int|
            0 <= j < infos.len() && #[trigger] add_module_option(infos[j], existing) == Some(all[i]) by {
            if i < prev.len() {
                assert(all[i] == prev[i]);
                let j = choose|j: int|
                    0 <= j < init.len() && #[trigger] add_module_option(init[j], existing) == Some(prev[i]);
                assert(infos[j] == init[j]);
            } else {
                assert(add_module_option(infos[infos.len() - 1], existing) == Some(all[i]));
            }
        }
    }
}

/// A finite, non-empty set of supported versions has a newest one.
proof fn lemma_newest_version_exists(versions: Map<ConsensusVersionMajor, ConsensusVersionMinor>, major: ConsensusVersionMajor)
    requires
        versions.dom().finite(),
        versions.contains_key(major),
    ensures
        newest_version(versions) is Some,
{
    let leq = |a: ConsensusVersionMajor, b: ConsensusVersionMajor| a <= b;
    assert(vstd::relations::total_ordering(leq)) by {
        assert(vstd::relations::reflexive(leq));
        assert(vstd::relations::antisymmetric(leq));
        assert(vstd::relations::transitive(leq));
        assert(vstd::relations::strongly_connected(leq));
    }
    let s = versions.dom();
    assert(s.len() > 0) by {
        if s.len() == 0 {
            s.lemma_len0_is_empty();
            assert(s.contains(major));
        }
    }
    s.find_unique_maximal_ensures(leq);
    let mx = s.find_unique_maximal(leq);
    assert forall|m: ConsensusVersionMajor| #[trigger] versions.contains_key(m) implies m <= mx by {
        if !leq(m, mx) {
            assert(leq(mx, m));
        }
    }
    assert(is_newest_major(versions, mx));
}

/// This node can run a module of kind `kind`, and adding one is allowed:
/// unless at most one module of the kind may exist and one is configured.
pub open spec fn may_be_added(
    inits: Map<ModuleKind, ModuleInitInfo>,
    existing: Map<ModuleId, ModuleConfig>,
    kind: ModuleKind,
) -> bool {
    exists|k: ModuleKind|
        #[trigger] inits.contains_key(k) && inits[k].kind == kind && !(inits[k].singleton && exists|
            id: ModuleId,
        | existing.contains_key(id) && #[trigger] existing[id].kind == inits[k].kind)
}

/// The page offers every kind this node can run, at a supported version,
/// unless at most one module of the kind may exist and one is configured
/// already; and it offers nothing else.
pub proof fn lemma_add_module_options_offer(
    inits: Map<ModuleKind, ModuleInitInfo>,
    existing: Map<ModuleId, ModuleConfig>,
)
    requires
        inits.dom().finite(),
    ensures
        forall|k: ModuleKind, major: ConsensusVersionMajor|
            #![trigger inits[k].supported_versions@.contains_key(major)]
            inits.contains_key(k) && inits[k].supported_versions@.contains_key(major) && !(
            inits[k].singleton && exists|id: ModuleId|
                existing.contains_key(id) && #[trigger] existing[id].kind == inits[k].kind) ==> exists|
                i: int,
            |
                0 <= i < offered_options(inits, existing).len() && #[trigger] offered_options(
                    inits,
                    existing,
                )[i].kind_version.kind == inits[k].kind,
        forall|i: int| #![trigger offered_options(inits, existing)[i]]
            0 <= i < offered_options(inits, existing).len() ==> may_be_added(
                inits,
                existing,
                offered_options(inits, existing)[i].kind_version.kind,
            ),
{
    broadcast use vstd::std_specs::btree::group_btree_axioms;

    crate::types::lemma_ascending_ids_lists(inits.dom());
    let q = ascending_ids(inits.dom());
    let infos = q.map_values(|k: ModuleKind| inits[k]);
    let opts = offered_options(inits, existing);
    lemma_options_come_from_infos(infos, existing);
    assert forall|k: ModuleKind, major: ConsensusVersionMajor|
        #![trigger inits[k].supported_versions@.contains_key(major)]
        inits.contains_key(k) && inits[k].supported_versions@.contains_key(major) && !(
        inits[k].singleton && exists|id: ModuleId|
            existing.contains_key(id) && #[trigger] existing[id].kind == inits[k].kind) implies exists|
            i: int,
        | 0 <= i < opts.len() && #[trigger] opts[i].kind_version.kind == inits[k].kind by {
        assert(q.to_set().contains(k));
        let j = choose|j: int| 0 <= j < q.len() && q[j] == k;
        assert(infos[j] == inits[k]);
        lemma_newest_version_exists(inits[k].supported_versions@, major);
        assert(!(inits[k].singleton && kind_exists(existing, inits[k].kind)));
        assert(add_module_option(infos[j], existing) is Some);
        let o = add_module_option(infos[j], existing)->Some_0;
        assert(opts.contains(o));
        let i = choose|i: int| 0 <= i < opts.len() && opts[i] == o;
        assert(opts[i].kind_version.kind == inits[k].kind);
    }
    assert forall|i: int| #![trigger opts[i]] 0 <= i < opts.len() implies may_be_added(
        inits,
        existing,
        opts[i].kind_version.kind,
    ) by {
        let j = choose|j: int| 0 <= j < infos.len() && #[trigger] add_module_option(infos[j], existing) == Some(opts[i]);
        let k = q[j];
        assert(q.to_set().contains(k));
        assert(infos[j] == inits[k]);
        assert(inits.contains_key(k));
        assert(add_module_option(inits[k], existing) == Some(opts[i]));
        assert(!(inits[k].singleton && kind_exists(existing, inits[k].kind)));
        assert(inits[k].kind == opts[i].kind_version.kind);
        assert(!(inits[k].singleton && exists|id: ModuleId|
            existing.contains_key(id) && #[trigger] existing[id].kind == inits[k].kind));
    }
}

/// The module kinds the page offers to add, each at its newest supported
/// version, in increasing order of the kinds this node can run.
pub fn add_module_options(
    inits: &BTreeMap<ModuleKind, ModuleInitInfo>,
    existing: &BTreeMap<ModuleId, ModuleConfig>,
) -> (r: Vec<AddModuleOption>)
    ensures
        r@ == add_module_options_spec(
            ascending_ids(inits@.dom()).map_values(|k: ModuleKind| inits@[k]),
            existing@,
        ),
{
    proof {
        lemma_lawful_keys();
    }
    let kinds = sorted_keys(inits);
    proof {
        lemma_ascending_u32(kinds@);
        lemma_ascending_ids_unique(kinds@, inits@.dom());
    }
    let ghost infos = kinds@.map_values(|k: ModuleKind| inits@[k]);
    let mut r: Vec<AddModuleOption> = Vec::new();
    let mut i: usize = 0;
    while i < kinds.len()
        invariant
            0 <= i <= kinds@.len(),
            kinds@.to_set() == inits@.dom(),
            infos == kinds@.map_values(|k: ModuleKind| inits@[k]),
            r@ == add_module_options_spec(infos.take(i as int), existing@),
        decreases kinds@.len() - i,
    {
        let kind = kinds[i];
        proof {
            assert(kinds@.to_set().contains(kind));
            assert(infos.take(i as int + 1).drop_last() =~= infos.take(i as int));
            assert(infos.take(i as int + 1).last() == inits@[kind]);
        }
        let info = match inits.get(&kind) {
            Some(info) => info,
            None => {
                proof {
                    assert(false);
                }
                return r;
            },
        };
        let skip = info.singleton && kind_configured(existing, info.kind);
        if !skip {
            match newest_supported(&info.supported_versions) {
                Some(v) => {
                    r.push(
                        AddModuleOption {
                            kind_version: ModuleKindVersion { kind: info.kind, version: v },
                        },
                    );
                },
                None => {},
            }
        }
        i = i + 1;
    }
    proof {
        assert(infos.take(i as int) =~= infos);
    }
    r
}

/// The consensus peer set the status page shows: the peers of the
/// consensus control module at its fixed identifier, or none when no such
/// module runs there.
pub fn get_peer_set(modules: &BTreeMap<ModuleId, ModuleWithConfig>) -> (r: Option<PeerSet>)
    ensures
        match r {
            Some(p) => {
                &&& modules@.contains_key(CONSENSUS_CTRL_MODULE_ID)
                &&& modules@[CONSENSUS_CTRL_MODULE_ID].inner is ConsensusCtrl
                &&& p@ == modules@[CONSENSUS_CTRL_MODULE_ID].inner->ConsensusCtrl_0.db.peers@
            },
            None => !(modules@.contains_key(CONSENSUS_CTRL_MODULE_ID)
                && modules@[CONSENSUS_CTRL_MODULE_ID].inner is ConsensusCtrl),
        },
{
    proof {
        lemma_lawful_keys();
    }
    match modules.get(&CONSENSUS_CTRL_MODULE_ID) {
        Some(m) => match &m.inner {
            AppModule::ConsensusCtrl(c) => Some(c.get_peer_set()),
            AppModule::Meta(_) => None,
        },
        None => None,
    }
}

/// The initialization page lets this node create a new consensus only when
/// it has a root secret and a persistent database.
pub fn can_create_consensus(has_secret: bool, is_db_ephemeral: bool) -> (r: bool)
    ensures
        r == (has_secret && !is_db_ephemeral),
{
    has_secret && !is_db_ephemeral
}

} // verus!
