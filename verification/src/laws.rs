use crate::context::{
    empty_context_view, modules_consistent, register_all_spec, register_spec, ContextView,
};
use crate::module::{module_name, ChainModuleInfo, ClientModuleInfo, ConsensusModuleInfo, ModuleKindInfo, PluginInfo};
use crate::hex::{hex_encode, law_hex_injective};
use crate::keccak::keccak256;
use crate::process::{
    enabled_configs, supervisor_step, ModuleConfig, ModuleSupervisor, SupervisorAction, SupervisorEvent, SupervisorPhase,
    INVALID_CONFIG_EXIT_CODE,
};
use crate::process::{client_socket_path, server_socket_path};
use crate::tendermint::{
    header_check, CommitFields, HeaderFields, commit_check,
    block_from_proto, block_to_proto, block_valid, evidence_check, BlockView, ProtoBlockView,
    TryFromBlockError,
};
use vstd::prelude::*;
use vstd::utf8::encode_utf8;

verus! {

/// Registering a module keeps the loaded modules consistent: consensus types
/// are recorded for exactly the chains with a consensus module and for exactly
/// the client types with a client module.
pub proof fn law_register_keeps_consistency(v: ContextView, kind: ModuleKindInfo)
    requires
        modules_consistent(v.modules),
        register_spec(v, kind) is Ok,
    ensures
        modules_consistent(register_spec(v, kind)->Ok_0.modules),
{
    let w = register_spec(v, kind)->Ok_0;
    let ghost new_pair: Option<(Seq<char>, Seq<char>)> = match kind {
        ModuleKindInfo::Client(c) => Some((c.client_type@, c.ibc_interface@)),
        _ => None,
    };
    assert(w.modules.consensus_modules.dom() =~= w.modules.chain_consensus_types.dom());
    assert forall|ct: Seq<char>| #[trigger]
        w.modules.client_consensus_types.dom().contains(ct) implies exists|ii: Seq<char>|
            #[trigger] w.modules.client_modules.dom().contains((ct, ii)) by {
        if new_pair is Some && ct == new_pair->Some_0.0 {
            assert(w.modules.client_modules.dom().contains((ct, new_pair->Some_0.1)));
        } else {
            assert(v.modules.client_consensus_types.dom().contains(ct));
            let ii = choose|ii: Seq<char>| #[trigger]
                v.modules.client_modules.dom().contains((ct, ii));
            assert(w.modules.client_modules.dom().contains((ct, ii)));
        }
    }
    assert forall|ct: Seq<char>| (exists|ii: Seq<char>| #[trigger]
        w.modules.client_modules.dom().contains((ct, ii))) implies #[trigger]
        w.modules.client_consensus_types.dom().contains(ct) by {
        let ii = choose|ii: Seq<char>| #[trigger] w.modules.client_modules.dom().contains((ct, ii));
        if !(new_pair is Some && ct == new_pair->Some_0.0) {
            assert(v.modules.client_modules.dom().contains((ct, ii)));
        }
    }
}

/// A registered module can be found afterwards: by its name among all modules,
/// a plugin's interest filter by the plugin's name, and the other kinds by the
/// keys they serve, with the consensus type they declared.
pub proof fn law_registered_module_is_found(v: ContextView, kind: ModuleKindInfo)
    requires
        register_spec(v, kind) is Ok,
    ensures
        ({
            let w = register_spec(v, kind)->Ok_0;
            let name = module_name(kind);
            &&& w.plugins.dom().contains(name) && w.plugins[name] == name
            &&& match kind {
                ModuleKindInfo::Plugin(p) => w.interest_filters.dom().contains(p.name@)
                    && w.interest_filters[p.name@] == p.interest_filter@,
                ModuleKindInfo::Chain(c) => w.modules.chain_modules.dom().contains(c.chain_id@)
                    && w.modules.chain_modules[c.chain_id@] == name,
                ModuleKindInfo::Consensus(c) => w.modules.consensus_modules.dom().contains(
                    c.chain_id@,
                ) && w.modules.consensus_modules[c.chain_id@] == name
                    && w.modules.chain_consensus_types[c.chain_id@] == c.consensus_type@,
                ModuleKindInfo::Client(c) => w.modules.client_modules.dom().contains(
                    (c.client_type@, c.ibc_interface@),
                ) && w.modules.client_modules[(c.client_type@, c.ibc_interface@)] == name
                    && w.modules.client_consensus_types[c.client_type@] == c.consensus_type@,
            }
        }),
{
}

/// Registering a module only adds: every chain, consensus and client module
/// loaded before stays loaded under the same keys, and so do the recorded
/// consensus types.
pub proof fn law_register_only_adds(v: ContextView, kind: ModuleKindInfo)
    requires
        modules_consistent(v.modules),
        register_spec(v, kind) is Ok,
    ensures
        ({
            let w = register_spec(v, kind)->Ok_0;
            &&& v.modules.chain_modules.submap_of(w.modules.chain_modules)
            &&& v.modules.consensus_modules.submap_of(w.modules.consensus_modules)
            &&& v.modules.client_modules.submap_of(w.modules.client_modules)
            &&& v.modules.chain_consensus_types.submap_of(w.modules.chain_consensus_types)
            &&& v.modules.client_consensus_types.submap_of(w.modules.client_consensus_types)
        }),
{
    let w = register_spec(v, kind)->Ok_0;
    assert forall|k: Seq<char>| #[trigger] v.modules.chain_modules.dom().contains(k) implies w.modules.chain_modules.dom().contains(k)
        && v.modules.chain_modules[k] == w.modules.chain_modules[k] by {}
    assert forall|k: Seq<char>| #[trigger] v.modules.consensus_modules.dom().contains(k) implies w.modules.consensus_modules.dom().contains(k)
        && v.modules.consensus_modules[k] == w.modules.consensus_modules[k] by {}
    assert forall|k: (Seq<char>, Seq<char>)| #[trigger] v.modules.client_modules.dom().contains(k) implies w.modules.client_modules.dom().contains(k)
        && v.modules.client_modules[k] == w.modules.client_modules[k] by {}
    assert forall|k: Seq<char>| #[trigger] v.modules.chain_consensus_types.dom().contains(k) implies w.modules.chain_consensus_types.dom().contains(k)
        && v.modules.chain_consensus_types[k] == w.modules.chain_consensus_types[k] by {
        if let ModuleKindInfo::Consensus(c) = kind {
            if k == c.chain_id@ {
                assert(v.modules.consensus_modules.dom().contains(k));
            }
        }
    }
    assert forall|k: Seq<char>| #[trigger] v.modules.client_consensus_types.dom().contains(k) implies w.modules.client_consensus_types.dom().contains(k)
        && v.modules.client_consensus_types[k] == w.modules.client_consensus_types[k] by {}
}

/// The state after registering the first `i` modules.
pub open spec fn registered_prefix(kinds: Seq<ModuleKindInfo>, i: int) -> Result<
    ContextView,
    Seq<char>,
> {
    register_all_spec(empty_context_view(), kinds.subrange(0, i))
}

proof fn lemma_submap_trans<K, V>(a: Map<K, V>, b: Map<K, V>, c: Map<K, V>)
    requires
        a.submap_of(b),
        b.submap_of(c),
    ensures
        a.submap_of(c),
{
    assert forall|k: K| #[trigger] a.dom().contains(k) implies c.dom().contains(k) && a[k] == c[k] by {
        assert(b.dom().contains(k));
    }
}

proof fn lemma_prefix_step(kinds: Seq<ModuleKindInfo>, j: int)
    requires
        0 < j <= kinds.len(),
    ensures
        registered_prefix(kinds, j) == match registered_prefix(kinds, j - 1) {
            Ok(w) => register_spec(w, kinds[j - 1]),
            Err(e) => Err(e),
        },
{
    let pre = kinds.subrange(0, j);
    assert(pre.drop_last() =~= kinds.subrange(0, j - 1));
    assert(pre.last() == kinds[j - 1]);
}

proof fn lemma_prefix_consistent(kinds: Seq<ModuleKindInfo>, j: int)
    requires
        0 <= j <= kinds.len(),
        registered_prefix(kinds, j) is Ok,
    ensures
        modules_consistent(registered_prefix(kinds, j)->Ok_0.modules),
    decreases j,
{
    if j == 0 {
        let e = empty_context_view().modules;
        assert(e.consensus_modules.dom() =~= e.chain_consensus_types.dom());
    } else {
        lemma_prefix_step(kinds, j);
        let prev = registered_prefix(kinds, j - 1);
        lemma_prefix_consistent(kinds, j - 1);
        law_register_keeps_consistency(prev->Ok_0, kinds[j - 1]);
    }
}

proof fn lemma_prefix_ok(kinds: Seq<ModuleKindInfo>, i: int, j: int)
    requires
        0 <= i <= j <= kinds.len(),
        registered_prefix(kinds, j) is Ok,
    ensures
        registered_prefix(kinds, i) is Ok,
        ({
            let a = registered_prefix(kinds, i)->Ok_0;
            let b = registered_prefix(kinds, j)->Ok_0;
            &&& a.modules.chain_modules.submap_of(b.modules.chain_modules)
            &&& a.modules.consensus_modules.submap_of(b.modules.consensus_modules)
            &&& a.modules.client_modules.submap_of(b.modules.client_modules)
            &&& a.modules.chain_consensus_types.submap_of(b.modules.chain_consensus_types)
            &&& a.modules.client_consensus_types.submap_of(b.modules.client_consensus_types)
            &&& a.plugins.dom().subset_of(b.plugins.dom())
        }),
    decreases j - i,
{
    if i < j {
        lemma_prefix_step(kinds, j);
        let prev = registered_prefix(kinds, j - 1);
        assert(prev is Ok);
        let p = prev->Ok_0;
        let b = registered_prefix(kinds, j)->Ok_0;
        lemma_prefix_consistent(kinds, j - 1);
        law_register_only_adds(p, kinds[j - 1]);
        lemma_prefix_ok(kinds, i, j - 1);
        let a = registered_prefix(kinds, i)->Ok_0;
        lemma_submap_trans(a.modules.chain_modules, p.modules.chain_modules, b.modules.chain_modules);
        lemma_submap_trans(a.modules.consensus_modules, p.modules.consensus_modules, b.modules.consensus_modules);
        lemma_submap_trans(a.modules.client_modules, p.modules.client_modules, b.modules.client_modules);
        lemma_submap_trans(
            a.modules.chain_consensus_types,
            p.modules.chain_consensus_types,
            b.modules.chain_consensus_types,
        );
        lemma_submap_trans(
            a.modules.client_consensus_types,
            p.modules.client_consensus_types,
            b.modules.client_consensus_types,
        );
        assert(p.plugins.dom().subset_of(b.plugins.dom()));
    } else {
        let a = registered_prefix(kinds, i)->Ok_0;
        assert(a.plugins.dom().subset_of(a.plugins.dom()));
    }
}

/// After a list of modules is registered without error, each chain, consensus
/// and client module of the list serves its keys, with the consensus type it
/// declared.
pub proof fn law_registered_list_is_found(kinds: Seq<ModuleKindInfo>, i: int)
    requires
        0 <= i < kinds.len(),
        register_all_spec(empty_context_view(), kinds) is Ok,
    ensures
        ({
            let w = register_all_spec(empty_context_view(), kinds)->Ok_0;
            let name = module_name(kinds[i]);
            match kinds[i] {
                ModuleKindInfo::Plugin(p) => w.plugins.dom().contains(p.name@),
                ModuleKindInfo::Chain(c) => w.modules.chain_modules.dom().contains(c.chain_id@)
                    && w.modules.chain_modules[c.chain_id@] == name,
                ModuleKindInfo::Consensus(c) => w.modules.consensus_modules.dom().contains(
                    c.chain_id@,
                ) && w.modules.consensus_modules[c.chain_id@] == name
                    && w.modules.chain_consensus_types[c.chain_id@] == c.consensus_type@,
                ModuleKindInfo::Client(c) => w.modules.client_modules.dom().contains(
                    (c.client_type@, c.ibc_interface@),
                ) && w.modules.client_modules[(c.client_type@, c.ibc_interface@)] == name
                    && w.modules.client_consensus_types[c.client_type@] == c.consensus_type@,
            }
        }),
{
    let n = kinds.len() as int;
    assert(kinds.subrange(0, n) =~= kinds);
    lemma_prefix_ok(kinds, i + 1, n);
    lemma_prefix_step(kinds, i + 1);
    let before = registered_prefix(kinds, i)->Ok_0;
    law_registered_module_is_found(before, kinds[i]);
    let after = registered_prefix(kinds, i + 1)->Ok_0;
    let w = registered_prefix(kinds, n)->Ok_0;
    match kinds[i] {
        ModuleKindInfo::Plugin(p) => {
            assert(after.plugins.dom().contains(p.name@));
        },
        ModuleKindInfo::Chain(c) => {
            assert(after.modules.chain_modules.dom().contains(c.chain_id@));
        },
        ModuleKindInfo::Consensus(c) => {
            assert(after.modules.consensus_modules.dom().contains(c.chain_id@));
            assert(after.modules.chain_consensus_types.dom().contains(c.chain_id@));
            assert(after.modules.chain_consensus_types[c.chain_id@] == c.consensus_type@);
            assert(w.modules.chain_consensus_types.dom().contains(c.chain_id@));
            assert(w.modules.chain_consensus_types[c.chain_id@]
                == after.modules.chain_consensus_types[c.chain_id@]);
        },
        ModuleKindInfo::Client(c) => {
            assert(after.modules.client_modules.dom().contains((c.client_type@, c.ibc_interface@)));
            assert(after.modules.client_consensus_types.dom().contains(c.client_type@));
            assert(after.modules.client_consensus_types[c.client_type@] == c.consensus_type@);
            assert(w.modules.client_consensus_types.dom().contains(c.client_type@));
            assert(w.modules.client_consensus_types[c.client_type@]
                == after.modules.client_consensus_types[c.client_type@]);
        },
    }
}

/// A list of modules in which two chain modules serve one chain, two consensus
/// modules serve one chain, or two client modules serve one client type on one
/// IBC interface is refused.
pub proof fn law_duplicate_modules_are_refused(kinds: Seq<ModuleKindInfo>, i: int, j: int)
    requires
        0 <= i < j < kinds.len(),
        (kinds[i] matches ModuleKindInfo::Chain(a) && kinds[j] matches ModuleKindInfo::Chain(b)
            && a.chain_id@ == b.chain_id@) || (kinds[i] matches ModuleKindInfo::Consensus(a)
            && kinds[j] matches ModuleKindInfo::Consensus(b) && a.chain_id@ == b.chain_id@) || (
        kinds[i] matches ModuleKindInfo::Client(a) && kinds[j] matches ModuleKindInfo::Client(b)
            && a.client_type@ == b.client_type@ && a.ibc_interface@ == b.ibc_interface@),
    ensures
        register_all_spec(empty_context_view(), kinds) is Err,
{
    if register_all_spec(empty_context_view(), kinds) is Ok {
        let n = kinds.len() as int;
        assert(kinds.subrange(0, n) =~= kinds);
        lemma_prefix_ok(kinds, j + 1, n);
        lemma_prefix_ok(kinds, j, n);
        lemma_prefix_ok(kinds, i + 1, j);
        lemma_prefix_step(kinds, i + 1);
        lemma_prefix_step(kinds, j + 1);
        let before_i = registered_prefix(kinds, i)->Ok_0;
        let after_i = registered_prefix(kinds, i + 1)->Ok_0;
        let before_j = registered_prefix(kinds, j)->Ok_0;
        lemma_later_duplicate_refused(before_i, after_i, before_j, kinds[i], kinds[j]);
    }
}

proof fn lemma_later_duplicate_refused(
    before_i: ContextView,
    after_i: ContextView,
    before_j: ContextView,
    ki: ModuleKindInfo,
    kj: ModuleKindInfo,
)
    requires
        register_spec(before_i, ki) == Ok::<ContextView, Seq<char>>(after_i),
        after_i.modules.chain_modules.submap_of(before_j.modules.chain_modules),
        after_i.modules.consensus_modules.submap_of(before_j.modules.consensus_modules),
        after_i.modules.client_modules.submap_of(before_j.modules.client_modules),
        (ki matches ModuleKindInfo::Chain(a) && kj matches ModuleKindInfo::Chain(b)
            && a.chain_id@ == b.chain_id@) || (ki matches ModuleKindInfo::Consensus(a)
            && kj matches ModuleKindInfo::Consensus(b) && a.chain_id@ == b.chain_id@) || (
        ki matches ModuleKindInfo::Client(a) && kj matches ModuleKindInfo::Client(b)
            && a.client_type@ == b.client_type@ && a.ibc_interface@ == b.ibc_interface@),
    ensures
        register_spec(before_j, kj) is Err,
{
    law_registered_module_is_found(before_i, ki);
    match ki {
        ModuleKindInfo::Chain(a) => {
            assert(after_i.modules.chain_modules.dom().contains(a.chain_id@));
            assert(before_j.modules.chain_modules.dom().contains(a.chain_id@));
        },
        ModuleKindInfo::Consensus(a) => {
            assert(after_i.modules.consensus_modules.dom().contains(a.chain_id@));
            assert(before_j.modules.consensus_modules.dom().contains(a.chain_id@));
        },
        ModuleKindInfo::Client(a) => {
            assert(after_i.modules.client_modules.dom().contains((a.client_type@, a.ibc_interface@)));
            assert(before_j.modules.client_modules.dom().contains((a.client_type@, a.ibc_interface@)));
        },
        ModuleKindInfo::Plugin(_) => {},
    }
}

/// Supervision ends for good: once a module's process has been killed, no
/// event changes anything or calls for any action.
pub proof fn law_stopped_is_final(s: ModuleSupervisor, e: SupervisorEvent)
    requires
        s.phase == SupervisorPhase::Stopped,
    ensures
        supervisor_step(s, e) == (s, SupervisorAction::Ignore),
{
}

/// The whole host is told to shut down exactly when a running module exits
/// with the exit code for an invalid configuration.
pub proof fn law_shutdown_on_invalid_config(s: ModuleSupervisor, e: SupervisorEvent)
    ensures
        (supervisor_step(s, e).1 == SupervisorAction::Restart { cancel_all: true }) <==> (s.phase
            == SupervisorPhase::Running && e == SupervisorEvent::ChildExited {
            code: Some(INVALID_CONFIG_EXIT_CODE as i32),
        }),
{
}

/// The restart count grows by one each time a running process ends, and stays
/// the same otherwise.
pub proof fn law_restart_count(s: ModuleSupervisor, e: SupervisorEvent)
    requires
        s.attempt < u64::MAX,
    ensures
        supervisor_step(s, e).0.attempt == if supervisor_step(s, e).1 is Restart {
            s.attempt + 1
        } else {
            s.attempt as int
        },
{
}


/// A valid block survives the trip to protobuf and back unchanged.
pub proof fn law_block_round_trip(b: BlockView)
    requires
        block_valid(b),
    ensures
        block_from_proto(block_to_proto(b)) == Ok::<BlockView, TryFromBlockError>(b),
{
    let e = b.evidence.map_values(|x: Seq<u8>| Some(x));
    assert forall|i: int| 0 <= i < e.len() implies #[trigger] e[i] is Some by {}
    assert(evidence_check(e)->Ok_0 =~= b.evidence);
}

/// A protobuf block that is accepted comes back unchanged from the block it
/// describes.
pub proof fn law_proto_block_round_trip(p: ProtoBlockView)
    requires
        block_from_proto(p) is Ok,
    ensures
        block_to_proto(block_from_proto(p)->Ok_0) == p,
{
    let ev = p.evidence->Some_0;
    let back = evidence_check(ev)->Ok_0.map_values(|x: Seq<u8>| Some(x));
    assert forall|i: int| 0 <= i < ev.len() implies back[i] == ev[i] by {
        assert(ev[i] is Some);
    }
    assert(back =~= ev);
}

/// The socket on which a module serves the host is never the one on which the
/// host serves a module, whatever the two modules' names.
pub proof fn law_sockets_differ(a: Seq<char>, b: Seq<char>)
    ensures
        client_socket_path(a) != server_socket_path(b),
{
    reveal_strlit("/tmp/voyager-to-module-");
    reveal_strlit("/tmp/module-to-voyager-");
    assert(client_socket_path(a)[5] == 'v');
    assert(server_socket_path(b)[5] == 'm');
}

/// Picking the enabled configurations a second time changes nothing.
pub proof fn law_enabled_configs_idempotent(configs: Seq<ModuleConfig>)
    ensures
        enabled_configs(enabled_configs(configs)) == enabled_configs(configs),
    decreases configs.len(),
{
    reveal(Seq::filter);
    if configs.len() > 0 {
        let rest = configs.drop_last();
        law_enabled_configs_idempotent(rest);
        let f = enabled_configs(rest);
        if configs.last().enabled {
            assert(f.push(configs.last()).drop_last() =~= f);
        }
    }
}

/// Only the host's shutdown ends supervision: a step that leaves supervision
/// stopped either found it stopped or was a cancellation of a running process.
pub proof fn law_only_cancellation_stops(s: ModuleSupervisor, e: SupervisorEvent)
    ensures
        supervisor_step(s, e).0.phase == SupervisorPhase::Stopped ==> s.phase
            == SupervisorPhase::Stopped || (s.phase == SupervisorPhase::Running && e
            == SupervisorEvent::Cancelled),
{
}

/// Every plugin's interest filter belongs to a registered module name.
pub open spec fn filters_are_modules(v: ContextView) -> bool {
    v.interest_filters.dom().subset_of(v.plugins.dom())
}

proof fn lemma_register_keeps_filters(v: ContextView, kind: ModuleKindInfo)
    requires
        filters_are_modules(v),
        register_spec(v, kind) is Ok,
    ensures
        filters_are_modules(register_spec(v, kind)->Ok_0),
{
    let w = register_spec(v, kind)->Ok_0;
    assert forall|k: Seq<char>| w.interest_filters.dom().contains(k) implies #[trigger] w.plugins.dom().contains(k) by {
        if !v.interest_filters.dom().contains(k) {
            assert(k == module_name(kind));
        } else {
            assert(v.plugins.dom().contains(k));
        }
    }
}

proof fn lemma_prefix_filters(kinds: Seq<ModuleKindInfo>, j: int)
    requires
        0 <= j <= kinds.len(),
        registered_prefix(kinds, j) is Ok,
    ensures
        filters_are_modules(registered_prefix(kinds, j)->Ok_0),
    decreases j,
{
    if j == 0 {
        assert(filters_are_modules(empty_context_view()));
    } else {
        lemma_prefix_step(kinds, j);
        lemma_prefix_filters(kinds, j - 1);
        lemma_register_keeps_filters(registered_prefix(kinds, j - 1)->Ok_0, kinds[j - 1]);
    }
}

/// After a list of modules is registered without error, every name with an
/// interest filter is the name of a registered module.
pub proof fn law_interest_filters_are_modules(kinds: Seq<ModuleKindInfo>)
    requires
        register_all_spec(empty_context_view(), kinds) is Ok,
    ensures
        filters_are_modules(register_all_spec(empty_context_view(), kinds)->Ok_0),
{
    let n = kinds.len() as int;
    assert(kinds.subrange(0, n) =~= kinds);
    lemma_prefix_filters(kinds, n);
}

proof fn lemma_middle_equal(p: Seq<char>, x: Seq<char>, y: Seq<char>, q: Seq<char>)
    requires
        p + x + q == p + y + q,
    ensures
        x == y,
{
    let l = p + x + q;
    let r = p + y + q;
    assert(l.len() == r.len());
    assert(l.len() == p.len() + x.len() + q.len());
    assert(r.len() == p.len() + y.len() + q.len());
    assert(x.len() == y.len());
    assert(l.subrange(p.len() as int, (p.len() + x.len()) as int) =~= x);
    assert(r.subrange(p.len() as int, (p.len() + y.len()) as int) =~= y);
}

/// Modules whose names have different Keccak-256 digests get different sockets,
/// both for serving the host and for being served by it.
pub proof fn law_distinct_digests_distinct_sockets(a: Seq<char>, b: Seq<char>)
    requires
        keccak256(encode_utf8(a)) != keccak256(encode_utf8(b)),
    ensures
        client_socket_path(a) != client_socket_path(b),
        server_socket_path(a) != server_socket_path(b),
{
    let ha = hex_encode(keccak256(encode_utf8(a)));
    let hb = hex_encode(keccak256(encode_utf8(b)));
    if client_socket_path(a) == client_socket_path(b) {
        lemma_middle_equal("/tmp/voyager-to-module-"@, ha, hb, ".sock"@);
        law_hex_injective(keccak256(encode_utf8(a)), keccak256(encode_utf8(b)));
    }
    if server_socket_path(a) == server_socket_path(b) {
        lemma_middle_equal("/tmp/module-to-voyager-"@, ha, hb, ".sock"@);
        law_hex_injective(keccak256(encode_utf8(a)), keccak256(encode_utf8(b)));
    }
}

/// Registration refuses a module only over a module of its own kind: a plugin
/// is always accepted, a chain module whenever no chain module serves its chain
/// yet, a consensus module whenever no consensus module serves its chain yet,
/// and a client module whenever none serves its client type on its IBC
/// interface and no other consensus type is recorded for its client type,
/// whatever else is loaded.
pub proof fn law_register_succeeds_without_conflict(v: ContextView, kind: ModuleKindInfo)
    ensures
        kind is Plugin ==> register_spec(v, kind) is Ok,
        (kind matches ModuleKindInfo::Chain(c) && !v.modules.chain_modules.dom().contains(
            c.chain_id@,
        )) ==> register_spec(v, kind) is Ok,
        (kind matches ModuleKindInfo::Consensus(c) && !v.modules.consensus_modules.dom().contains(
            c.chain_id@,
        )) ==> register_spec(v, kind) is Ok,
        (kind matches ModuleKindInfo::Client(c) && !v.modules.client_modules.dom().contains(
            (c.client_type@, c.ibc_interface@),
        ) && (!v.modules.client_consensus_types.dom().contains(c.client_type@)
            || v.modules.client_consensus_types[c.client_type@] == c.consensus_type@))
            ==> register_spec(v, kind) is Ok,
{
}

/// Only plugins bring interest filters: registering a chain, consensus or client
/// module leaves them as they were, and registering a plugin sets its own filter
/// and leaves every other one as it was.
pub proof fn law_register_touches_only_own_filter(v: ContextView, kind: ModuleKindInfo)
    requires
        register_spec(v, kind) is Ok,
    ensures
        !(kind is Plugin) ==> register_spec(v, kind)->Ok_0.interest_filters
            == v.interest_filters,
        kind matches ModuleKindInfo::Plugin(p) ==> register_spec(v, kind)->Ok_0.interest_filters
            == v.interest_filters.insert(p.name@, p.interest_filter@),
{
}

/// A running module whose process ends is started again, whatever its exit
/// code: the restart count grows by one, and the whole host is told to shut
/// down exactly when the code says the configuration is invalid. Failing to
/// wait for the process restarts it the same way, without shutting down.
pub proof fn law_exited_module_is_restarted(s: ModuleSupervisor, code: Option<i32>)
    requires
        s.phase == SupervisorPhase::Running,
        s.attempt < u64::MAX,
    ensures
        supervisor_step(s, SupervisorEvent::ChildExited { code }).0.phase == SupervisorPhase::Spawning,
        supervisor_step(s, SupervisorEvent::ChildExited { code }).0.attempt == s.attempt + 1,
        supervisor_step(s, SupervisorEvent::ChildExited { code }).1 == (SupervisorAction::Restart {
            cancel_all: code == Some(13i32),
        }),
        supervisor_step(s, SupervisorEvent::WaitFailed).0.phase == SupervisorPhase::Spawning,
        supervisor_step(s, SupervisorEvent::WaitFailed).0.attempt == s.attempt + 1,
        supervisor_step(s, SupervisorEvent::WaitFailed).1 == (SupervisorAction::Restart {
            cancel_all: false,
        }),
{
}

/// A header is refused exactly when its height is negative, its data hash is
/// not 32 bytes long or its proposer address is not 20 bytes long; nothing else
/// about it, its height above all, is limited.
pub proof fn law_header_accepted(h: HeaderFields)
    ensures
        (header_check(h) is None) <==> (h.height >= 0 && h.data_hash.len() == 32
            && h.proposer_address.len() == 20),
{
}

/// A commit is refused exactly when its height or round is negative or its
/// block hash is not 32 bytes long.
pub proof fn law_commit_accepted(c: CommitFields)
    ensures
        (commit_check(c) is None) <==> (c.height >= 0 && c.round >= 0 && c.block_hash.len() == 32),
{
}

/// A protobuf block converts whenever all its parts are present, its header
/// has a non-negative height, a 32-byte data hash and a 20-byte proposer
/// address, every evidence piece has content, and its last commit has a
/// non-negative height and round and a 32-byte block hash; the block then has
/// exactly those parts.
pub proof fn law_block_accepted(p: ProtoBlockView)
    requires
        p.header matches Some(h) && h.height >= 0 && h.data_hash.len() == 32
            && h.proposer_address.len() == 20,
        p.txs is Some,
        p.evidence matches Some(e) && forall|i: int| 0 <= i < e.len() ==> #[trigger] e[i] is Some,
        p.last_commit matches Some(c) && c.height >= 0 && c.round >= 0 && c.block_hash.len() == 32,
    ensures
        block_from_proto(p) is Ok,
        block_from_proto(p)->Ok_0.header == p.header->Some_0,
        block_from_proto(p)->Ok_0.txs == p.txs->Some_0,
        block_from_proto(p)->Ok_0.last_commit == p.last_commit->Some_0,
        block_from_proto(p)->Ok_0.evidence.len() == p.evidence->Some_0.len(),
        forall|i: int|
            0 <= i < p.evidence->Some_0.len() ==> Some(
                #[trigger] block_from_proto(p)->Ok_0.evidence[i],
            ) == p.evidence->Some_0[i],
{
    let e = p.evidence->Some_0;
    assert forall|i: int| 0 <= i < e.len() implies #[trigger] e[i] is Some by {}
}

/// The enabled configurations are exactly the enabled ones among the input, in
/// their order: every one that is enabled is kept, whatever its path or
/// content, none that is disabled is, and a list of enabled configurations
/// comes back whole.
pub proof fn law_enabled_configs_keep_enabled(configs: Seq<ModuleConfig>)
    ensures
        forall|c: ModuleConfig|
            #[trigger] enabled_configs(configs).contains(c) <==> configs.contains(c) && c.enabled,
        (forall|i: int| 0 <= i < configs.len() ==> #[trigger] configs[i].enabled)
            ==> enabled_configs(configs) == configs,
        enabled_configs(configs).len() <= configs.len(),
    decreases configs.len(),
{
    reveal(Seq::filter);
    if configs.len() > 0 {
        let rest = configs.drop_last();
        let last = configs.last();
        law_enabled_configs_keep_enabled(rest);
        let f = enabled_configs(rest);
        assert forall|c: ModuleConfig| #[trigger] enabled_configs(configs).contains(c) <==> configs.contains(c)
            && c.enabled by {
            if configs.contains(c) && c.enabled {
                let i = choose|i: int| 0 <= i < configs.len() && configs[i] == c;
                if i < configs.len() - 1 {
                    assert(rest[i] == c);
                    assert(rest.contains(c));
                    assert(f.contains(c));
                    let k = choose|k: int| 0 <= k < f.len() && f[k] == c;
                    assert(enabled_configs(configs)[k] == c);
                } else {
                    assert(enabled_configs(configs) == f.push(last));
                    assert(enabled_configs(configs)[f.len() as int] == c);
                }
            }
            if enabled_configs(configs).contains(c) {
                let k = choose|k: int| 0 <= k < enabled_configs(configs).len() && enabled_configs(configs)[k] == c;
                if last.enabled && k == f.len() {
                    assert(c == last);
                    assert(configs[configs.len() - 1] == c);
                } else {
                    assert(f[k] == c);
                    assert(f.contains(c));
                    let i = choose|i: int| 0 <= i < rest.len() && rest[i] == c;
                    assert(configs[i] == c);
                }
            }
        }
        if forall|i: int| 0 <= i < configs.len() ==> #[trigger] configs[i].enabled {
            assert forall|i: int| 0 <= i < rest.len() implies #[trigger] rest[i].enabled by {
                assert(configs[i].enabled);
            }
            assert(configs[configs.len() - 1].enabled);
            assert(configs =~= rest.push(last));
        }
    } else {
        assert(enabled_configs(configs) =~= configs);
    }
}

/// Two module infos that cannot both be registered: two chain modules or two
/// consensus modules for one chain, two client modules for one client type on
/// one IBC interface, or two client modules of one client type that track
/// different consensus types.
pub open spec fn conflicting(a: ModuleKindInfo, b: ModuleKindInfo) -> bool {
    ||| (a matches ModuleKindInfo::Chain(x) && b matches ModuleKindInfo::Chain(y)
        && x.chain_id@ == y.chain_id@)
    ||| (a matches ModuleKindInfo::Consensus(x) && b matches ModuleKindInfo::Consensus(y)
        && x.chain_id@ == y.chain_id@)
    ||| (a matches ModuleKindInfo::Client(x) && b matches ModuleKindInfo::Client(y)
        && x.client_type@ == y.client_type@ && (x.ibc_interface@ == y.ibc_interface@
        || x.consensus_type@ != y.consensus_type@))
}

spec fn chain_at(kinds: Seq<ModuleKindInfo>, i: int, k: Seq<char>) -> bool {
    kinds[i] matches ModuleKindInfo::Chain(c) && c.chain_id@ == k
}

spec fn consensus_at(kinds: Seq<ModuleKindInfo>, i: int, k: Seq<char>) -> bool {
    kinds[i] matches ModuleKindInfo::Consensus(c) && c.chain_id@ == k
}

spec fn client_at(kinds: Seq<ModuleKindInfo>, i: int, ct: Seq<char>, ii: Seq<char>) -> bool {
    kinds[i] matches ModuleKindInfo::Client(c) && c.client_type@ == ct && c.ibc_interface@ == ii
}

spec fn client_type_at(kinds: Seq<ModuleKindInfo>, i: int, ct: Seq<char>, cons: Seq<char>) -> bool {
    kinds[i] matches ModuleKindInfo::Client(c) && c.client_type@ == ct && c.consensus_type@ == cons
}

/// What the first `j` modules registered: every key served comes from one of
/// them.
proof fn lemma_prefix_domains(kinds: Seq<ModuleKindInfo>, j: int)
    requires
        0 <= j <= kinds.len(),
        registered_prefix(kinds, j) is Ok,
    ensures
        ({
            let m = registered_prefix(kinds, j)->Ok_0.modules;
            &&& forall|k: Seq<char>| #[trigger] m.chain_modules.dom().contains(k) ==> exists|i: int|
                0 <= i < j && #[trigger] chain_at(kinds, i, k)
            &&& forall|k: Seq<char>| #[trigger] m.consensus_modules.dom().contains(k) ==> exists|i: int|
                0 <= i < j && #[trigger] consensus_at(kinds, i, k)
            &&& forall|ct: Seq<char>, ii: Seq<char>| #[trigger] m.client_modules.dom().contains((ct, ii)) ==> exists|i: int|
                0 <= i < j && #[trigger] client_at(kinds, i, ct, ii)
            &&& forall|ct: Seq<char>| #[trigger] m.client_consensus_types.dom().contains(ct) ==> exists|i: int|
                0 <= i < j && #[trigger] client_type_at(kinds, i, ct, m.client_consensus_types[ct])
        }),
    decreases j,
{
    if j > 0 {
        lemma_prefix_step(kinds, j);
        let prev = registered_prefix(kinds, j - 1);
        lemma_prefix_domains(kinds, j - 1);
        let p = prev->Ok_0.modules;
        let m = registered_prefix(kinds, j)->Ok_0.modules;
        let n = j - 1;
        assert forall|k: Seq<char>| #[trigger] m.chain_modules.dom().contains(k) implies exists|i: int|
            0 <= i < j && #[trigger] chain_at(kinds, i, k) by {
            if p.chain_modules.dom().contains(k) {
                let i = choose|i: int| 0 <= i < n && #[trigger] chain_at(kinds, i, k);
                assert(chain_at(kinds, i, k));
            } else {
                assert(chain_at(kinds, n, k));
            }
        }
        assert forall|k: Seq<char>| #[trigger] m.consensus_modules.dom().contains(k) implies exists|i: int|
            0 <= i < j && #[trigger] consensus_at(kinds, i, k) by {
            if p.consensus_modules.dom().contains(k) {
                let i = choose|i: int| 0 <= i < n && #[trigger] consensus_at(kinds, i, k);
                assert(consensus_at(kinds, i, k));
            } else {
                assert(consensus_at(kinds, n, k));
            }
        }
        assert forall|ct: Seq<char>, ii: Seq<char>| #[trigger] m.client_modules.dom().contains((ct, ii)) implies exists|i: int|
            0 <= i < j && #[trigger] client_at(kinds, i, ct, ii) by {
            if p.client_modules.dom().contains((ct, ii)) {
                let i = choose|i: int| 0 <= i < n && #[trigger] client_at(kinds, i, ct, ii);
                assert(client_at(kinds, i, ct, ii));
            } else {
                assert(client_at(kinds, n, ct, ii));
            }
        }
        assert forall|ct: Seq<char>| #[trigger] m.client_consensus_types.dom().contains(ct) implies exists|i: int|
            0 <= i < j && #[trigger] client_type_at(kinds, i, ct, m.client_consensus_types[ct]) by {
            if kinds[n] matches ModuleKindInfo::Client(c) && c.client_type@ == ct {
                assert(client_type_at(kinds, n, ct, m.client_consensus_types[ct]));
            } else {
                assert(p.client_consensus_types.dom().contains(ct));
                let i = choose|i: int| 0 <= i < n && #[trigger] client_type_at(kinds, i, ct, p.client_consensus_types[ct]);
                assert(client_type_at(kinds, i, ct, m.client_consensus_types[ct]));
            }
        }
    }
}

proof fn lemma_first_refusal(kinds: Seq<ModuleKindInfo>, n: int)
    requires
        0 <= n <= kinds.len(),
        registered_prefix(kinds, n) is Err,
    ensures
        exists|j: int| 0 <= j < n && registered_prefix(kinds, j) is Ok && #[trigger] registered_prefix(kinds, j + 1) is Err,
    decreases n,
{
    if n == 0 {
        assert(registered_prefix(kinds, 0) is Ok);
    } else {
        lemma_prefix_step(kinds, n);
        if registered_prefix(kinds, n - 1) is Err {
            lemma_first_refusal(kinds, n - 1);
            let j = choose|j: int| 0 <= j < n - 1 && registered_prefix(kinds, j) is Ok && #[trigger] registered_prefix(kinds, j + 1) is Err;
            assert(registered_prefix(kinds, j + 1) is Err);
        } else {
            assert(registered_prefix(kinds, (n - 1) + 1) is Err);
        }
    }
}

/// A list of modules is refused only over a conflict: some module conflicts
/// with one listed before it.
pub proof fn law_refused_list_has_conflict(kinds: Seq<ModuleKindInfo>)
    requires
        register_all_spec(empty_context_view(), kinds) is Err,
    ensures
        exists|i: int, j: int| 0 <= i < j < kinds.len() && #[trigger] conflicting(kinds[i], kinds[j]),
{
    let n = kinds.len() as int;
    assert(kinds.subrange(0, n) =~= kinds);
    lemma_first_refusal(kinds, n);
    let j = choose|j: int| 0 <= j < n && registered_prefix(kinds, j) is Ok && #[trigger] registered_prefix(kinds, j + 1) is Err;
    lemma_prefix_step(kinds, j + 1);
    lemma_prefix_domains(kinds, j);
    let before = registered_prefix(kinds, j)->Ok_0;
    let m = before.modules;
    assert(register_spec(before, kinds[j]) is Err);
    match kinds[j] {
        ModuleKindInfo::Plugin(_) => {},
        ModuleKindInfo::Chain(c) => {
            assert(m.chain_modules.dom().contains(c.chain_id@));
            let i = choose|i: int| 0 <= i < j && #[trigger] chain_at(kinds, i, c.chain_id@);
            assert(conflicting(kinds[i], kinds[j]));
        },
        ModuleKindInfo::Consensus(c) => {
            assert(m.consensus_modules.dom().contains(c.chain_id@));
            let i = choose|i: int| 0 <= i < j && #[trigger] consensus_at(kinds, i, c.chain_id@);
            assert(conflicting(kinds[i], kinds[j]));
        },
        ModuleKindInfo::Client(c) => {
            if m.client_modules.dom().contains((c.client_type@, c.ibc_interface@)) {
                let i = choose|i: int| 0 <= i < j && #[trigger] client_at(kinds, i, c.client_type@, c.ibc_interface@);
                assert(conflicting(kinds[i], kinds[j]));
            } else {
                assert(m.client_consensus_types.dom().contains(c.client_type@));
                let cons = m.client_consensus_types[c.client_type@];
                let i = choose|i: int| 0 <= i < j && #[trigger] client_type_at(kinds, i, c.client_type@, cons);
                assert(conflicting(kinds[i], kinds[j]));
            }
        },
    }
}

/// A list of modules in which some module conflicts with one listed before it
/// is refused; with `law_refused_list_has_conflict`, a list is refused exactly
/// when it holds such a pair.
pub proof fn law_conflicting_modules_are_refused(kinds: Seq<ModuleKindInfo>, i: int, j: int)
    requires
        0 <= i < j < kinds.len(),
        conflicting(kinds[i], kinds[j]),
    ensures
        register_all_spec(empty_context_view(), kinds) is Err,
{
    let same_key = (kinds[i] matches ModuleKindInfo::Chain(a) && kinds[j] matches ModuleKindInfo::Chain(b)
        && a.chain_id@ == b.chain_id@) || (kinds[i] matches ModuleKindInfo::Consensus(a)
        && kinds[j] matches ModuleKindInfo::Consensus(b) && a.chain_id@ == b.chain_id@) || (
    kinds[i] matches ModuleKindInfo::Client(a) && kinds[j] matches ModuleKindInfo::Client(b)
        && a.client_type@ == b.client_type@ && a.ibc_interface@ == b.ibc_interface@);
    if same_key {
        law_duplicate_modules_are_refused(kinds, i, j);
    } else if register_all_spec(empty_context_view(), kinds) is Ok {
        let n = kinds.len() as int;
        assert(kinds.subrange(0, n) =~= kinds);
        lemma_prefix_ok(kinds, j + 1, n);
        lemma_prefix_ok(kinds, j, n);
        lemma_prefix_ok(kinds, i + 1, j);
        lemma_prefix_step(kinds, i + 1);
        lemma_prefix_step(kinds, j + 1);
        let before_i = registered_prefix(kinds, i)->Ok_0;
        let after_i = registered_prefix(kinds, i + 1)->Ok_0;
        let before_j = registered_prefix(kinds, j)->Ok_0;
        law_registered_module_is_found(before_i, kinds[i]);
        let a = kinds[i]->Client_0;
        let b = kinds[j]->Client_0;
        assert(after_i.modules.client_consensus_types.dom().contains(a.client_type@));
        assert(before_j.modules.client_consensus_types.dom().contains(a.client_type@));
        assert(before_j.modules.client_consensus_types[a.client_type@] == a.consensus_type@);
        assert(register_spec(before_j, kinds[j]) is Err);
    }
}

/// Plugin `i` is the last in the list to carry the name `k`.
spec fn last_plugin_named(kinds: Seq<ModuleKindInfo>, i: int, k: Seq<char>, n: int) -> bool {
    &&& 0 <= i < n
    &&& kinds[i] matches ModuleKindInfo::Plugin(p) && p.name@ == k
    &&& forall|j: int| i < j < n ==> !(#[trigger] kinds[j] matches ModuleKindInfo::Plugin(q) && q.name@ == k)
}

proof fn lemma_prefix_interest_filters(kinds: Seq<ModuleKindInfo>, n: int)
    requires
        0 <= n <= kinds.len(),
        registered_prefix(kinds, n) is Ok,
    ensures
        ({
            let f = registered_prefix(kinds, n)->Ok_0.interest_filters;
            &&& forall|k: Seq<char>| #[trigger] f.dom().contains(k) <==> exists|i: int|
                0 <= i < n && (#[trigger] kinds[i] matches ModuleKindInfo::Plugin(p) && p.name@ == k)
            &&& forall|k: Seq<char>| #[trigger] f.dom().contains(k) ==> exists|i: int|
                #[trigger] last_plugin_named(kinds, i, k, n) && kinds[i]->Plugin_0.interest_filter@ == f[k]
        }),
    decreases n,
{
    if n > 0 {
        lemma_prefix_step(kinds, n);
        let prev = registered_prefix(kinds, n - 1);
        lemma_prefix_interest_filters(kinds, n - 1);
        let pf = prev->Ok_0.interest_filters;
        let f = registered_prefix(kinds, n)->Ok_0.interest_filters;
        let m = n - 1;
        law_register_touches_only_own_filter(prev->Ok_0, kinds[m]);
        assert forall|k: Seq<char>| #[trigger] f.dom().contains(k) <==> exists|i: int|
            0 <= i < n && (#[trigger] kinds[i] matches ModuleKindInfo::Plugin(p) && p.name@ == k) by {
            if kinds[m] matches ModuleKindInfo::Plugin(p) && p.name@ == k {
                assert(f.dom().contains(k));
            } else {
                if f.dom().contains(k) {
                    assert(pf.dom().contains(k));
                    let i = choose|i: int| 0 <= i < m && (#[trigger] kinds[i] matches ModuleKindInfo::Plugin(p) && p.name@ == k);
                    assert(0 <= i < n);
                }
                if exists|i: int| 0 <= i < n && (#[trigger] kinds[i] matches ModuleKindInfo::Plugin(p) && p.name@ == k) {
                    let i = choose|i: int| 0 <= i < n && (#[trigger] kinds[i] matches ModuleKindInfo::Plugin(p) && p.name@ == k);
                    assert(i != m);
                    assert(pf.dom().contains(k));
                }
            }
        }
        assert forall|k: Seq<char>| #[trigger] f.dom().contains(k) implies exists|i: int|
            #[trigger] last_plugin_named(kinds, i, k, n) && kinds[i]->Plugin_0.interest_filter@ == f[k] by {
            if kinds[m] matches ModuleKindInfo::Plugin(p) && p.name@ == k {
                assert(last_plugin_named(kinds, m, k, n));
            } else {
                assert(pf.dom().contains(k));
                let i = choose|i: int| #[trigger] last_plugin_named(kinds, i, k, m) && kinds[i]->Plugin_0.interest_filter@ == pf[k];
                assert(f[k] == pf[k]);
                assert(last_plugin_named(kinds, i, k, n));
            }
        }
    }
}

/// After a list of modules is registered without error, the interest filters
/// are keyed by exactly the names of the listed plugins, and each holds the
/// filter of the last plugin of that name.
pub proof fn law_interest_filters_of_list(kinds: Seq<ModuleKindInfo>)
    requires
        register_all_spec(empty_context_view(), kinds) is Ok,
    ensures
        ({
            let f = register_all_spec(empty_context_view(), kinds)->Ok_0.interest_filters;
            &&& forall|k: Seq<char>| #[trigger] f.dom().contains(k) <==> exists|i: int|
                0 <= i < kinds.len() && (#[trigger] kinds[i] matches ModuleKindInfo::Plugin(p) && p.name@ == k)
            &&& forall|k: Seq<char>| #[trigger] f.dom().contains(k) ==> exists|i: int|
                0 <= i < kinds.len() && (#[trigger] kinds[i] matches ModuleKindInfo::Plugin(p) && p.name@ == k
                    && p.interest_filter@ == f[k]) && forall|j: int|
                    i < j < kinds.len() ==> !(#[trigger] kinds[j] matches ModuleKindInfo::Plugin(q) && q.name@ == k)
        }),
{
    let n = kinds.len() as int;
    assert(kinds.subrange(0, n) =~= kinds);
    lemma_prefix_interest_filters(kinds, n);
    let f = register_all_spec(empty_context_view(), kinds)->Ok_0.interest_filters;
    assert forall|k: Seq<char>| #[trigger] f.dom().contains(k) implies exists|i: int|
        0 <= i < kinds.len() && (#[trigger] kinds[i] matches ModuleKindInfo::Plugin(p) && p.name@ == k
            && p.interest_filter@ == f[k]) && forall|j: int|
            i < j < kinds.len() ==> !(#[trigger] kinds[j] matches ModuleKindInfo::Plugin(q) && q.name@ == k) by {
        let i = choose|i: int| #[trigger] last_plugin_named(kinds, i, k, n) && kinds[i]->Plugin_0.interest_filter@ == f[k];
        assert(last_plugin_named(kinds, i, k, n));
    }
}

} // verus!
