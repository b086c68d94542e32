use voyager_message::context::{ClientModuleNotFound, Context, PluginNotFound};
use voyager_message::ids::{ChainId, ClientType, ConsensusType, IbcInterface};
use voyager_message::module::{
    ChainModuleInfo, ClientModuleInfo, ConsensusModuleInfo, ModuleKindInfo, PluginInfo,
};

fn chain(id: &str) -> ModuleKindInfo {
    ModuleKindInfo::Chain(ChainModuleInfo { chain_id: ChainId::new(id) })
}

fn consensus(id: &str, ty: &str) -> ModuleKindInfo {
    ModuleKindInfo::Consensus(ConsensusModuleInfo {
        chain_id: ChainId::new(id),
        consensus_type: ConsensusType::new(ty),
    })
}

fn client(ct: &str, cons: &str, ii: &str) -> ModuleKindInfo {
    ModuleKindInfo::Client(ClientModuleInfo {
        client_type: ClientType::new(ct),
        consensus_type: ConsensusType::new(cons),
        ibc_interface: IbcInterface::new(ii),
    })
}

fn plugin(name: &str, filter: &str) -> ModuleKindInfo {
    ModuleKindInfo::Plugin(PluginInfo {
        name: name.to_string(),
        interest_filter: filter.to_string(),
    })
}

fn sample() -> Vec<ModuleKindInfo> {
    vec![
        chain("union-1"),
        chain("ethereum-1"),
        consensus("union-1", "cometbls"),
        client("cometbls", "cometbls", "ibc-solidity"),
        client("cometbls", "cometbls", "ibc-cosmwasm"),
        client("ethereum", "ethereum", "ibc-go-v8/08-wasm"),
        plugin("transaction-batch", "true"),
    ]
}

#[test]
fn module_names() {
    assert_eq!(chain("union-1").name(), "chain/union-1");
    assert_eq!(consensus("union-1", "cometbls").name(), "consensus/union-1/cometbls");
    assert_eq!(
        client("cometbls", "tendermint", "ibc-solidity").name(),
        "client/cometbls/tendermint/ibc-solidity"
    );
    assert_eq!(plugin("p", "f").name(), "p");
}

#[test]
fn registered_modules_are_found() {
    let ctx = Context::from_module_infos(&sample()).unwrap();
    let modules = ctx.modules();
    assert_eq!(modules.chain_module(&ChainId::new("union-1")).unwrap().name(), "chain/union-1");
    assert_eq!(
        modules.chain_module(&ChainId::new("ethereum-1")).unwrap().name(),
        "chain/ethereum-1"
    );
    assert_eq!(
        modules.consensus_module(&ChainId::new("union-1")).unwrap().name(),
        "consensus/union-1/cometbls"
    );
    assert_eq!(
        modules.chain_consensus_type(&ChainId::new("union-1")).unwrap(),
        &ConsensusType::new("cometbls")
    );
    assert_eq!(
        modules
            .client_module(&ClientType::new("cometbls"), &IbcInterface::new("ibc-cosmwasm"))
            .unwrap()
            .name(),
        "client/cometbls/cometbls/ibc-cosmwasm"
    );
    assert_eq!(
        modules.client_consensus_type(&ClientType::new("ethereum")).unwrap(),
        &ConsensusType::new("ethereum")
    );
    assert_eq!(ctx.plugin("transaction-batch").unwrap().name(), "transaction-batch");
    assert_eq!(ctx.plugin_client_raw("chain/union-1").unwrap().name(), "chain/union-1");
    assert_eq!(ctx.tags(), vec!["transaction-batch"]);
}

#[test]
fn missing_modules_give_their_errors() {
    let ctx = Context::from_module_infos(&sample()).unwrap();
    let modules = ctx.modules();
    let e = modules.chain_module(&ChainId::new("osmosis-1")).unwrap_err();
    assert_eq!(e.0, ChainId::new("osmosis-1"));
    assert_eq!(e.message(), "no module loaded for chain `osmosis-1`");
    let e = modules.consensus_module(&ChainId::new("ethereum-1")).unwrap_err();
    assert_eq!(e.message(), "no module loaded for consensus on chain `ethereum-1`");
    let e = modules.chain_consensus_type(&ChainId::new("ethereum-1")).unwrap_err();
    assert_eq!(e.0, ChainId::new("ethereum-1"));
    let e = modules
        .client_module(&ClientType::new("cometbls"), &IbcInterface::new("ibc-go"))
        .unwrap_err();
    assert_eq!(
        e,
        ClientModuleNotFound::IbcInterfaceNotFound {
            client_type: ClientType::new("cometbls"),
            ibc_interface: IbcInterface::new("ibc-go"),
        }
    );
    assert_eq!(
        e.message(),
        "no module loaded supporting IBC interface `cometbls` and client type `ibc-go`"
    );
    let e = modules
        .client_module(&ClientType::new("tendermint"), &IbcInterface::new("ibc-go"))
        .unwrap_err();
    assert_eq!(
        e,
        ClientModuleNotFound::ClientTypeNotFound { client_type: ClientType::new("tendermint") }
    );
    assert_eq!(e.message(), "no module loaded for client type `tendermint`");
    let e = modules.client_consensus_type(&ClientType::new("tendermint")).unwrap_err();
    assert_eq!(
        e,
        ClientModuleNotFound::ClientTypeNotFound { client_type: ClientType::new("tendermint") }
    );
    let e = ctx.plugin("nope").unwrap_err();
    assert_eq!(e, PluginNotFound { name: "nope".to_string() });
    assert_eq!(e.message(), "plugin `nope` not found");
}

#[test]
fn duplicate_chain_module_is_refused() {
    let e = Context::from_module_infos(&vec![chain("union-1"), chain("union-1")]).unwrap_err();
    assert_eq!(e, "multiple chain modules configured for chain id `union-1`");
}

#[test]
fn duplicate_consensus_module_is_refused() {
    let e = Context::from_module_infos(&vec![
        consensus("union-1", "cometbls"),
        consensus("union-1", "tendermint"),
    ])
    .unwrap_err();
    assert_eq!(e, "multiple consensus modules configured for chain id `union-1`");
}

#[test]
fn duplicate_client_module_is_refused() {
    let e = Context::from_module_infos(&vec![
        client("cometbls", "cometbls", "ibc-solidity"),
        client("cometbls", "cometbls", "ibc-solidity"),
    ])
    .unwrap_err();
    assert_eq!(
        e,
        "multiple client modules configured for client type `cometbls` and IBC interface `ibc-solidity`"
    );
}

#[test]
fn inconsistent_client_consensus_type_is_refused() {
    let e = Context::from_module_infos(&vec![
        client("cometbls", "cometbls", "ibc-solidity"),
        client("cometbls", "tendermint", "ibc-cosmwasm"),
    ])
    .unwrap_err();
    assert_eq!(
        e,
        "inconsistency in client consensus types: client type `cometbls` is registered as tracking both `cometbls` and `tendermint`"
    );
}

#[test]
fn first_refusal_wins() {
    let e = Context::from_module_infos(&vec![
        chain("a"),
        consensus("b", "x"),
        chain("a"),
        consensus("b", "y"),
    ])
    .unwrap_err();
    assert_eq!(e, "multiple chain modules configured for chain id `a`");
}

#[test]
fn refused_registration_changes_nothing() {
    let mut ctx = Context::from_module_infos(&vec![chain("a"), plugin("p", "f1")]).unwrap();
    assert!(ctx.register(&chain("a")).is_err());
    assert_eq!(ctx.modules().info().chain.len(), 1);
    assert!(ctx.plugin("chain/a").is_ok());
    assert_eq!(ctx.tags(), vec!["p"]);
}

#[test]
fn plugin_registered_twice_keeps_last_filter() {
    let ctx = Context::from_module_infos(&vec![plugin("p", "f1"), plugin("p", "f2")]).unwrap();
    let filters = ctx.interest_filters();
    assert_eq!(filters.len(), 1);
    assert_eq!(filters.key(0), "p");
    assert_eq!(filters.value(0), "f2");
}

#[test]
fn info_lists_every_module_once() {
    let ctx = Context::from_module_infos(&sample()).unwrap();
    let info = ctx.modules().info();
    let mut chains: Vec<String> = info.chain.iter().map(|c| c.chain_id.0.clone()).collect();
    chains.sort();
    assert_eq!(chains, vec!["ethereum-1".to_string(), "union-1".to_string()]);
    assert_eq!(
        info.consensus,
        vec![ConsensusModuleInfo {
            chain_id: ChainId::new("union-1"),
            consensus_type: ConsensusType::new("cometbls"),
        }]
    );
    let mut clients: Vec<(String, String, String)> = info
        .client
        .iter()
        .map(|c| (c.client_type.0.clone(), c.consensus_type.0.clone(), c.ibc_interface.0.clone()))
        .collect();
    clients.sort();
    assert_eq!(
        clients,
        vec![
            ("cometbls".to_string(), "cometbls".to_string(), "ibc-cosmwasm".to_string()),
            ("cometbls".to_string(), "cometbls".to_string(), "ibc-solidity".to_string()),
            ("ethereum".to_string(), "ethereum".to_string(), "ibc-go-v8/08-wasm".to_string()),
        ]
    );
}

#[test]
fn empty_context_has_nothing() {
    let ctx = Context::empty();
    let info = ctx.modules().info();
    assert!(info.chain.is_empty() && info.consensus.is_empty() && info.client.is_empty());
    assert!(ctx.tags().is_empty());
    assert!(Context::from_module_infos(&vec![]).is_ok());
}

#[test]
fn every_module_is_reachable_by_name() {
    let ctx = Context::from_module_infos(&sample()).unwrap();
    for kind in sample() {
        let name = kind.name();
        assert_eq!(ctx.plugin(&name).unwrap().name(), name);
    }
}

#[test]
fn interest_filters_belong_to_modules() {
    let ctx = Context::from_module_infos(&sample()).unwrap();
    for tag in ctx.tags() {
        assert!(ctx.plugin(tag).is_ok());
    }
}
