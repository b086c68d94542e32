use crate::ids::{ChainId, ClientType, ConsensusType, IbcInterface};
use crate::module::{
    module_name, ChainModuleInfo, ClientModuleInfo, ConsensusModuleInfo, ModuleKindInfo,
};
use crate::process::{client_socket_path, make_module_client_socket_path};
use crate::strmap::StrMap;
use vstd::prelude::*;
use vstd::string::*;

verus! {

/// The handle of a loaded module: the host reaches it by its name, over the
/// socket that the name determines.
#[derive(Debug, PartialEq, Eq)]
pub struct ModuleRpcClient {
    name: String,
}

impl View for ModuleRpcClient {
    type V = Seq<char>;

    /// The name of the module.
    closed spec fn view(&self) -> Seq<char> {
        self.name@
    }
}

impl Clone for ModuleRpcClient {
    fn clone(&self) -> (r: Self)
        ensures
            r@ == self@,
    {
        ModuleRpcClient { name: self.name.clone() }
    }
}

impl ModuleRpcClient {
    /// The handle of the module called `name`.
    pub fn new(name: &str) -> (c: Self)
        ensures
            c@ == name@,
    {
        ModuleRpcClient { name: name.to_owned() }
    }

    /// The socket on which the module called `name` serves the host.
    pub fn make_socket_path(name: &str) -> (path: String)
        ensures
            path@ == client_socket_path(name@),
            path@.len() == 92,
    {
        make_module_client_socket_path(name)
    }

    /// The name of the module.
    pub fn name(&self) -> (name: &str)
        ensures
            name@ == self@,
    {
        self.name.as_str()
    }

    /// The socket on which this module serves the host.
    pub fn socket_path(&self) -> (path: String)
        ensures
            path@ == client_socket_path(self@),
            path@.len() == 92,
    {
        make_module_client_socket_path(self.name.as_str())
    }
}

/// No chain module is loaded for this chain.
#[derive(Debug, PartialEq, Eq)]
pub struct ChainModuleNotFound(pub ChainId);

/// No consensus module is loaded for this chain.
#[derive(Debug, PartialEq, Eq)]
pub struct ConsensusModuleNotFound(pub ChainId);

/// No client module is loaded for this client type, or none for this client
/// type on this IBC interface.
#[derive(Debug, PartialEq, Eq)]
pub enum ClientModuleNotFound {
    ClientTypeNotFound { client_type: ClientType },
    IbcInterfaceNotFound { client_type: ClientType, ibc_interface: IbcInterface },
}

/// No plugin is loaded under this name.
#[derive(Debug, PartialEq, Eq)]
pub struct PluginNotFound {
    pub name: String,
}

impl ChainModuleNotFound {
    /// The message that describes the error.
    pub fn message(&self) -> (m: String)
        ensures
            m@ == "no module loaded for chain `"@ + self.0@ + "`"@,
    {
        let mut m = String::from_str("no module loaded for chain `");
        m.append(self.0.as_str());
        m.append("`");
        m
    }
}

impl ConsensusModuleNotFound {
    /// The message that describes the error.
    pub fn message(&self) -> (m: String)
        ensures
            m@ == "no module loaded for consensus on chain `"@ + self.0@ + "`"@,
    {
        let mut m = String::from_str("no module loaded for consensus on chain `");
        m.append(self.0.as_str());
        m.append("`");
        m
    }
}

impl ClientModuleNotFound {
    /// The message that describes the error. The second variant names the
    /// client type where it speaks of the IBC interface, and the other way
    /// round.
    pub fn message(&self) -> (m: String)
        ensures
            m@ == match *self {
                ClientModuleNotFound::ClientTypeNotFound { client_type } =>
                    "no module loaded for client type `"@ + client_type@ + "`"@,
                ClientModuleNotFound::IbcInterfaceNotFound { client_type, ibc_interface } =>
                    "no module loaded supporting IBC interface `"@ + client_type@
                        + "` and client type `"@ + ibc_interface@ + "`"@,
            },
    {
        match self {
            ClientModuleNotFound::ClientTypeNotFound { client_type } => {
                let mut m = String::from_str("no module loaded for client type `");
                m.append(client_type.as_str());
                m.append("`");
                m
            },
            ClientModuleNotFound::IbcInterfaceNotFound { client_type, ibc_interface } => {
                let mut m = String::from_str("no module loaded supporting IBC interface `");
                m.append(client_type.as_str());
                m.append("` and client type `");
                m.append(ibc_interface.as_str());
                m.append("`");
                m
            },
        }
    }
}

impl PluginNotFound {
    /// The message that describes the error.
    pub fn message(&self) -> (m: String)
        ensures
            m@ == "plugin `"@ + self.name@ + "` not found"@,
    {
        let mut m = String::from_str("plugin `");
        m.append(self.name.as_str());
        m.append("` not found");
        m
    }
}

/// What the loaded modules are, by the keys they serve. Modules are given by
/// their names.
#[verifier::ext_equal]
pub struct ModulesView {
    /// Chain id to chain module.
    pub chain_modules: Map<Seq<char>, Seq<char>>,
    /// Chain id to consensus module.
    pub consensus_modules: Map<Seq<char>, Seq<char>>,
    /// Client type and IBC interface to client module.
    pub client_modules: Map<(Seq<char>, Seq<char>), Seq<char>>,
    /// Chain id to the consensus type of its consensus module.
    pub chain_consensus_types: Map<Seq<char>, Seq<char>>,
    /// Client type to the consensus type its client modules track.
    pub client_consensus_types: Map<Seq<char>, Seq<char>>,
}

/// Each chain with a consensus module has its consensus type recorded and no
/// other has, and each client type with a client module has the consensus type
/// it tracks recorded and no other has.
pub open spec fn modules_consistent(v: ModulesView) -> bool {
    &&& v.consensus_modules.dom() == v.chain_consensus_types.dom()
    &&& forall|ct: Seq<char>|
        #[trigger] v.client_consensus_types.dom().contains(ct) <==> exists|ii: Seq<char>|
            #[trigger] v.client_modules.dom().contains((ct, ii))
}

/// The modules that the host has loaded, by the keys they serve.
#[derive(Debug, Clone)]
pub struct Modules {
    chain_modules: StrMap<ModuleRpcClient>,
    consensus_modules: StrMap<ModuleRpcClient>,
    client_modules: StrMap<StrMap<ModuleRpcClient>>,
    chain_consensus_types: StrMap<ConsensusType>,
    client_consensus_types: StrMap<ConsensusType>,
}

impl View for Modules {
    type V = ModulesView;

    closed spec fn view(&self) -> ModulesView {
        ModulesView {
            chain_modules: self.chain_modules.view().map_values(|c: ModuleRpcClient| c@),
            consensus_modules: self.consensus_modules.view().map_values(|c: ModuleRpcClient| c@),
            client_modules: Map::new(
                |p: (Seq<char>, Seq<char>)|
                    self.client_modules.view().dom().contains(p.0) && self.client_modules.view()[p.0].view().dom().contains(
                        p.1,
                    ),
                |p: (Seq<char>, Seq<char>)| self.client_modules.view()[p.0].view()[p.1]@,
            ),
            chain_consensus_types: self.chain_consensus_types.view().map_values(
                |t: ConsensusType| t@,
            ),
            client_consensus_types: self.client_consensus_types.view().map_values(
                |t: ConsensusType| t@,
            ),
        }
    }
}

impl Modules {
    /// The maps hold no key twice, each client type maps to a non-empty map of
    /// IBC interfaces, and the consensus types are recorded for exactly the
    /// chains and client types that have modules.
    pub closed spec fn wf(&self) -> bool {
        &&& self.chain_modules.wf()
        &&& self.consensus_modules.wf()
        &&& self.client_modules.wf()
        &&& self.chain_consensus_types.wf()
        &&& self.client_consensus_types.wf()
        &&& forall|ct: Seq<char>| #[trigger]
            self.client_modules.view().dom().contains(ct) ==> self.client_modules.view()[ct].wf()
                && self.client_modules.view()[ct].size() > 0
        &&& self.consensus_modules.view().dom() == self.chain_consensus_types.view().dom()
        &&& self.client_modules.view().dom() == self.client_consensus_types.view().dom()
    }

    /// Loaded modules are consistent: consensus types are recorded for exactly
    /// the chains with a consensus module and the client types with a client
    /// module.
    pub proof fn law_consistent(&self)
        requires
            self.wf(),
        ensures
            modules_consistent(self@),
    {
        let v = self@;
        assert(v.consensus_modules.dom() =~= v.chain_consensus_types.dom());
        assert forall|ct: Seq<char>| #[trigger]
            v.client_consensus_types.dom().contains(ct) <==> exists|ii: Seq<char>|
                #[trigger] v.client_modules.dom().contains((ct, ii)) by {
            if v.client_consensus_types.dom().contains(ct) {
                let inner = self.client_modules.view()[ct];
                inner.lemma_entries();
                assert(inner.view().dom().contains(inner.key_at(0)));
                assert(v.client_modules.dom().contains((ct, inner.key_at(0))));
            }
        }
    }

    /// No module loaded.
    pub fn new() -> (m: Self)
        ensures
            m.wf(),
            m@.chain_modules == Map::<Seq<char>, Seq<char>>::empty(),
            m@.consensus_modules == Map::<Seq<char>, Seq<char>>::empty(),
            m@.client_modules == Map::<(Seq<char>, Seq<char>), Seq<char>>::empty(),
            m@.chain_consensus_types == Map::<Seq<char>, Seq<char>>::empty(),
            m@.client_consensus_types == Map::<Seq<char>, Seq<char>>::empty(),
    {
        let m = Modules {
            chain_modules: StrMap::new(),
            consensus_modules: StrMap::new(),
            client_modules: StrMap::new(),
            chain_consensus_types: StrMap::new(),
            client_consensus_types: StrMap::new(),
        };
        assert(m@.chain_modules =~= Map::<Seq<char>, Seq<char>>::empty());
        assert(m@.consensus_modules =~= Map::<Seq<char>, Seq<char>>::empty());
        assert(m@.client_modules =~= Map::<(Seq<char>, Seq<char>), Seq<char>>::empty());
        assert(m@.chain_consensus_types =~= Map::<Seq<char>, Seq<char>>::empty());
        assert(m@.client_consensus_types =~= Map::<Seq<char>, Seq<char>>::empty());
        m
    }

    /// The consensus type of the consensus module loaded for `chain_id`.
    pub fn chain_consensus_type(&self, chain_id: &ChainId) -> (r: Result<
        &ConsensusType,
        ConsensusModuleNotFound,
    >)
        requires
            self.wf(),
        ensures
            r is Ok <==> self@.chain_consensus_types.dom().contains(chain_id@),
            r matches Ok(t) ==> t@ == self@.chain_consensus_types[chain_id@],
            r matches Err(e) ==> e.0@ == chain_id@,
    {
        match self.chain_consensus_types.get(&chain_id.0) {
            Some(t) => Ok(t),
            None => Err(ConsensusModuleNotFound(chain_id.clone())),
        }
    }

    /// The consensus type that the client modules for `client_type` track.
    pub fn client_consensus_type(&self, client_type: &ClientType) -> (r: Result<
        &ConsensusType,
        ClientModuleNotFound,
    >)
        requires
            self.wf(),
        ensures
            r is Ok <==> self@.client_consensus_types.dom().contains(client_type@),
            r matches Ok(t) ==> t@ == self@.client_consensus_types[client_type@],
            r matches Err(e) ==> e == (ClientModuleNotFound::ClientTypeNotFound {
                client_type: *client_type,
            }),
    {
        match self.client_consensus_types.get(&client_type.0) {
            Some(t) => Ok(t),
            None => Err(ClientModuleNotFound::ClientTypeNotFound { client_type: client_type.clone() }),
        }
    }

    /// The chain module loaded for `chain_id`.
    pub fn chain_module(&self, chain_id: &ChainId) -> (r: Result<
        &ModuleRpcClient,
        ChainModuleNotFound,
    >)
        requires
            self.wf(),
        ensures
            r is Ok <==> self@.chain_modules.dom().contains(chain_id@),
            r matches Ok(c) ==> c@ == self@.chain_modules[chain_id@],
            r matches Err(e) ==> e.0@ == chain_id@,
    {
        match self.chain_modules.get(&chain_id.0) {
            Some(c) => Ok(c),
            None => Err(ChainModuleNotFound(chain_id.clone())),
        }
    }

    /// The consensus module loaded for `chain_id`.
    pub fn consensus_module(&self, chain_id: &ChainId) -> (r: Result<
        &ModuleRpcClient,
        ConsensusModuleNotFound,
    >)
        requires
            self.wf(),
        ensures
            r is Ok <==> self@.consensus_modules.dom().contains(chain_id@),
            r matches Ok(c) ==> c@ == self@.consensus_modules[chain_id@],
            r matches Err(e) ==> e.0@ == chain_id@,
    {
        match self.consensus_modules.get(&chain_id.0) {
            Some(c) => Ok(c),
            None => Err(ConsensusModuleNotFound(chain_id.clone())),
        }
    }

    /// The client module loaded for `client_type` on `ibc_interface`; the error
    /// says whether no module at all is loaded for the client type.
    pub fn client_module(&self, client_type: &ClientType, ibc_interface: &IbcInterface) -> (r:
        Result<&ModuleRpcClient, ClientModuleNotFound>)
        requires
            self.wf(),
        ensures
            r is Ok <==> self@.client_modules.dom().contains((client_type@, ibc_interface@)),
            r matches Ok(c) ==> c@ == self@.client_modules[(client_type@, ibc_interface@)],
            r matches Err(e) ==> if self@.client_consensus_types.dom().contains(client_type@) {
                e == (ClientModuleNotFound::IbcInterfaceNotFound {
                    client_type: *client_type,
                    ibc_interface: *ibc_interface,
                })
            } else {
                e == (ClientModuleNotFound::ClientTypeNotFound { client_type: *client_type })
            },
    {
        match self.client_modules.get(&client_type.0) {
            Some(ibc_interfaces) => match ibc_interfaces.get(&ibc_interface.0) {
                Some(client_module) => Ok(client_module),
                None => Err(
                    ClientModuleNotFound::IbcInterfaceNotFound {
                        client_type: client_type.clone(),
                        ibc_interface: ibc_interface.clone(),
                    },
                ),
            },
            None => Err(ClientModuleNotFound::ClientTypeNotFound { client_type: client_type.clone() }),
        }
    }
}


/// What the host knows of its modules: the loaded modules by the keys they
/// serve, every module by its name, and the interest filter of each plugin.
#[verifier::ext_equal]
pub struct ContextView {
    pub modules: ModulesView,
    /// Module name to the module of that name.
    pub plugins: Map<Seq<char>, Seq<char>>,
    /// Plugin name to the plugin's interest filter.
    pub interest_filters: Map<Seq<char>, Seq<char>>,
}

/// The state before any module is registered.
pub open spec fn empty_context_view() -> ContextView {
    ContextView {
        modules: ModulesView {
            chain_modules: Map::empty(),
            consensus_modules: Map::empty(),
            client_modules: Map::empty(),
            chain_consensus_types: Map::empty(),
            client_consensus_types: Map::empty(),
        },
        plugins: Map::empty(),
        interest_filters: Map::empty(),
    }
}

/// The error for a second chain module for one chain.
pub open spec fn duplicate_chain_message(chain_id: Seq<char>) -> Seq<char> {
    "multiple chain modules configured for chain id `"@ + chain_id + "`"@
}

/// The error for a second client module for one client type and IBC interface.
pub open spec fn duplicate_client_message(client_type: Seq<char>, ibc_interface: Seq<char>) -> Seq<
    char,
> {
    "multiple client modules configured for client type `"@ + client_type
        + "` and IBC interface `"@ + ibc_interface + "`"@
}

/// The error for client modules of one client type that track different
/// consensus types.
pub open spec fn inconsistent_client_message(
    client_type: Seq<char>,
    previous: Seq<char>,
    consensus_type: Seq<char>,
) -> Seq<char> {
    "inconsistency in client consensus types: client type `"@ + client_type
        + "` is registered as tracking both `"@ + previous + "` and `"@ + consensus_type + "`"@
}

/// The error for a second consensus module for one chain.
pub open spec fn duplicate_consensus_message(chain_id: Seq<char>) -> Seq<char> {
    "multiple consensus modules configured for chain id `"@ + chain_id + "`"@
}

/// Registering one module: every module becomes reachable by its name, a plugin
/// records its interest filter, and the other kinds take the keys they serve.
/// A chain or consensus module for a chain that already has one, a client
/// module for a client type and IBC interface that already have one, and a
/// client module whose consensus type differs from the one recorded for its
/// client type are refused with their error.
pub open spec fn register_spec(v: ContextView, kind: ModuleKindInfo) -> Result<
    ContextView,
    Seq<char>,
> {
    let name = module_name(kind);
    let plugins = v.plugins.insert(name, name);
    let m = v.modules;
    match kind {
        ModuleKindInfo::Plugin(p) => Ok(
            ContextView {
                plugins,
                interest_filters: v.interest_filters.insert(p.name@, p.interest_filter@),
                ..v
            },
        ),
        ModuleKindInfo::Chain(c) => if m.chain_modules.dom().contains(c.chain_id@) {
            Err(duplicate_chain_message(c.chain_id@))
        } else {
            Ok(
                ContextView {
                    plugins,
                    modules: ModulesView {
                        chain_modules: m.chain_modules.insert(c.chain_id@, name),
                        ..m
                    },
                    ..v
                },
            )
        },
        ModuleKindInfo::Client(c) => if m.client_modules.dom().contains(
            (c.client_type@, c.ibc_interface@),
        ) {
            Err(duplicate_client_message(c.client_type@, c.ibc_interface@))
        } else if m.client_consensus_types.dom().contains(c.client_type@)
            && m.client_consensus_types[c.client_type@] != c.consensus_type@ {
            Err(
                inconsistent_client_message(
                    c.client_type@,
                    m.client_consensus_types[c.client_type@],
                    c.consensus_type@,
                ),
            )
        } else {
            Ok(
                ContextView {
                    plugins,
                    modules: ModulesView {
                        client_modules: m.client_modules.insert(
                            (c.client_type@, c.ibc_interface@),
                            name,
                        ),
                        client_consensus_types: m.client_consensus_types.insert(
                            c.client_type@,
                            c.consensus_type@,
                        ),
                        ..m
                    },
                    ..v
                },
            )
        },
        ModuleKindInfo::Consensus(c) => if m.consensus_modules.dom().contains(c.chain_id@) {
            Err(duplicate_consensus_message(c.chain_id@))
        } else {
            Ok(
                ContextView {
                    plugins,
                    modules: ModulesView {
                        consensus_modules: m.consensus_modules.insert(c.chain_id@, name),
                        chain_consensus_types: m.chain_consensus_types.insert(
                            c.chain_id@,
                            c.consensus_type@,
                        ),
                        ..m
                    },
                    ..v
                },
            )
        },
    }
}

/// Registering modules one after the other, stopping at the first refusal.
pub open spec fn register_all_spec(v: ContextView, kinds: Seq<ModuleKindInfo>) -> Result<
    ContextView,
    Seq<char>,
>
    decreases kinds.len(),
{
    if kinds.len() == 0 {
        Ok(v)
    } else {
        match register_all_spec(v, kinds.drop_last()) {
            Ok(w) => register_spec(w, kinds.last()),
            Err(e) => Err(e),
        }
    }
}

/// The modules the host has registered, every module by its name, and the
/// interest filters of the plugins.
#[derive(Debug)]
pub struct Context {
    modules: Modules,
    plugins: StrMap<ModuleRpcClient>,
    interest_filters: StrMap<String>,
}

impl View for Context {
    type V = ContextView;

    closed spec fn view(&self) -> ContextView {
        ContextView {
            modules: self.modules@,
            plugins: self.plugins.view().map_values(|c: ModuleRpcClient| c@),
            interest_filters: self.interest_filters.view().map_values(|f: String| f@),
        }
    }
}

fn text_between(prefix: &str, middle: &str, suffix: &str) -> (s: String)
    ensures
        s@ == prefix@ + middle@ + suffix@,
{
    let mut s = String::from_str(prefix);
    s.append(middle);
    s.append(suffix);
    s
}

impl Context {
    /// Its maps hold no key twice and its modules are consistent.
    pub closed spec fn wf(&self) -> bool {
        &&& self.modules.wf()
        &&& self.plugins.wf()
        &&& self.interest_filters.wf()
    }

    /// No module registered.
    pub fn empty() -> (c: Self)
        ensures
            c.wf(),
            c@ == empty_context_view(),
    {
        let c = Context {
            modules: Modules::new(),
            plugins: StrMap::new(),
            interest_filters: StrMap::new(),
        };
        assert(c@.plugins =~= Map::<Seq<char>, Seq<char>>::empty());
        assert(c@.interest_filters =~= Map::<Seq<char>, Seq<char>>::empty());
        assert(c@ =~= empty_context_view());
        c
    }

    /// The loaded modules.
    pub fn modules(&self) -> (m: &Modules)
        requires
            self.wf(),
        ensures
            m.wf(),
            m@ == self@.modules,
    {
        &self.modules
    }

    /// Registers the module that describes itself as `kind`. A refused module
    /// leaves everything as it was.
    pub fn register(&mut self, kind: &ModuleKindInfo) -> (r: Result<(), String>)
        requires
            old(self).wf(),
        ensures
            final(self).wf(),
            match register_spec(old(self)@, *kind) {
                Ok(v) => r is Ok && final(self)@ == v,
                Err(m) => (r matches Err(e) && e@ == m) && final(self)@ == old(self)@,
            },
    {
        let ghost pre = self@;
        let name = kind.name();
        match kind {
            ModuleKindInfo::Plugin(p) => {
                let client = ModuleRpcClient::new(name.as_str());
                self.plugins.insert(name.clone(), client.clone());
                self.plugins.insert(p.name.clone(), client);
                self.interest_filters.insert(p.name.clone(), p.interest_filter.clone());
                assert(self@.plugins =~= pre.plugins.insert(name@, name@));
                assert(self@.interest_filters =~= pre.interest_filters.insert(
                    p.name@,
                    p.interest_filter@,
                ));
                assert(self@ =~= register_spec(pre, *kind)->Ok_0);
                Ok(())
            },
            ModuleKindInfo::Chain(c) => {
                if self.modules.chain_modules.get(&c.chain_id.0).is_some() {
                    return Err(
                        text_between(
                            "multiple chain modules configured for chain id `",
                            c.chain_id.as_str(),
                            "`",
                        ),
                    );
                }
                let client = ModuleRpcClient::new(name.as_str());
                self.plugins.insert(name.clone(), client.clone());
                self.modules.chain_modules.insert(c.chain_id.0.clone(), client);
                assert(self@.plugins =~= pre.plugins.insert(name@, name@));
                assert(self@.modules.chain_modules =~= pre.modules.chain_modules.insert(
                    c.chain_id@,
                    name@,
                ));
                assert(self@.modules =~= register_spec(pre, *kind)->Ok_0.modules);
                assert(self@ =~= register_spec(pre, *kind)->Ok_0);
                Ok(())
            },
            ModuleKindInfo::Client(c) => {
                let duplicate = match self.modules.client_modules.get(&c.client_type.0) {
                    Some(ibc_interfaces) => ibc_interfaces.get(&c.ibc_interface.0).is_some(),
                    None => false,
                };
                if duplicate {
                    let mut m = String::from_str(
                        "multiple client modules configured for client type `",
                    );
                    m.append(c.client_type.as_str());
                    m.append("` and IBC interface `");
                    m.append(c.ibc_interface.as_str());
                    m.append("`");
                    return Err(m);
                }
                match self.modules.client_consensus_types.get(&c.client_type.0) {
                    Some(previous) => {
                        if !(previous.0 == c.consensus_type.0) {
                            let mut m = String::from_str(
                                "inconsistency in client consensus types: client type `",
                            );
                            m.append(c.client_type.as_str());
                            m.append("` is registered as tracking both `");
                            m.append(previous.as_str());
                            m.append("` and `");
                            m.append(c.consensus_type.as_str());
                            m.append("`");
                            return Err(m);
                        }
                    },
                    None => {},
                }
                let ghost old_modules = self.modules;
                let client = ModuleRpcClient::new(name.as_str());
                self.plugins.insert(name.clone(), client.clone());
                let mut ibc_interfaces = match self.modules.client_modules.insert(
                    c.client_type.0.clone(),
                    StrMap::new(),
                ) {
                    Some(existing) => existing,
                    None => StrMap::new(),
                };
                ibc_interfaces.insert(c.ibc_interface.0.clone(), client);
                let ghost inner = ibc_interfaces;
                self.modules.client_modules.insert(c.client_type.0.clone(), ibc_interfaces);
                self.modules.client_consensus_types.insert(
                    c.client_type.0.clone(),
                    c.consensus_type.clone(),
                );
                proof {
                    let ct = c.client_type@;
                    let ii = c.ibc_interface@;
                    inner.lemma_entries();
                    assert(inner.view().dom().contains(ii));
                    assert(self.modules.client_modules.view() =~= old_modules.client_modules.view().insert(ct, inner));
                    assert(self.modules.wf());
                    assert(self@.plugins =~= pre.plugins.insert(name@, name@));
                    assert(self@.modules.client_modules =~= pre.modules.client_modules.insert(
                        (ct, ii),
                        name@,
                    ));
                    assert(self@.modules.client_consensus_types =~= pre.modules.client_consensus_types.insert(
                        ct,
                        c.consensus_type@,
                    ));
                    assert(self@.modules =~= register_spec(pre, *kind)->Ok_0.modules);
                    assert(self@ =~= register_spec(pre, *kind)->Ok_0);
                }
                Ok(())
            },
            ModuleKindInfo::Consensus(c) => {
                if self.modules.consensus_modules.get(&c.chain_id.0).is_some() {
                    return Err(
                        text_between(
                            "multiple consensus modules configured for chain id `",
                            c.chain_id.as_str(),
                            "`",
                        ),
                    );
                }
                let client = ModuleRpcClient::new(name.as_str());
                self.plugins.insert(name.clone(), client.clone());
                self.modules.consensus_modules.insert(c.chain_id.0.clone(), client);
                let previous = self.modules.chain_consensus_types.insert(
                    c.chain_id.0.clone(),
                    c.consensus_type.clone(),
                );
                assert(previous is None);
                assert(self@.plugins =~= pre.plugins.insert(name@, name@));
                assert(self@.modules.consensus_modules =~= pre.modules.consensus_modules.insert(
                    c.chain_id@,
                    name@,
                ));
                assert(self@.modules.chain_consensus_types =~= pre.modules.chain_consensus_types.insert(
                    c.chain_id@,
                    c.consensus_type@,
                ));
                assert(self@.modules =~= register_spec(pre, *kind)->Ok_0.modules);
                assert(self@ =~= register_spec(pre, *kind)->Ok_0);
                Ok(())
            },
        }
    }

    /// Registers the modules that describe themselves as `kinds`, in their
    /// order, and fails with the error of the first one that is refused.
    pub fn from_module_infos(kinds: &Vec<ModuleKindInfo>) -> (r: Result<Context, String>)
        ensures
            match register_all_spec(empty_context_view(), kinds@) {
                Ok(v) => (r matches Ok(c) && c.wf() && c@ == v),
                Err(m) => (r matches Err(e) && e@ == m),
            },
    {
        let mut ctx = Context::empty();
        let n = kinds.len();
        let mut i: usize = 0;
        while i < n
            invariant
                n == kinds@.len(),
                i <= n,
                ctx.wf(),
                register_all_spec(empty_context_view(), kinds@.subrange(0, i as int)) == Ok::<
                    ContextView,
                    Seq<char>,
                >(ctx@),
            decreases n - i,
        {
            let ghost before = ctx@;
            let step = ctx.register(&kinds[i]);
            proof {
                let pre = kinds@.subrange(0, i as int + 1);
                assert(pre.drop_last() =~= kinds@.subrange(0, i as int));
                assert(pre.last() == kinds@[i as int]);
            }
            match step {
                Ok(()) => {},
                Err(e) => {
                    proof {
                        lemma_register_all_stays_refused(kinds@, i as int + 1);
                    }
                    return Err(e);
                },
            }
            i = i + 1;
        }
        assert(kinds@.subrange(0, n as int) =~= kinds@);
        Ok(ctx)
    }

    /// The module registered under `name`.
    pub fn plugin(&self, name: &str) -> (r: Result<&ModuleRpcClient, PluginNotFound>)
        requires
            self.wf(),
        ensures
            r is Ok <==> self@.plugins.dom().contains(name@),
            r matches Ok(c) ==> c@ == self@.plugins[name@],
            r matches Err(e) ==> e.name@ == name@,
    {
        self.plugin_client_raw(name)
    }

    /// The module registered under `name`.
    pub fn plugin_client_raw(&self, name: &str) -> (r: Result<&ModuleRpcClient, PluginNotFound>)
        requires
            self.wf(),
        ensures
            r is Ok <==> self@.plugins.dom().contains(name@),
            r matches Ok(c) ==> c@ == self@.plugins[name@],
            r matches Err(e) ==> e.name@ == name@,
    {
        let key = name.to_owned();
        match self.plugins.get(&key) {
            Some(c) => Ok(c),
            None => Err(PluginNotFound { name: key }),
        }
    }

    /// The interest filter of each plugin, by the plugin's name.
    pub fn interest_filters(&self) -> (filters: &StrMap<String>)
        requires
            self.wf(),
        ensures
            filters.wf(),
            filters.view().map_values(|f: String| f@) == self@.interest_filters,
    {
        &self.interest_filters
    }

    /// The names of the plugins that have an interest filter, each once.
    pub fn tags(&self) -> (tags: Vec<&str>)
        requires
            self.wf(),
        ensures
            forall|i: int|
                0 <= i < tags@.len() ==> self@.interest_filters.dom().contains(#[trigger] tags@[i]@),
            forall|k: Seq<char>|
                #[trigger] self@.interest_filters.dom().contains(k) ==> exists|i: int|
                    0 <= i < tags@.len() && #[trigger] tags@[i]@ == k,
            forall|i: int, j: int|
                0 <= i < j < tags@.len() ==> #[trigger] tags@[i]@ != #[trigger] tags@[j]@,
    {
        let tags = self.interest_filters.key_strs();
        proof {
            assert forall|i: int| 0 <= i < tags@.len() implies self@.interest_filters.dom().contains(#[trigger] tags@[i]@) by {
                assert(self.interest_filters.view().dom().contains(tags@[i]@));
            }
            assert forall|k: Seq<char>| #[trigger] self@.interest_filters.dom().contains(k) implies exists|i: int|
                0 <= i < tags@.len() && #[trigger] tags@[i]@ == k by {
                assert(self.interest_filters.view().dom().contains(k));
            }
        }
        tags
    }

    /// The names of all registered modules, each once.
    pub fn plugin_names(&self) -> (names: Vec<&str>)
        requires
            self.wf(),
        ensures
            forall|i: int|
                0 <= i < names@.len() ==> self@.plugins.dom().contains(#[trigger] names@[i]@),
            forall|k: Seq<char>|
                #[trigger] self@.plugins.dom().contains(k) ==> exists|i: int|
                    0 <= i < names@.len() && #[trigger] names@[i]@ == k,
            forall|i: int, j: int|
                0 <= i < j < names@.len() ==> #[trigger] names@[i]@ != #[trigger] names@[j]@,
    {
        let names = self.plugins.key_strs();
        proof {
            assert forall|i: int| 0 <= i < names@.len() implies self@.plugins.dom().contains(#[trigger] names@[i]@) by {
                assert(self.plugins.view().dom().contains(names@[i]@));
            }
            assert forall|k: Seq<char>| #[trigger] self@.plugins.dom().contains(k) implies exists|i: int|
                0 <= i < names@.len() && #[trigger] names@[i]@ == k by {
                assert(self.plugins.view().dom().contains(k));
            }
        }
        names
    }
}

/// Once registering a prefix of the modules is refused, registering any longer
/// prefix is refused with the same error.
proof fn lemma_register_all_stays_refused(kinds: Seq<ModuleKindInfo>, i: int)
    requires
        0 <= i <= kinds.len(),
        register_all_spec(empty_context_view(), kinds.subrange(0, i)) is Err,
    ensures
        register_all_spec(empty_context_view(), kinds) == register_all_spec(
            empty_context_view(),
            kinds.subrange(0, i),
        ),
    decreases kinds.len() - i,
{
    if i < kinds.len() {
        let longer = kinds.subrange(0, i + 1);
        assert(longer.drop_last() =~= kinds.subrange(0, i));
        lemma_register_all_stays_refused(kinds, i + 1);
    } else {
        assert(kinds.subrange(0, i) =~= kinds);
    }
}


/// The modules a host has loaded, as it reports them: one entry per chain
/// module, per consensus module and per client module.
#[derive(Debug, PartialEq, Eq)]
pub struct LoadedModulesInfo {
    pub chain: Vec<ChainModuleInfo>,
    pub consensus: Vec<ConsensusModuleInfo>,
    pub client: Vec<ClientModuleInfo>,
}

/// `info` lists each loaded module once, in some order: the chain modules by
/// chain id, the consensus modules by chain id with their consensus type, and
/// the client modules by client type and IBC interface with the consensus type
/// recorded for the client type.
pub open spec fn info_describes(info: LoadedModulesInfo, v: ModulesView) -> bool {
    &&& info_chain_describes(info.chain@, v)
    &&& info_consensus_describes(info.consensus@, v)
    &&& info_client_describes(info.client@, v)
}

/// The chain part of `info_describes`.
pub open spec fn info_chain_describes(chain: Seq<ChainModuleInfo>, v: ModulesView) -> bool {
    &&& forall|i: int|
        0 <= i < chain.len() ==> v.chain_modules.dom().contains(#[trigger] chain[i].chain_id@)
    &&& forall|k: Seq<char>|
        #[trigger] v.chain_modules.dom().contains(k) ==> exists|i: int|
            0 <= i < chain.len() && #[trigger] chain[i].chain_id@ == k
    &&& forall|i: int, j: int|
        0 <= i < j < chain.len() ==> #[trigger] chain[i].chain_id@ != #[trigger] chain[j].chain_id@
}

/// The consensus part of `info_describes`.
pub open spec fn info_consensus_describes(consensus: Seq<ConsensusModuleInfo>, v: ModulesView) -> bool {
    &&& forall|i: int|
        0 <= i < consensus.len() ==> v.consensus_modules.dom().contains(
            #[trigger] consensus[i].chain_id@,
        ) && consensus[i].consensus_type@ == v.chain_consensus_types[consensus[i].chain_id@]
    &&& forall|k: Seq<char>|
        #[trigger] v.consensus_modules.dom().contains(k) ==> exists|i: int|
            0 <= i < consensus.len() && #[trigger] consensus[i].chain_id@ == k
    &&& forall|i: int, j: int|
        0 <= i < j < consensus.len() ==> #[trigger] consensus[i].chain_id@
            != #[trigger] consensus[j].chain_id@
}

impl Modules {
    /// What modules are loaded.
    pub fn info(&self) -> (info: LoadedModulesInfo)
        requires
            self.wf(),
        ensures
            info_describes(info, self@),
    {
        proof {
            self.chain_modules.lemma_entries();
            self.consensus_modules.lemma_entries();
            self.client_modules.lemma_entries();
            self.chain_consensus_types.lemma_entries();
            self.client_consensus_types.lemma_entries();
        }
        let chain = self.chain_info();
        let consensus = self.consensus_info();
        let client = self.client_info();
        let info = LoadedModulesInfo { chain, consensus, client };
        proof {
            let v = self@;
            let cm = self.chain_modules;
            let sm = self.consensus_modules;
            assert forall|i: int| 0 <= i < info.chain@.len() implies v.chain_modules.dom().contains(
                #[trigger] info.chain@[i].chain_id@,
            ) by {
                assert(cm.view().dom().contains(cm.key_at(i)));
            }
            assert forall|k: Seq<char>| #[trigger] v.chain_modules.dom().contains(k) implies exists|i: int|
                0 <= i < info.chain@.len() && #[trigger] info.chain@[i].chain_id@ == k by {
                let i = choose|i: int| 0 <= i < cm.size() && #[trigger] cm.key_at(i) == k;
                assert(info.chain@[i].chain_id@ == k);
            }
            assert forall|i: int, j: int| 0 <= i < j < info.chain@.len() implies #[trigger] info.chain@[i].chain_id@
                != #[trigger] info.chain@[j].chain_id@ by {
                assert(cm.key_at(i) != cm.key_at(j));
            }
            assert forall|i: int| 0 <= i < info.consensus@.len() implies v.consensus_modules.dom().contains(
                #[trigger] info.consensus@[i].chain_id@,
            ) && info.consensus@[i].consensus_type@ == v.chain_consensus_types[info.consensus@[i].chain_id@] by {
                assert(sm.view().dom().contains(sm.key_at(i)));
            }
            assert forall|k: Seq<char>| #[trigger] v.consensus_modules.dom().contains(k) implies exists|i: int|
                0 <= i < info.consensus@.len() && #[trigger] info.consensus@[i].chain_id@ == k by {
                let i = choose|i: int| 0 <= i < sm.size() && #[trigger] sm.key_at(i) == k;
                assert(info.consensus@[i].chain_id@ == k);
            }
            assert forall|i: int, j: int| 0 <= i < j < info.consensus@.len() implies #[trigger] info.consensus@[i].chain_id@
                != #[trigger] info.consensus@[j].chain_id@ by {
                assert(sm.key_at(i) != sm.key_at(j));
            }
        }
        assert(info_chain_describes(info.chain@, self@));
        assert(info_consensus_describes(info.consensus@, self@));
        info
    }

    fn chain_info(&self) -> (chain: Vec<ChainModuleInfo>)
        requires
            self.wf(),
        ensures
            chain@.len() == self.chain_modules.size(),
            forall|i: int| 0 <= i < chain@.len() ==> #[trigger] chain@[i].chain_id@ == self.chain_modules.key_at(i),
    {
        let mut chain: Vec<ChainModuleInfo> = Vec::new();
        let n = self.chain_modules.len();
        let mut i: usize = 0;
        while i < n
            invariant
                n == self.chain_modules.size(),
                i <= n,
                chain@.len() == i,
                forall|j: int| 0 <= j < i ==> #[trigger] chain@[j].chain_id@ == self.chain_modules.key_at(j),
            decreases n - i,
        {
            chain.push(ChainModuleInfo { chain_id: ChainId(self.chain_modules.key(i).clone()) });
            i = i + 1;
        }
        chain
    }

    fn consensus_info(&self) -> (consensus: Vec<ConsensusModuleInfo>)
        requires
            self.wf(),
        ensures
            consensus@.len() == self.consensus_modules.size(),
            forall|i: int| 0 <= i < consensus@.len() ==> #[trigger] consensus@[i].chain_id@ == self.consensus_modules.key_at(i)
                && consensus@[i].consensus_type@ == self@.chain_consensus_types[self.consensus_modules.key_at(i)],
    {
        proof {
            self.consensus_modules.lemma_entries();
        }
        let mut consensus: Vec<ConsensusModuleInfo> = Vec::new();
        let n = self.consensus_modules.len();
        let mut i: usize = 0;
        while i < n
            invariant
                self.wf(),
                n == self.consensus_modules.size(),
                i <= n,
                consensus@.len() == i,
                forall|j: int| 0 <= j < i ==> #[trigger] consensus@[j].chain_id@ == self.consensus_modules.key_at(j)
                    && consensus@[j].consensus_type@ == self@.chain_consensus_types[self.consensus_modules.key_at(j)],
                forall|j: int| 0 <= j < n ==> #[trigger] self.consensus_modules.view().dom().contains(self.consensus_modules.key_at(j)),
            decreases n - i,
        {
            let chain_id = self.consensus_modules.key(i);
            assert(self.consensus_modules.view().dom().contains(self.consensus_modules.key_at(i as int)));
            let consensus_type = self.chain_consensus_types.get(chain_id).unwrap();
            consensus.push(
                ConsensusModuleInfo {
                    consensus_type: consensus_type.clone(),
                    chain_id: ChainId(chain_id.clone()),
                },
            );
            i = i + 1;
        }
        consensus
    }

    fn client_info(&self) -> (client: Vec<ClientModuleInfo>)
        requires
            self.wf(),
        ensures
            info_client_describes(client@, self@),
    {
        let mut client: Vec<ClientModuleInfo> = Vec::new();
        let ghost mut outer: Seq<int> = Seq::empty();
        let ghost mut inner: Seq<int> = Seq::empty();
        let n = self.client_modules.len();
        proof {
            self.client_modules.lemma_entries();
        }
        let mut i: usize = 0;
        while i < n
            invariant
                self.wf(),
                n == self.client_modules.size(),
                i <= n,
                client_listing(self, client@, outer, inner, i as int, 0),
            decreases n - i,
        {
            let client_type = self.client_modules.key(i);
            let ibc_interfaces = self.client_modules.value(i);
            proof {
                self.client_modules.lemma_entries();
                assert(self.client_modules.view().dom().contains(self.client_modules.key_at(i as int)));
                ibc_interfaces.lemma_entries();
            }
            let consensus_type = self.client_consensus_types.get(client_type).unwrap();
            let m = ibc_interfaces.len();
            let mut j: usize = 0;
            while j < m
                invariant
                    self.wf(),
                    n == self.client_modules.size(),
                    i < n,
                    client_type@ == self.client_modules.key_at(i as int),
                    *ibc_interfaces == self.client_modules.value_at(i as int),
                    ibc_interfaces.wf(),
                    m == ibc_interfaces.size(),
                    consensus_type@ == self@.client_consensus_types[client_type@],
                    j <= m,
                    client_listing(self, client@, outer, inner, i as int, j as int),
                decreases m - j,
            {
                let ghost before = client@;
                let ghost outer_before = outer;
                let ghost inner_before = inner;
                client.push(
                    ClientModuleInfo {
                        consensus_type: consensus_type.clone(),
                        client_type: ClientType(client_type.clone()),
                        ibc_interface: IbcInterface(ibc_interfaces.key(j).clone()),
                    },
                );
                proof {
                    outer = outer.push(i as int);
                    inner = inner.push(j as int);
                    assert(client@.drop_last() =~= before);
                    assert(outer.drop_last() =~= outer_before);
                    assert(inner.drop_last() =~= inner_before);
                    lemma_client_listing_step(self, client@, outer, inner, i as int, j as int);
                }
                j = j + 1;
            }
            proof {
                lemma_client_listing_next_outer(self, client@, outer, inner, i as int);
            }
            i = i + 1;
        }
        proof {
            lemma_client_listing_done(self, client@, outer, inner);
        }
        client
    }
}

/// The client part of `info_describes`.
pub open spec fn info_client_describes(client: Seq<ClientModuleInfo>, v: ModulesView) -> bool {
    &&& forall|i: int|
        0 <= i < client.len() ==> v.client_modules.dom().contains(
            (#[trigger] client[i].client_type@, client[i].ibc_interface@),
        ) && client[i].consensus_type@ == v.client_consensus_types[client[i].client_type@]
    &&& forall|ct: Seq<char>, ii: Seq<char>|
        #[trigger] v.client_modules.dom().contains((ct, ii)) ==> exists|i: int|
            0 <= i < client.len() && #[trigger] client[i].client_type@ == ct
                && client[i].ibc_interface@ == ii
    &&& forall|i: int, j: int|
        0 <= i < j < client.len() ==> (#[trigger] client[i].client_type@, client[i].ibc_interface@)
            != (#[trigger] client[j].client_type@, client[j].ibc_interface@)
}

spec fn lex_lt(a: int, b: int, c: int, d: int) -> bool {
    a < c || (a == c && b < d)
}

/// `client` lists the client modules of the first `i` client types, and the
/// first `j` IBC interfaces of the next one; entry `k` is IBC interface
/// `inner[k]` of client type `outer[k]`, in increasing order.
spec fn client_listing(
    m: &Modules,
    client: Seq<ClientModuleInfo>,
    outer: Seq<int>,
    inner: Seq<int>,
    i: int,
    j: int,
) -> bool {
    let cm = m.client_modules;
    &&& outer.len() == client.len()
    &&& inner.len() == client.len()
    &&& forall|k: int|
        0 <= k < client.len() ==> {
            &&& 0 <= #[trigger] outer[k] < cm.size()
            &&& 0 <= inner[k] < cm.value_at(outer[k]).size()
            &&& client[k].client_type@ == cm.key_at(outer[k])
            &&& client[k].ibc_interface@ == cm.value_at(outer[k]).key_at(inner[k])
            &&& client[k].consensus_type@ == m@.client_consensus_types[cm.key_at(outer[k])]
            &&& lex_lt(outer[k], inner[k], i, j)
        }
    &&& forall|k1: int, k2: int|
        0 <= k1 < k2 < client.len() ==> lex_lt(
            #[trigger] outer[k1],
            inner[k1],
            #[trigger] outer[k2],
            inner[k2],
        )
    &&& forall|a: int, b: int|
        #![trigger lex_lt(a, b, i, j)]
        0 <= a < cm.size() && 0 <= b < cm.value_at(a).size() && lex_lt(a, b, i, j) ==> exists|k: int|
            0 <= k < client.len() && #[trigger] outer[k] == a && inner[k] == b
}

proof fn lemma_client_listing_step(
    m: &Modules,
    client: Seq<ClientModuleInfo>,
    outer: Seq<int>,
    inner: Seq<int>,
    i: int,
    j: int,
)
    requires
        m.wf(),
        0 <= i < m.client_modules.size(),
        0 <= j < m.client_modules.value_at(i).size(),
        client.len() > 0,
        outer.len() == client.len(),
        inner.len() == client.len(),
        client_listing(m, client.drop_last(), outer.drop_last(), inner.drop_last(), i, j),
        outer.last() == i,
        inner.last() == j,
        client.last().client_type@ == m.client_modules.key_at(i),
        client.last().ibc_interface@ == m.client_modules.value_at(i).key_at(j),
        client.last().consensus_type@ == m@.client_consensus_types[m.client_modules.key_at(i)],
    ensures
        client_listing(m, client, outer, inner, i, j + 1),
{
    let n = client.len() - 1;
    assert forall|k: int| 0 <= k < n implies #[trigger] outer[k] == outer.drop_last()[k] by {}
    assert forall|a: int, b: int|
        #![trigger lex_lt(a, b, i, j + 1)]
        0 <= a < m.client_modules.size() && 0 <= b < m.client_modules.value_at(a).size() && lex_lt(a, b, i, j + 1) implies exists|k: int|
            0 <= k < client.len() && #[trigger] outer[k] == a && inner[k] == b by {
        if a == i && b == j {
            assert(outer[n] == a && inner[n] == b);
        } else {
            assert(lex_lt(a, b, i, j));
            let k = choose|k: int|
                0 <= k < n && #[trigger] outer.drop_last()[k] == a && inner.drop_last()[k] == b;
            assert(outer[k] == a && inner[k] == b);
        }
    }
    assert forall|k: int| 0 <= k < client.len() implies {
        &&& 0 <= #[trigger] outer[k] < m.client_modules.size()
        &&& 0 <= inner[k] < m.client_modules.value_at(outer[k]).size()
        &&& client[k].client_type@ == m.client_modules.key_at(outer[k])
        &&& client[k].ibc_interface@ == m.client_modules.value_at(outer[k]).key_at(inner[k])
        &&& client[k].consensus_type@ == m@.client_consensus_types[m.client_modules.key_at(outer[k])]
        &&& lex_lt(outer[k], inner[k], i, j + 1)
    } by {
        if k < n {
            assert(outer.drop_last()[k] == outer[k]);
            assert(inner.drop_last()[k] == inner[k]);
            assert(client.drop_last()[k] == client[k]);
        }
    }
    assert forall|k1: int, k2: int| 0 <= k1 < k2 < client.len() implies lex_lt(
        #[trigger] outer[k1],
        inner[k1],
        #[trigger] outer[k2],
        inner[k2],
    ) by {
        assert(outer.drop_last()[k1] == outer[k1]);
        assert(inner.drop_last()[k1] == inner[k1]);
        if k2 < n {
            assert(outer.drop_last()[k2] == outer[k2]);
            assert(inner.drop_last()[k2] == inner[k2]);
        }
    }
}

proof fn lemma_client_listing_next_outer(
    m: &Modules,
    client: Seq<ClientModuleInfo>,
    outer: Seq<int>,
    inner: Seq<int>,
    i: int,
)
    requires
        m.wf(),
        0 <= i < m.client_modules.size(),
        client_listing(m, client, outer, inner, i, m.client_modules.value_at(i).size() as int),
    ensures
        client_listing(m, client, outer, inner, i + 1, 0),
{
    assert forall|a: int, b: int|
        #![trigger lex_lt(a, b, i + 1, 0)]
        0 <= a < m.client_modules.size() && 0 <= b < m.client_modules.value_at(a).size() && lex_lt(a, b, i + 1, 0) implies exists|k: int|
            0 <= k < client.len() && #[trigger] outer[k] == a && inner[k] == b by {
        assert(lex_lt(a, b, i, m.client_modules.value_at(i).size() as int));
    }
}

proof fn lemma_client_listing_done(
    m: &Modules,
    client: Seq<ClientModuleInfo>,
    outer: Seq<int>,
    inner: Seq<int>,
)
    requires
        m.wf(),
        client_listing(m, client, outer, inner, m.client_modules.size() as int, 0),
    ensures
        info_client_describes(client, m@),
{
    let cm = m.client_modules;
    cm.lemma_entries();
    let v = m@;
    assert forall|i: int| 0 <= i < client.len() implies v.client_modules.dom().contains(
        (#[trigger] client[i].client_type@, client[i].ibc_interface@),
    ) && client[i].consensus_type@ == v.client_consensus_types[client[i].client_type@] by {
        let a = outer[i];
        let inn = cm.value_at(a);
        assert(cm.view().dom().contains(cm.key_at(a)));
        assert(cm.view()[cm.key_at(a)] == inn);
        inn.lemma_entries();
        assert(inn.view().dom().contains(inn.key_at(inner[i])));
    }
    assert forall|ct: Seq<char>, ii: Seq<char>| #[trigger] v.client_modules.dom().contains((ct, ii)) implies exists|i: int|
        0 <= i < client.len() && #[trigger] client[i].client_type@ == ct
            && client[i].ibc_interface@ == ii by {
        let a = choose|a: int| 0 <= a < cm.size() && #[trigger] cm.key_at(a) == ct;
        let inn = cm.value_at(a);
        assert(cm.view()[cm.key_at(a)] == inn);
        inn.lemma_entries();
        let b = choose|b: int| 0 <= b < inn.size() && #[trigger] inn.key_at(b) == ii;
        assert(lex_lt(a, b, cm.size() as int, 0));
        let k = choose|k: int| 0 <= k < client.len() && #[trigger] outer[k] == a && inner[k] == b;
        assert(client[k].client_type@ == ct);
    }
    assert forall|k1: int, k2: int| 0 <= k1 < k2 < client.len() implies (#[trigger] client[k1].client_type@, client[k1].ibc_interface@)
        != (#[trigger] client[k2].client_type@, client[k2].ibc_interface@) by {
        let a1 = outer[k1];
        let a2 = outer[k2];
        assert(lex_lt(a1, inner[k1], a2, inner[k2]));
        if a1 != a2 {
            assert(cm.key_at(a1) != cm.key_at(a2));
        } else {
            let inn = cm.value_at(a1);
            assert(cm.view().dom().contains(cm.key_at(a1)));
            assert(cm.view()[cm.key_at(a1)] == inn);
            inn.lemma_entries();
            assert(inn.key_at(inner[k1]) != inn.key_at(inner[k2]));
        }
    }
}

} // verus!
