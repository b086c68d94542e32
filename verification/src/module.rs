use crate::ids::{ChainId, ClientType, ConsensusType, IbcInterface};
use vstd::prelude::*;
use vstd::string::*;

verus! {

/// A plugin module: it is addressed by its name and receives the messages that
/// match its interest filter.
#[derive(Debug, PartialEq, Eq, Hash)]
pub struct PluginInfo {
    pub name: String,
    pub interest_filter: String,
}

/// A chain module, serving one chain.
#[derive(Debug, PartialEq, Eq, Hash)]
pub struct ChainModuleInfo {
    pub chain_id: ChainId,
}

/// A consensus module, tracking the consensus of one chain.
#[derive(Debug, PartialEq, Eq, Hash)]
pub struct ConsensusModuleInfo {
    pub chain_id: ChainId,
    pub consensus_type: ConsensusType,
}

/// A client module, handling one client type on one IBC interface.
#[derive(Debug, PartialEq, Eq, Hash)]
pub struct ClientModuleInfo {
    pub client_type: ClientType,
    pub consensus_type: ConsensusType,
    pub ibc_interface: IbcInterface,
}

/// What a module reports about itself when asked.
#[derive(Debug, PartialEq, Eq, Hash)]
pub enum ModuleKindInfo {
    Plugin(PluginInfo),
    Chain(ChainModuleInfo),
    Consensus(ConsensusModuleInfo),
    Client(ClientModuleInfo),
}

/// The answer of a module to an `info` query.
#[derive(Debug, PartialEq, Eq, Hash)]
pub struct ModuleInfo {
    pub kind: ModuleKindInfo,
}

impl Clone for PluginInfo {
    fn clone(&self) -> (r: Self)
        ensures
            r == *self,
    {
        PluginInfo { name: self.name.clone(), interest_filter: self.interest_filter.clone() }
    }
}

impl Clone for ChainModuleInfo {
    fn clone(&self) -> (r: Self)
        ensures
            r == *self,
    {
        ChainModuleInfo { chain_id: self.chain_id.clone() }
    }
}

impl Clone for ConsensusModuleInfo {
    fn clone(&self) -> (r: Self)
        ensures
            r == *self,
    {
        ConsensusModuleInfo {
            chain_id: self.chain_id.clone(),
            consensus_type: self.consensus_type.clone(),
        }
    }
}

impl Clone for ClientModuleInfo {
    fn clone(&self) -> (r: Self)
        ensures
            r == *self,
    {
        ClientModuleInfo {
            client_type: self.client_type.clone(),
            consensus_type: self.consensus_type.clone(),
            ibc_interface: self.ibc_interface.clone(),
        }
    }
}

impl Clone for ModuleKindInfo {
    fn clone(&self) -> (r: Self)
        ensures
            r == *self,
    {
        match self {
            ModuleKindInfo::Plugin(p) => ModuleKindInfo::Plugin(p.clone()),
            ModuleKindInfo::Chain(c) => ModuleKindInfo::Chain(c.clone()),
            ModuleKindInfo::Consensus(c) => ModuleKindInfo::Consensus(c.clone()),
            ModuleKindInfo::Client(c) => ModuleKindInfo::Client(c.clone()),
        }
    }
}

/// The name under which a module is known: a plugin by its own name, the other
/// kinds by their kind and the keys they serve, joined by `/`.
pub open spec fn module_name(kind: ModuleKindInfo) -> Seq<char> {
    match kind {
        ModuleKindInfo::Plugin(p) => p.name@,
        ModuleKindInfo::Chain(c) => "chain/"@ + c.chain_id@,
        ModuleKindInfo::Consensus(c) => "consensus/"@ + c.chain_id@ + "/"@ + c.consensus_type@,
        ModuleKindInfo::Client(c) => "client/"@ + c.client_type@ + "/"@ + c.consensus_type@ + "/"@
            + c.ibc_interface@,
    }
}

impl ModuleKindInfo {
    /// The name under which this module is known.
    pub fn name(&self) -> (n: String)
        ensures
            n@ == module_name(*self),
    {
        match self {
            ModuleKindInfo::Plugin(p) => p.name.clone(),
            ModuleKindInfo::Chain(c) => {
                let mut n = String::from_str("chain/");
                n.append(c.chain_id.as_str());
                n
            },
            ModuleKindInfo::Consensus(c) => {
                let mut n = String::from_str("consensus/");
                n.append(c.chain_id.as_str());
                n.append("/");
                n.append(c.consensus_type.as_str());
                n
            },
            ModuleKindInfo::Client(c) => {
                let mut n = String::from_str("client/");
                n.append(c.client_type.as_str());
                n.append("/");
                n.append(c.consensus_type.as_str());
                n.append("/");
                n.append(c.ibc_interface.as_str());
                n
            },
        }
    }
}

} // verus!
