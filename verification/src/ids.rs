use vstd::prelude::*;

verus! {

/// The identifier of a chain, such as `union-testnet-8`.
#[derive(Debug, PartialEq, Eq, Hash)]
pub struct ChainId(pub String);

/// The kind of light client that tracks a counterparty, such as `cometbls`.
#[derive(Debug, PartialEq, Eq, Hash)]
pub struct ClientType(pub String);

/// The IBC implementation a client lives on, such as `ibc-solidity`.
#[derive(Debug, PartialEq, Eq, Hash)]
pub struct IbcInterface(pub String);

/// The consensus algorithm a chain runs, such as `tendermint`.
#[derive(Debug, PartialEq, Eq, Hash)]
pub struct ConsensusType(pub String);

impl View for ChainId {
    type V = Seq<char>;

    open spec fn view(&self) -> Seq<char> {
        self.0@
    }
}

impl View for ClientType {
    type V = Seq<char>;

    open spec fn view(&self) -> Seq<char> {
        self.0@
    }
}

impl View for IbcInterface {
    type V = Seq<char>;

    open spec fn view(&self) -> Seq<char> {
        self.0@
    }
}

impl View for ConsensusType {
    type V = Seq<char>;

    open spec fn view(&self) -> Seq<char> {
        self.0@
    }
}

impl Clone for ChainId {
    fn clone(&self) -> (r: Self)
        ensures
            r == *self,
    {
        ChainId(self.0.clone())
    }
}

impl Clone for ClientType {
    fn clone(&self) -> (r: Self)
        ensures
            r == *self,
    {
        ClientType(self.0.clone())
    }
}

impl Clone for IbcInterface {
    fn clone(&self) -> (r: Self)
        ensures
            r == *self,
    {
        IbcInterface(self.0.clone())
    }
}

impl Clone for ConsensusType {
    fn clone(&self) -> (r: Self)
        ensures
            r == *self,
    {
        ConsensusType(self.0.clone())
    }
}

impl ChainId {
    /// A chain id with the given text.
    pub fn new(s: &str) -> (r: Self)
        ensures
            r@ == s@,
    {
        ChainId(s.to_owned())
    }

    /// The text of the id.
    pub fn as_str(&self) -> (s: &str)
        ensures
            s@ == self@,
    {
        self.0.as_str()
    }
}

impl ClientType {
    /// A client type with the given text.
    pub fn new(s: &str) -> (r: Self)
        ensures
            r@ == s@,
    {
        ClientType(s.to_owned())
    }

    /// The text of the client type.
    pub fn as_str(&self) -> (s: &str)
        ensures
            s@ == self@,
    {
        self.0.as_str()
    }
}

impl IbcInterface {
    /// An IBC interface with the given text.
    pub fn new(s: &str) -> (r: Self)
        ensures
            r@ == s@,
    {
        IbcInterface(s.to_owned())
    }

    /// The text of the IBC interface.
    pub fn as_str(&self) -> (s: &str)
        ensures
            s@ == self@,
    {
        self.0.as_str()
    }
}

impl ConsensusType {
    /// A consensus type with the given text.
    pub fn new(s: &str) -> (r: Self)
        ensures
            r@ == s@,
    {
        ConsensusType(s.to_owned())
    }

    /// The text of the consensus type.
    pub fn as_str(&self) -> (s: &str)
        ensures
            s@ == self@,
    {
        self.0.as_str()
    }
}

} // verus!
