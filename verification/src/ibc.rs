use vstd::prelude::*;
use vstd::string::*;

verus! {

/// A height on a chain: the revision and the height within it.
#[derive(Debug, Clone, Copy, PartialEq, Eq, Hash)]
pub struct Height {
    pub revision_number: u64,
    pub revision_height: u64,
}

/// The ordering a connection version offers to channels.
#[derive(Debug, Clone, Copy, PartialEq, Eq, Hash)]
pub enum Order {
    NoneUnspecified,
    Unordered,
    Ordered,
}

/// A connection version: its identifier and the channel orderings it offers.
#[derive(Debug, PartialEq, Eq)]
pub struct Version {
    pub identifier: String,
    pub features: Vec<Order>,
}

/// A value of any message type: the type's URL and the encoded message.
#[derive(Debug, PartialEq, Eq)]
pub struct Any {
    pub type_url: String,
    pub value: Vec<u8>,
}

/// The account that signs a message, by its address text.
#[derive(Debug, PartialEq, Eq)]
pub struct CosmosAccountId {
    pub address: String,
}

/// The protobuf form of a height.
#[derive(Debug, Clone, Copy, PartialEq, Eq, Hash)]
pub struct ProtoHeight {
    pub revision_number: u64,
    pub revision_height: u64,
}

/// The protobuf form of a connection version: the orderings by their names.
#[derive(Debug, PartialEq, Eq)]
pub struct ProtoVersion {
    pub identifier: String,
    pub features: Vec<String>,
}

/// The protobuf message that acknowledges a connection handshake.
#[derive(Debug, PartialEq, Eq)]
pub struct ProtoMsgConnectionOpenAck {
    pub connection_id: String,
    pub counterparty_connection_id: String,
    pub version: Option<ProtoVersion>,
    pub client_state: Option<Any>,
    pub proof_height: Option<ProtoHeight>,
    pub proof_try: Vec<u8>,
    pub proof_client: Vec<u8>,
    pub proof_consensus: Vec<u8>,
    pub consensus_height: Option<ProtoHeight>,
    pub signer: String,
    pub host_consensus_state_proof: Vec<u8>,
}

/// The height as the IBC handler contract takes it.
#[derive(Debug, Clone, Copy, PartialEq, Eq, Hash)]
pub struct ContractHeight {
    pub revision_number: u64,
    pub revision_height: u64,
}

/// The connection version as the IBC handler contract takes it.
#[derive(Debug, PartialEq, Eq)]
pub struct ContractVersion {
    pub identifier: String,
    pub features: Vec<String>,
}

/// The acknowledgement of a connection handshake as the IBC handler contract
/// takes it.
#[derive(Debug, PartialEq, Eq)]
pub struct ContractMsgConnectionOpenAck {
    pub connection_id: String,
    pub counterparty_connection_id: String,
    pub version: ContractVersion,
    pub client_state_bytes: Vec<u8>,
    pub proof_height: ContractHeight,
    pub proof_try: Vec<u8>,
    pub proof_client: Vec<u8>,
    pub proof_consensus: Vec<u8>,
    pub consensus_height: ContractHeight,
}

/// The acknowledgement of a connection handshake, with the counterparty's
/// client state in whatever form that client has.
pub struct MsgConnectionOpenAck<ClientState> {
    pub connection_id: String,
    pub counterparty_connection_id: String,
    pub version: Version,
    pub client_state: ClientState,
    pub proof_height: Height,
    pub proof_try: Vec<u8>,
    pub proof_client: Vec<u8>,
    pub proof_consensus: Vec<u8>,
    pub consensus_height: Height,
}

/// A value that can be packed as an `Any`.
pub trait IntoProto: Sized {
    /// The type URL and encoding that packing gives.
    spec fn any_of(self) -> (Seq<char>, Seq<u8>);

    /// Packs the value.
    fn into_proto(self) -> (any: Any)
        ensures
            (any.type_url@, any.value@) == self.any_of(),
    ;
}

impl IntoProto for Any {
    open spec fn any_of(self) -> (Seq<char>, Seq<u8>) {
        (self.type_url@, self.value@)
    }

    fn into_proto(self) -> (any: Any) {
        self
    }
}

/// The protobuf name of a channel ordering.
pub open spec fn order_name(o: Order) -> Seq<char> {
    match o {
        Order::NoneUnspecified => "ORDER_NONE_UNSPECIFIED"@,
        Order::Unordered => "ORDER_UNORDERED"@,
        Order::Ordered => "ORDER_ORDERED"@,
    }
}

/// The protobuf name of a channel ordering.
pub fn order_to_name(o: Order) -> (name: String)
    ensures
        name@ == order_name(o),
{
    match o {
        Order::NoneUnspecified => String::from_str("ORDER_NONE_UNSPECIFIED"),
        Order::Unordered => String::from_str("ORDER_UNORDERED"),
        Order::Ordered => String::from_str("ORDER_ORDERED"),
    }
}

/// The names of the orderings, in order.
pub open spec fn feature_names(features: Seq<Order>) -> Seq<Seq<char>> {
    features.map_values(|o: Order| order_name(o))
}

fn features_to_names(features: &Vec<Order>) -> (names: Vec<String>)
    ensures
        names@.map_values(|s: String| s@) == feature_names(features@),
{
    let mut names: Vec<String> = Vec::new();
    let n = features.len();
    let mut i: usize = 0;
    while i < n
        invariant
            n == features@.len(),
            i <= n,
            names@.len() == i,
            forall|j: int| 0 <= j < i ==> #[trigger] names@[j]@ == order_name(features@[j]),
        decreases n - i,
    {
        names.push(order_to_name(features[i]));
        i = i + 1;
    }
    assert(names@.map_values(|s: String| s@) =~= feature_names(features@));
    names
}

impl Height {
    /// This height as its protobuf form.
    pub fn into_proto(self) -> (p: ProtoHeight)
        ensures
            p.revision_number == self.revision_number,
            p.revision_height == self.revision_height,
    {
        ProtoHeight { revision_number: self.revision_number, revision_height: self.revision_height }
    }

    /// This height as the IBC handler contract takes it.
    pub fn into_contract(self) -> (c: ContractHeight)
        ensures
            c.revision_number == self.revision_number,
            c.revision_height == self.revision_height,
    {
        ContractHeight {
            revision_number: self.revision_number,
            revision_height: self.revision_height,
        }
    }
}

impl Version {
    /// This version as its protobuf form.
    pub fn into_proto(self) -> (p: ProtoVersion)
        ensures
            p.identifier@ == self.identifier@,
            p.features@.map_values(|s: String| s@) == feature_names(self.features@),
    {
        let features = features_to_names(&self.features);
        ProtoVersion { identifier: self.identifier, features }
    }

    /// This version as the IBC handler contract takes it.
    pub fn into_contract(self) -> (c: ContractVersion)
        ensures
            c.identifier@ == self.identifier@,
            c.features@.map_values(|s: String| s@) == feature_names(self.features@),
    {
        let features = features_to_names(&self.features);
        ContractVersion { identifier: self.identifier, features }
    }
}

impl CosmosAccountId {
    /// The address text of the account.
    pub fn to_string(&self) -> (s: String)
        ensures
            s@ == self.address@,
    {
        self.address.clone()
    }
}

impl<ClientState: IntoProto> MsgConnectionOpenAck<ClientState> {
    /// This message as protobuf, signed by `signer`: every field carried
    /// over, the client state packed, and no proof of the host's consensus
    /// state.
    pub fn into_proto_with_signer(self, signer: &CosmosAccountId) -> (p: ProtoMsgConnectionOpenAck)
        ensures
            p.connection_id@ == self.connection_id@,
            p.counterparty_connection_id@ == self.counterparty_connection_id@,
            p.version matches Some(v) && v.identifier@ == self.version.identifier@
                && v.features@.map_values(|s: String| s@) == feature_names(self.version.features@),
            p.client_state matches Some(a) && (a.type_url@, a.value@) == self.client_state.any_of(),
            p.proof_height == Some(
                ProtoHeight {
                    revision_number: self.proof_height.revision_number,
                    revision_height: self.proof_height.revision_height,
                },
            ),
            p.proof_try@ == self.proof_try@,
            p.proof_client@ == self.proof_client@,
            p.proof_consensus@ == self.proof_consensus@,
            p.consensus_height == Some(
                ProtoHeight {
                    revision_number: self.consensus_height.revision_number,
                    revision_height: self.consensus_height.revision_height,
                },
            ),
            p.signer@ == signer.address@,
            p.host_consensus_state_proof@.len() == 0,
    {
        ProtoMsgConnectionOpenAck {
            connection_id: self.connection_id,
            counterparty_connection_id: self.counterparty_connection_id,
            version: Some(self.version.into_proto()),
            client_state: Some(self.client_state.into_proto()),
            proof_height: Some(self.proof_height.into_proto()),
            proof_try: self.proof_try,
            proof_client: self.proof_client,
            proof_consensus: self.proof_consensus,
            consensus_height: Some(self.consensus_height.into_proto()),
            signer: signer.to_string(),
            host_consensus_state_proof: Vec::new(),
        }
    }
}

impl ContractMsgConnectionOpenAck {
    /// The message as the IBC handler contract takes it: every field carried
    /// over except the client state, whose bytes are left empty.
    pub fn from<ClientState>(msg: MsgConnectionOpenAck<ClientState>) -> (c: ContractMsgConnectionOpenAck)
        ensures
            c.connection_id@ == msg.connection_id@,
            c.counterparty_connection_id@ == msg.counterparty_connection_id@,
            c.version.identifier@ == msg.version.identifier@,
            c.version.features@.map_values(|s: String| s@) == feature_names(msg.version.features@),
            c.client_state_bytes@.len() == 0,
            c.proof_height == (ContractHeight {
                revision_number: msg.proof_height.revision_number,
                revision_height: msg.proof_height.revision_height,
            }),
            c.proof_try@ == msg.proof_try@,
            c.proof_client@ == msg.proof_client@,
            c.proof_consensus@ == msg.proof_consensus@,
            c.consensus_height == (ContractHeight {
                revision_number: msg.consensus_height.revision_number,
                revision_height: msg.consensus_height.revision_height,
            }),
    {
        ContractMsgConnectionOpenAck {
            connection_id: msg.connection_id,
            counterparty_connection_id: msg.counterparty_connection_id,
            version: msg.version.into_contract(),
            client_state_bytes: Vec::new(),
            proof_height: msg.proof_height.into_contract(),
            proof_try: msg.proof_try,
            proof_client: msg.proof_client,
            proof_consensus: msg.proof_consensus,
            consensus_height: msg.consensus_height.into_contract(),
        }
    }
}

} // verus!
