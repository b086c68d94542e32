use voyager_message::ibc::{
    Any, ContractHeight, ContractMsgConnectionOpenAck, CosmosAccountId, Height,
    MsgConnectionOpenAck, Order, ProtoHeight, Version,
};
use voyager_message::prover_api::{
    FrElement, GenerateContractRequest, GenerateContractResponse, ProveRequest, ProveResponse,
    ValidatorSetCommit, VerifyRequest, VerifyResponse, ZeroKnowledgeProof,
};
use voyager_message::tendermint::{
    Block, Commit, Data, EvidenceList, Header, MissingField, ProtoBlock, ProtoCommit, ProtoData,
    ProtoEvidence, ProtoEvidenceList, ProtoHeader, TryFromBlockError, TryFromCommitError,
    TryFromEvidenceListError, TryFromHeaderError,
};

fn msg() -> MsgConnectionOpenAck<Any> {
    MsgConnectionOpenAck {
        connection_id: "connection-0".to_string(),
        counterparty_connection_id: "connection-7".to_string(),
        version: Version {
            identifier: "1".to_string(),
            features: vec![Order::Ordered, Order::Unordered],
        },
        client_state: Any { type_url: "/ibc.lightclients.x".to_string(), value: vec![1, 2] },
        proof_height: Height { revision_number: 1, revision_height: 100 },
        proof_try: vec![3],
        proof_client: vec![4],
        proof_consensus: vec![5],
        consensus_height: Height { revision_number: 0, revision_height: 42 },
    }
}

#[test]
fn connection_open_ack_to_proto() {
    let p = msg().into_proto_with_signer(&CosmosAccountId { address: "union1xyz".to_string() });
    assert_eq!(p.connection_id, "connection-0");
    assert_eq!(p.counterparty_connection_id, "connection-7");
    let v = p.version.unwrap();
    assert_eq!(v.identifier, "1");
    assert_eq!(v.features, vec!["ORDER_ORDERED".to_string(), "ORDER_UNORDERED".to_string()]);
    let a = p.client_state.unwrap();
    assert_eq!(a.type_url, "/ibc.lightclients.x");
    assert_eq!(a.value, vec![1, 2]);
    assert_eq!(p.proof_height, Some(ProtoHeight { revision_number: 1, revision_height: 100 }));
    assert_eq!(p.consensus_height, Some(ProtoHeight { revision_number: 0, revision_height: 42 }));
    assert_eq!((p.proof_try, p.proof_client, p.proof_consensus), (vec![3], vec![4], vec![5]));
    assert_eq!(p.signer, "union1xyz");
    assert!(p.host_consensus_state_proof.is_empty());
}

#[test]
fn connection_open_ack_to_contract() {
    let c = ContractMsgConnectionOpenAck::from(msg());
    assert_eq!(c.connection_id, "connection-0");
    assert_eq!(c.version.features, vec!["ORDER_ORDERED".to_string(), "ORDER_UNORDERED".to_string()]);
    assert!(c.client_state_bytes.is_empty());
    assert_eq!(c.proof_height, ContractHeight { revision_number: 1, revision_height: 100 });
    assert_eq!(c.consensus_height, ContractHeight { revision_number: 0, revision_height: 42 });
    assert_eq!(c.proof_try, vec![3]);
    let none = Version { identifier: "1".to_string(), features: vec![Order::NoneUnspecified] };
    assert_eq!(none.into_proto().features, vec!["ORDER_NONE_UNSPECIFIED".to_string()]);
}

fn header() -> Header {
    Header::new("union-1".to_string(), 7, vec![1; 32], vec![9, 9], vec![2; 20]).unwrap()
}

fn block() -> Block {
    Block {
        header: header(),
        data: Data { txs: vec![vec![1, 2], vec![]] },
        evidence: EvidenceList { evidence: vec![vec![5], vec![6, 7]] },
        last_commit: Commit::new(6, 0, vec![3; 32]).unwrap(),
    }
}

#[test]
fn block_round_trip() {
    let p = ProtoBlock::from(block());
    assert_eq!(
        p.evidence,
        Some(ProtoEvidenceList {
            evidence: vec![ProtoEvidence { sum: Some(vec![5]) }, ProtoEvidence { sum: Some(vec![6, 7]) }]
        })
    );
    assert_eq!(Block::try_from(p), Ok(block()));
}

fn proto() -> ProtoBlock {
    ProtoBlock::from(block())
}

#[test]
fn proto_block_round_trip() {
    let b = Block::try_from(proto()).unwrap();
    assert_eq!(ProtoBlock::from(b), proto());
}

#[test]
fn missing_parts_are_reported_in_order() {
    let mut p = proto();
    p.header = None;
    p.data = None;
    assert_eq!(Block::try_from(p), Err(TryFromBlockError::MissingField(MissingField("header"))));
    let mut p = proto();
    p.data = None;
    p.evidence = None;
    assert_eq!(Block::try_from(p), Err(TryFromBlockError::MissingField(MissingField("data"))));
    let mut p = proto();
    p.evidence = None;
    assert_eq!(Block::try_from(p), Err(TryFromBlockError::MissingField(MissingField("evidence"))));
    let mut p = proto();
    p.last_commit = None;
    assert_eq!(
        Block::try_from(p),
        Err(TryFromBlockError::MissingField(MissingField("last_commit")))
    );
}

#[test]
fn invalid_parts_are_reported() {
    let mut p = proto();
    p.header.as_mut().unwrap().height = -1;
    p.data = None;
    assert_eq!(Block::try_from(p), Err(TryFromBlockError::Header(TryFromHeaderError::NegativeHeight)));
    let mut p = proto();
    p.header.as_mut().unwrap().data_hash = vec![1; 31];
    assert_eq!(
        Block::try_from(p),
        Err(TryFromBlockError::Header(TryFromHeaderError::InvalidDataHashLength))
    );
    let mut p = proto();
    p.header.as_mut().unwrap().proposer_address = vec![];
    assert_eq!(
        Block::try_from(p),
        Err(TryFromBlockError::Header(TryFromHeaderError::InvalidProposerAddressLength))
    );
    let mut p = proto();
    p.evidence = Some(ProtoEvidenceList {
        evidence: vec![
            ProtoEvidence { sum: Some(vec![1]) },
            ProtoEvidence { sum: None },
            ProtoEvidence { sum: None },
        ],
    });
    assert_eq!(
        Block::try_from(p),
        Err(TryFromBlockError::EvidenceList(TryFromEvidenceListError::MissingEvidence { index: 1 }))
    );
    let mut p = proto();
    p.last_commit = Some(ProtoCommit { height: -5, round: 0, block_hash: vec![0; 32] });
    assert_eq!(Block::try_from(p), Err(TryFromBlockError::Commit(TryFromCommitError::NegativeHeight)));
    let mut p = proto();
    p.last_commit = Some(ProtoCommit { height: 5, round: -1, block_hash: vec![0; 32] });
    assert_eq!(Block::try_from(p), Err(TryFromBlockError::Commit(TryFromCommitError::NegativeRound)));
    let mut p = proto();
    p.last_commit = Some(ProtoCommit { height: 5, round: 1, block_hash: vec![0; 33] });
    assert_eq!(
        Block::try_from(p),
        Err(TryFromBlockError::Commit(TryFromCommitError::InvalidBlockHashLength))
    );
}

#[test]
fn parts_convert_alone() {
    let h = Header::try_from_proto(ProtoHeader {
        chain_id: "c".to_string(),
        height: 0,
        data_hash: vec![0; 32],
        app_hash: vec![],
        proposer_address: vec![0; 20],
    })
    .unwrap();
    assert_eq!(h.height(), 0);
    assert_eq!(h.chain_id(), "c");
    assert_eq!(h.data_hash(), &vec![0; 32]);
    assert!(h.app_hash().is_empty());
    assert_eq!(h.proposer_address(), &vec![0; 20]);
    assert_eq!(Data::from_proto(ProtoData { txs: vec![vec![1]] }).txs, vec![vec![1]]);
    assert_eq!(
        EvidenceList::try_from_proto(ProtoEvidenceList { evidence: vec![] }).unwrap().evidence,
        Vec::<Vec<u8>>::new()
    );
}

#[test]
fn prover_messages_hold_their_fields() {
    let proof = ZeroKnowledgeProof {
        content: vec![1],
        compressed_content: vec![2],
        evm_proof: vec![3],
        public_inputs: vec![4],
    };
    let req = VerifyRequest {
        proof: Some(proof.clone()),
        trusted_validator_set_root: vec![5],
        untrusted_validator_set_root: vec![6],
        block_header_x: Some(FrElement { value: vec![7] }),
        block_header_y: None,
    };
    assert_eq!(req.clone(), req);
    let resp = ProveResponse {
        proof: Some(proof),
        trusted_validator_set_root: vec![],
        untrusted_validator_set_root: vec![],
    };
    assert_eq!(resp.proof.unwrap().evm_proof, vec![3]);
    assert_eq!(ProveRequest::default().vote, None);
    assert!(ValidatorSetCommit::default().validators.is_empty());
    assert!(!VerifyResponse::default().valid);
    assert_eq!(GenerateContractRequest {}, GenerateContractRequest::default());
    assert!(GenerateContractResponse::default().content.is_empty());
}

#[test]
fn invalid_parts_cannot_be_built() {
    assert_eq!(
        Header::new("c".to_string(), -1, vec![0; 32], vec![], vec![0; 20]),
        Err(TryFromHeaderError::NegativeHeight)
    );
    assert_eq!(
        Header::new("c".to_string(), 1, vec![0; 32], vec![], vec![0; 19]),
        Err(TryFromHeaderError::InvalidProposerAddressLength)
    );
    assert_eq!(Commit::new(1, -1, vec![0; 32]), Err(TryFromCommitError::NegativeRound));
    assert_eq!(Commit::new(1, 1, vec![0; 31]), Err(TryFromCommitError::InvalidBlockHashLength));
    let c = Commit::new(3, 2, vec![7; 32]).unwrap();
    assert_eq!((c.height(), c.round(), c.block_hash().len()), (3, 2, 32));
}
