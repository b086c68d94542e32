use vstd::prelude::*;

verus! {

/// A field that a protobuf message must carry was absent; it holds the field's
/// name.
#[derive(Debug, Clone, Copy, PartialEq, Eq)]
pub struct MissingField(pub &'static str);

/// The protobuf form of a block header.
#[derive(Debug, PartialEq, Eq)]
pub struct ProtoHeader {
    pub chain_id: String,
    pub height: i64,
    pub data_hash: Vec<u8>,
    pub app_hash: Vec<u8>,
    pub proposer_address: Vec<u8>,
}

/// The protobuf form of the transactions of a block.
#[derive(Debug, PartialEq, Eq)]
pub struct ProtoData {
    pub txs: Vec<Vec<u8>>,
}

/// The protobuf form of one piece of evidence: its encoded content, which the
/// message may lack.
#[derive(Debug, PartialEq, Eq)]
pub struct ProtoEvidence {
    pub sum: Option<Vec<u8>>,
}

/// The protobuf form of the evidence of misbehaviour in a block.
#[derive(Debug, PartialEq, Eq)]
pub struct ProtoEvidenceList {
    pub evidence: Vec<ProtoEvidence>,
}

/// The protobuf form of the commit of the previous block.
#[derive(Debug, PartialEq, Eq)]
pub struct ProtoCommit {
    pub height: i64,
    pub round: i32,
    pub block_hash: Vec<u8>,
}

/// The protobuf form of a block: every part may be absent.
#[derive(Debug, PartialEq, Eq)]
pub struct ProtoBlock {
    pub header: Option<ProtoHeader>,
    pub data: Option<ProtoData>,
    pub evidence: Option<ProtoEvidenceList>,
    pub last_commit: Option<ProtoCommit>,
}

/// A block header: a non-negative height, a 32-byte data hash and a 20-byte
/// proposer address. Every header meets these, as its constructors check.
#[derive(Debug, PartialEq, Eq)]
pub struct Header {
    chain_id: String,
    height: i64,
    data_hash: Vec<u8>,
    app_hash: Vec<u8>,
    proposer_address: Vec<u8>,
}

/// The transactions of a block.
#[derive(Debug, PartialEq, Eq)]
pub struct Data {
    pub txs: Vec<Vec<u8>>,
}

/// The evidence of misbehaviour in a block: the encoded content of each piece.
#[derive(Debug, PartialEq, Eq)]
pub struct EvidenceList {
    pub evidence: Vec<Vec<u8>>,
}

/// The commit of the previous block: a non-negative height and round, and the
/// 32-byte hash of the committed block. Every commit meets these, as its
/// constructors check.
#[derive(Debug, PartialEq, Eq)]
pub struct Commit {
    height: i64,
    round: i32,
    block_hash: Vec<u8>,
}

/// A block.
#[derive(Debug, PartialEq, Eq)]
pub struct Block {
    pub header: Header,
    pub data: Data,
    pub evidence: EvidenceList,
    pub last_commit: Commit,
}

/// Why a protobuf header is not a header.
#[derive(Debug, Clone, Copy, PartialEq, Eq)]
pub enum TryFromHeaderError {
    NegativeHeight,
    InvalidDataHashLength,
    InvalidProposerAddressLength,
}

/// Why a protobuf evidence list is not an evidence list: the piece at `index`
/// has no content.
#[derive(Debug, Clone, Copy, PartialEq, Eq)]
pub enum TryFromEvidenceListError {
    MissingEvidence { index: usize },
}

/// Why a protobuf commit is not a commit.
#[derive(Debug, Clone, Copy, PartialEq, Eq)]
pub enum TryFromCommitError {
    NegativeHeight,
    NegativeRound,
    InvalidBlockHashLength,
}

/// Why a protobuf block is not a block.
#[derive(Debug, Clone, Copy, PartialEq, Eq)]
pub enum TryFromBlockError {
    MissingField(MissingField),
    Header(TryFromHeaderError),
    EvidenceList(TryFromEvidenceListError),
    Commit(TryFromCommitError),
}

/// The content of a header, which its protobuf form shares.
pub struct HeaderFields {
    pub chain_id: Seq<char>,
    pub height: i64,
    pub data_hash: Seq<u8>,
    pub app_hash: Seq<u8>,
    pub proposer_address: Seq<u8>,
}

/// The content of a commit, which its protobuf form shares.
pub struct CommitFields {
    pub height: i64,
    pub round: i32,
    pub block_hash: Seq<u8>,
}

/// The content of a block.
pub struct BlockView {
    pub header: HeaderFields,
    pub txs: Seq<Seq<u8>>,
    pub evidence: Seq<Seq<u8>>,
    pub last_commit: CommitFields,
}

/// The content of a protobuf block.
pub struct ProtoBlockView {
    pub header: Option<HeaderFields>,
    pub txs: Option<Seq<Seq<u8>>>,
    pub evidence: Option<Seq<Option<Seq<u8>>>>,
    pub last_commit: Option<CommitFields>,
}

impl View for ProtoHeader {
    type V = HeaderFields;

    open spec fn view(&self) -> HeaderFields {
        HeaderFields {
            chain_id: self.chain_id@,
            height: self.height,
            data_hash: self.data_hash@,
            app_hash: self.app_hash@,
            proposer_address: self.proposer_address@,
        }
    }
}

impl View for Header {
    type V = HeaderFields;

    closed spec fn view(&self) -> HeaderFields {
        HeaderFields {
            chain_id: self.chain_id@,
            height: self.height,
            data_hash: self.data_hash@,
            app_hash: self.app_hash@,
            proposer_address: self.proposer_address@,
        }
    }
}

impl View for ProtoCommit {
    type V = CommitFields;

    open spec fn view(&self) -> CommitFields {
        CommitFields { height: self.height, round: self.round, block_hash: self.block_hash@ }
    }
}

impl View for Commit {
    type V = CommitFields;

    closed spec fn view(&self) -> CommitFields {
        CommitFields { height: self.height, round: self.round, block_hash: self.block_hash@ }
    }
}

/// The transactions, each as its bytes.
pub open spec fn txs_view(txs: Seq<Vec<u8>>) -> Seq<Seq<u8>> {
    txs.map_values(|t: Vec<u8>| t@)
}

/// The evidence pieces of a protobuf list, each as its content if it has one.
pub open spec fn proto_evidence_view(e: Seq<ProtoEvidence>) -> Seq<Option<Seq<u8>>> {
    e.map_values(
        |p: ProtoEvidence|
            match p.sum {
                Some(b) => Some(b@),
                None => None,
            },
    )
}

impl View for ProtoEvidenceList {
    type V = Seq<Option<Seq<u8>>>;

    open spec fn view(&self) -> Seq<Option<Seq<u8>>> {
        proto_evidence_view(self.evidence@)
    }
}

impl View for EvidenceList {
    type V = Seq<Seq<u8>>;

    open spec fn view(&self) -> Seq<Seq<u8>> {
        txs_view(self.evidence@)
    }
}

impl View for Block {
    type V = BlockView;

    open spec fn view(&self) -> BlockView {
        BlockView {
            header: self.header@,
            txs: txs_view(self.data.txs@),
            evidence: self.evidence@,
            last_commit: self.last_commit@,
        }
    }
}

impl View for ProtoBlock {
    type V = ProtoBlockView;

    open spec fn view(&self) -> ProtoBlockView {
        ProtoBlockView {
            header: match self.header {
                Some(h) => Some(h@),
                None => None,
            },
            txs: match self.data {
                Some(d) => Some(txs_view(d.txs@)),
                None => None,
            },
            evidence: match self.evidence {
                Some(e) => Some(e@),
                None => None,
            },
            last_commit: match self.last_commit {
                Some(c) => Some(c@),
                None => None,
            },
        }
    }
}

/// Whether a protobuf header is a header: its height is not negative, its data
/// hash has 32 bytes and its proposer address 20; otherwise why not.
pub open spec fn header_check(h: HeaderFields) -> Option<TryFromHeaderError> {
    if h.height < 0 {
        Some(TryFromHeaderError::NegativeHeight)
    } else if h.data_hash.len() != 32 {
        Some(TryFromHeaderError::InvalidDataHashLength)
    } else if h.proposer_address.len() != 20 {
        Some(TryFromHeaderError::InvalidProposerAddressLength)
    } else {
        None
    }
}

/// Whether a protobuf commit is a commit: its height and round are not
/// negative and its block hash has 32 bytes; otherwise why not.
pub open spec fn commit_check(c: CommitFields) -> Option<TryFromCommitError> {
    if c.height < 0 {
        Some(TryFromCommitError::NegativeHeight)
    } else if c.round < 0 {
        Some(TryFromCommitError::NegativeRound)
    } else if c.block_hash.len() != 32 {
        Some(TryFromCommitError::InvalidBlockHashLength)
    } else {
        None
    }
}

/// Piece `i` is the first evidence piece without content.
pub open spec fn first_missing(e: Seq<Option<Seq<u8>>>, i: int) -> bool {
    0 <= i < e.len() && e[i] is None && forall|j: int| 0 <= j < i ==> #[trigger] e[j] is Some
}

/// The content of every piece of a protobuf evidence list that has all of
/// them, or the index of the first piece without content.
pub open spec fn evidence_check(e: Seq<Option<Seq<u8>>>) -> Result<Seq<Seq<u8>>, int> {
    if forall|i: int| 0 <= i < e.len() ==> #[trigger] e[i] is Some {
        Ok(e.map_values(|p: Option<Seq<u8>>| p->Some_0))
    } else {
        Err(choose|i: int| first_missing(e, i))
    }
}

/// A block as its protobuf form: every part present.
pub open spec fn block_to_proto(b: BlockView) -> ProtoBlockView {
    ProtoBlockView {
        header: Some(b.header),
        txs: Some(b.txs),
        evidence: Some(b.evidence.map_values(|x: Seq<u8>| Some(x))),
        last_commit: Some(b.last_commit),
    }
}

/// A protobuf block as a block, or the first reason, part by part in the order
/// header, data, evidence, last commit, why it is not one.
pub open spec fn block_from_proto(p: ProtoBlockView) -> Result<BlockView, TryFromBlockError> {
    if p.header is None {
        Err(TryFromBlockError::MissingField(MissingField("header")))
    } else if header_check(p.header->Some_0) is Some {
        Err(TryFromBlockError::Header(header_check(p.header->Some_0)->Some_0))
    } else if p.txs is None {
        Err(TryFromBlockError::MissingField(MissingField("data")))
    } else if p.evidence is None {
        Err(TryFromBlockError::MissingField(MissingField("evidence")))
    } else if evidence_check(p.evidence->Some_0) is Err {
        Err(
            TryFromBlockError::EvidenceList(
                TryFromEvidenceListError::MissingEvidence {
                    index: evidence_check(p.evidence->Some_0)->Err_0 as usize,
                },
            ),
        )
    } else if p.last_commit is None {
        Err(TryFromBlockError::MissingField(MissingField("last_commit")))
    } else if commit_check(p.last_commit->Some_0) is Some {
        Err(TryFromBlockError::Commit(commit_check(p.last_commit->Some_0)->Some_0))
    } else {
        Ok(
            BlockView {
                header: p.header->Some_0,
                txs: p.txs->Some_0,
                evidence: evidence_check(p.evidence->Some_0)->Ok_0,
                last_commit: p.last_commit->Some_0,
            },
        )
    }
}

/// A block whose header and last commit pass the checks that a protobuf block
/// must pass.
pub open spec fn block_valid(b: BlockView) -> bool {
    header_check(b.header) is None && commit_check(b.last_commit) is None
}

impl Header {
    #[verifier::type_invariant]
    spec fn checked(self) -> bool {
        header_check(self@) is None
    }

    /// The header with these fields, or why they do not make one.
    pub fn new(
        chain_id: String,
        height: i64,
        data_hash: Vec<u8>,
        app_hash: Vec<u8>,
        proposer_address: Vec<u8>,
    ) -> (r: Result<Header, TryFromHeaderError>)
        ensures
            ({
                let f = HeaderFields {
                    chain_id: chain_id@,
                    height,
                    data_hash: data_hash@,
                    app_hash: app_hash@,
                    proposer_address: proposer_address@,
                };
                match header_check(f) {
                    None => r matches Ok(h) && h@ == f,
                    Some(e) => r == Err::<Header, TryFromHeaderError>(e),
                }
            }),
    {
        Header::try_from_proto(ProtoHeader { chain_id, height, data_hash, app_hash, proposer_address })
    }

    /// The chain id.
    pub fn chain_id(&self) -> (r: &String)
        ensures
            r@ == self@.chain_id,
    {
        &self.chain_id
    }

    /// The height.
    pub fn height(&self) -> (r: i64)
        ensures
            r == self@.height,
    {
        self.height
    }

    /// The data hash.
    pub fn data_hash(&self) -> (r: &Vec<u8>)
        ensures
            r@ == self@.data_hash,
    {
        &self.data_hash
    }

    /// The app hash.
    pub fn app_hash(&self) -> (r: &Vec<u8>)
        ensures
            r@ == self@.app_hash,
    {
        &self.app_hash
    }

    /// The proposer address.
    pub fn proposer_address(&self) -> (r: &Vec<u8>)
        ensures
            r@ == self@.proposer_address,
    {
        &self.proposer_address
    }

    /// This header as its protobuf form, which passes the checks.
    pub fn into_proto(self) -> (p: ProtoHeader)
        ensures
            p@ == self@,
            header_check(p@) is None,
    {
        proof {
            use_type_invariant(&self);
        }
        ProtoHeader {
            chain_id: self.chain_id,
            height: self.height,
            data_hash: self.data_hash,
            app_hash: self.app_hash,
            proposer_address: self.proposer_address,
        }
    }

    /// The header that a protobuf header describes.
    pub fn try_from_proto(p: ProtoHeader) -> (r: Result<Header, TryFromHeaderError>)
        ensures
            match header_check(p@) {
                None => r matches Ok(h) && h@ == p@,
                Some(e) => r == Err::<Header, TryFromHeaderError>(e),
            },
    {
        if p.height < 0 {
            Err(TryFromHeaderError::NegativeHeight)
        } else if p.data_hash.len() != 32 {
            Err(TryFromHeaderError::InvalidDataHashLength)
        } else if p.proposer_address.len() != 20 {
            Err(TryFromHeaderError::InvalidProposerAddressLength)
        } else {
            Ok(
                Header {
                    chain_id: p.chain_id,
                    height: p.height,
                    data_hash: p.data_hash,
                    app_hash: p.app_hash,
                    proposer_address: p.proposer_address,
                },
            )
        }
    }
}

impl Commit {
    #[verifier::type_invariant]
    spec fn checked(self) -> bool {
        commit_check(self@) is None
    }

    /// The commit with these fields, or why they do not make one.
    pub fn new(height: i64, round: i32, block_hash: Vec<u8>) -> (r: Result<Commit, TryFromCommitError>)
        ensures
            ({
                let f = CommitFields { height, round, block_hash: block_hash@ };
                match commit_check(f) {
                    None => r matches Ok(c) && c@ == f,
                    Some(e) => r == Err::<Commit, TryFromCommitError>(e),
                }
            }),
    {
        Commit::try_from_proto(ProtoCommit { height, round, block_hash })
    }

    /// The height.
    pub fn height(&self) -> (r: i64)
        ensures
            r == self@.height,
    {
        self.height
    }

    /// The round.
    pub fn round(&self) -> (r: i32)
        ensures
            r == self@.round,
    {
        self.round
    }

    /// The hash of the committed block.
    pub fn block_hash(&self) -> (r: &Vec<u8>)
        ensures
            r@ == self@.block_hash,
    {
        &self.block_hash
    }

    /// This commit as its protobuf form, which passes the checks.
    pub fn into_proto(self) -> (p: ProtoCommit)
        ensures
            p@ == self@,
            commit_check(p@) is None,
    {
        proof {
            use_type_invariant(&self);
        }
        ProtoCommit { height: self.height, round: self.round, block_hash: self.block_hash }
    }

    /// The commit that a protobuf commit describes.
    pub fn try_from_proto(p: ProtoCommit) -> (r: Result<Commit, TryFromCommitError>)
        ensures
            match commit_check(p@) {
                None => r matches Ok(c) && c@ == p@,
                Some(e) => r == Err::<Commit, TryFromCommitError>(e),
            },
    {
        if p.height < 0 {
            Err(TryFromCommitError::NegativeHeight)
        } else if p.round < 0 {
            Err(TryFromCommitError::NegativeRound)
        } else if p.block_hash.len() != 32 {
            Err(TryFromCommitError::InvalidBlockHashLength)
        } else {
            Ok(Commit { height: p.height, round: p.round, block_hash: p.block_hash })
        }
    }
}

impl Data {
    /// These transactions as their protobuf form.
    pub fn into_proto(self) -> (p: ProtoData)
        ensures
            txs_view(p.txs@) == txs_view(self.txs@),
    {
        ProtoData { txs: self.txs }
    }

    /// The transactions that a protobuf message lists.
    pub fn from_proto(p: ProtoData) -> (d: Data)
        ensures
            txs_view(d.txs@) == txs_view(p.txs@),
    {
        Data { txs: p.txs }
    }
}

impl EvidenceList {
    /// This evidence as its protobuf form, every piece with its content.
    pub fn into_proto(self) -> (p: ProtoEvidenceList)
        ensures
            p@ == self@.map_values(|x: Seq<u8>| Some(x)),
    {
        let mut pieces = self.evidence;
        let ghost all = pieces@;
        let mut reversed: Vec<ProtoEvidence> = Vec::new();
        while pieces.len() > 0
            invariant
                reversed@.len() + pieces@.len() == all.len(),
                pieces@ == all.subrange(0, pieces@.len() as int),
                forall|k: int| 0 <= k < reversed@.len() ==> #[trigger] reversed@[k].sum == Some(
                    all[all.len() - 1 - k],
                ),
            decreases pieces.len(),
        {
            let ghost before = pieces@;
            let piece = pieces.pop().unwrap();
            reversed.push(ProtoEvidence { sum: Some(piece) });
            assert(pieces@ =~= all.subrange(0, pieces@.len() as int));
        }
        let mut out: Vec<ProtoEvidence> = Vec::new();
        let ghost rev = reversed@;
        while reversed.len() > 0
            invariant
                out@.len() + reversed@.len() == all.len(),
                reversed@ == rev.subrange(0, reversed@.len() as int),
                rev.len() == all.len(),
                forall|k: int| 0 <= k < rev.len() ==> #[trigger] rev[k].sum == Some(
                    all[all.len() - 1 - k],
                ),
                forall|k: int| 0 <= k < out@.len() ==> #[trigger] out@[k].sum == Some(all[k]),
            decreases reversed.len(),
        {
            let piece = reversed.pop().unwrap();
            assert(piece == rev[reversed@.len() as int]);
            out.push(piece);
            assert(reversed@ =~= rev.subrange(0, reversed@.len() as int));
        }
        let p = ProtoEvidenceList { evidence: out };
        assert(p@ =~= self@.map_values(|x: Seq<u8>| Some(x)));
        p
    }

    /// The evidence that a protobuf evidence list describes: every piece must
    /// have content, and the error names the first that has none.
    pub fn try_from_proto(p: ProtoEvidenceList) -> (r: Result<EvidenceList, TryFromEvidenceListError>)
        ensures
            match evidence_check(p@) {
                Ok(e) => r matches Ok(l) && l@ == e,
                Err(i) => r == Err::<EvidenceList, TryFromEvidenceListError>(
                    TryFromEvidenceListError::MissingEvidence { index: i as usize },
                ),
            },
    {
        let ghost pv = p@;
        let n = p.evidence.len();
        let mut i: usize = 0;
        while i < n
            invariant
                n == pv.len(),
                pv == p@,
                i <= n,
                forall|j: int| 0 <= j < i ==> #[trigger] pv[j] is Some,
            decreases n - i,
        {
            if p.evidence[i].sum.is_none() {
                proof {
                    assert(first_missing(pv, i as int));
                    let c = choose|k: int| first_missing(pv, k);
                    if c < i {
                        assert(pv[c] is Some);
                    }
                    if c > i {
                        assert(pv[i as int] is Some);
                    }
                }
                return Err(TryFromEvidenceListError::MissingEvidence { index: i });
            }
            i = i + 1;
        }
        let mut pieces = p.evidence;
        let ghost all = pieces@;
        let mut reversed: Vec<Vec<u8>> = Vec::new();
        while pieces.len() > 0
            invariant
                reversed@.len() + pieces@.len() == all.len(),
                all.len() == pv.len(),
                pv == proto_evidence_view(all),
                forall|j: int| 0 <= j < all.len() ==> #[trigger] pv[j] is Some,
                pieces@ == all.subrange(0, pieces@.len() as int),
                forall|k: int| 0 <= k < reversed@.len() ==> Some(#[trigger] reversed@[k]@) == pv[all.len() - 1 - k],
            decreases pieces.len(),
        {
            let piece = pieces.pop().unwrap();
            let ghost idx = pieces@.len() as int;
            assert(piece == all[idx]);
            assert(pv[idx] is Some);
            match piece.sum {
                Some(bytes) => {
                    reversed.push(bytes);
                },
                None => {},
            }
            assert(pieces@ =~= all.subrange(0, pieces@.len() as int));
        }
        let mut out: Vec<Vec<u8>> = Vec::new();
        let ghost rev = reversed@;
        while reversed.len() > 0
            invariant
                out@.len() + reversed@.len() == pv.len(),
                reversed@ == rev.subrange(0, reversed@.len() as int),
                rev.len() == pv.len(),
                forall|k: int| 0 <= k < rev.len() ==> Some(#[trigger] rev[k]@) == pv[pv.len() - 1 - k],
                forall|k: int| 0 <= k < out@.len() ==> Some(#[trigger] out@[k]@) == pv[k],
            decreases reversed.len(),
        {
            let piece = reversed.pop().unwrap();
            assert(piece == rev[reversed@.len() as int]);
            out.push(piece);
            assert(reversed@ =~= rev.subrange(0, reversed@.len() as int));
        }
        let l = EvidenceList { evidence: out };
        assert(l@ =~= pv.map_values(|q: Option<Seq<u8>>| q->Some_0));
        Ok(l)
    }
}

impl ProtoBlock {
    /// A block as its protobuf form, with every part present.
    pub fn from(value: Block) -> (p: ProtoBlock)
        ensures
            p@ == block_to_proto(value@),
            block_from_proto(p@) == Ok::<BlockView, TryFromBlockError>(value@),
    {
        proof {
            use_type_invariant(&value.header);
            use_type_invariant(&value.last_commit);
            crate::laws::law_block_round_trip(value@);
        }
        let p = ProtoBlock {
            header: Some(value.header.into_proto()),
            data: Some(value.data.into_proto()),
            evidence: Some(value.evidence.into_proto()),
            last_commit: Some(value.last_commit.into_proto()),
        };
        assert(p@ =~= block_to_proto(value@));
        p
    }
}

impl Block {
    /// The block that a protobuf block describes: each part must be present
    /// and valid, checked in the order header, data, evidence, last commit.
    pub fn try_from(value: ProtoBlock) -> (r: Result<Block, TryFromBlockError>)
        ensures
            match block_from_proto(value@) {
                Ok(b) => r matches Ok(block) && block@ == b,
                Err(e) => r == Err::<Block, TryFromBlockError>(e),
            },
    {
        let ghost pv = value@;
        let header = match value.header {
            Some(h) => h,
            None => return Err(TryFromBlockError::MissingField(MissingField("header"))),
        };
        let header = match Header::try_from_proto(header) {
            Ok(h) => h,
            Err(e) => return Err(TryFromBlockError::Header(e)),
        };
        let data = match value.data {
            Some(d) => Data::from_proto(d),
            None => return Err(TryFromBlockError::MissingField(MissingField("data"))),
        };
        let evidence = match value.evidence {
            Some(e) => e,
            None => return Err(TryFromBlockError::MissingField(MissingField("evidence"))),
        };
        let evidence = match EvidenceList::try_from_proto(evidence) {
            Ok(e) => e,
            Err(e) => return Err(TryFromBlockError::EvidenceList(e)),
        };
        let last_commit = match value.last_commit {
            Some(c) => c,
            None => return Err(TryFromBlockError::MissingField(MissingField("last_commit"))),
        };
        let last_commit = match Commit::try_from_proto(last_commit) {
            Ok(c) => c,
            Err(e) => return Err(TryFromBlockError::Commit(e)),
        };
        let block = Block { header, data, evidence, last_commit };
        assert(block@ =~= block_from_proto(pv)->Ok_0);
        Ok(block)
    }
}

} // verus!
