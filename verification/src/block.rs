//! The blocks of the chain as the store sees them, the compaction of a full
//! block into the form kept in the compact-block region, and the
//! reassembly of a full block from that form.

use vstd::prelude::*;

verus! {

#[derive(Clone, Debug)]
pub struct Header {
    pub prevhash: Vec<u8>,
    pub timestamp: u64,
    pub height: u64,
    pub transactions_root: Vec<u8>,
    pub proposer: Vec<u8>,
}

#[derive(Clone, Debug)]
pub struct TxContent {
    pub version: u32,
    pub to: Vec<u8>,
    pub nonce: String,
    pub quota: u64,
    pub valid_until_block: u64,
    pub data: Vec<u8>,
    pub value: Vec<u8>,
    pub chain_id: Vec<u8>,
}

#[derive(Clone, Debug)]
pub struct TxWitness {
    pub signature: Vec<u8>,
    pub sender: Vec<u8>,
}

#[derive(Clone, Debug)]
pub struct SignedTx {
    pub transaction: Option<TxContent>,
    pub transaction_hash: Vec<u8>,
    pub witness: Option<TxWitness>,
}

#[derive(Clone, Debug)]
pub struct UtxoContent {
    pub version: u32,
    pub pre_tx_hash: Vec<u8>,
    pub output: Vec<u8>,
    pub lock_id: u64,
}

#[derive(Clone, Debug)]
pub struct SignedUtxoTx {
    pub transaction: Option<UtxoContent>,
    pub transaction_hash: Vec<u8>,
    pub witnesses: Vec<TxWitness>,
}

#[derive(Clone, Debug)]
pub enum Tx {
    NormalTx(SignedTx),
    UtxoTx(SignedUtxoTx),
}

#[derive(Clone, Debug)]
pub struct RawTx {
    pub tx: Option<Tx>,
}

#[derive(Clone, Debug)]
pub struct RawTransactions {
    pub body: Vec<RawTx>,
}

#[derive(Clone, Debug)]
pub struct CompactBlockBody {
    pub tx_hashes: Vec<Vec<u8>>,
}

#[derive(Clone, Debug)]
pub struct CompactForm {
    pub version: u32,
    pub header: Option<Header>,
    pub body: Option<CompactBlockBody>,
}

#[derive(Clone, Debug)]
pub struct FullBlock {
    pub version: u32,
    pub header: Option<Header>,
    pub body: Option<RawTransactions>,
    pub proof: Vec<u8>,
    pub state_root: Vec<u8>,
}

/// A block as a mathematical value: its transactions as a sequence and its
/// byte strings as sequences.
pub struct FullBlockView {
    pub version: u32,
    pub header: Option<Header>,
    pub txs: Option<Seq<RawTx>>,
    pub proof: Seq<u8>,
    pub state_root: Seq<u8>,
}

/// A compact block as a mathematical value.
pub struct CompactFormView {
    pub version: u32,
    pub header: Option<Header>,
    pub tx_hashes: Option<Seq<Seq<u8>>>,
}

impl View for FullBlock {
    type V = FullBlockView;

    open spec fn view(&self) -> FullBlockView {
        FullBlockView {
            version: self.version,
            header: self.header,
            txs: match self.body {
                Some(b) => Some(b.body@),
                None => None,
            },
            proof: self.proof@,
            state_root: self.state_root@,
        }
    }
}

impl View for CompactForm {
    type V = CompactFormView;

    open spec fn view(&self) -> CompactFormView {
        CompactFormView {
            version: self.version,
            header: self.header,
            tx_hashes: match self.body {
                Some(b) => Some(hash_views(b.tx_hashes@)),
                None => None,
            },
        }
    }
}

/// The byte strings held by a sequence of byte vectors.
pub open spec fn hash_views(v: Seq<Vec<u8>>) -> Seq<Seq<u8>> {
    v.map_values(|h: Vec<u8>| h@)
}

/// The transaction hash a raw transaction carries, if it carries one.
pub open spec fn spec_tx_hash(tx: RawTx) -> Option<Seq<u8>> {
    match tx.tx {
        Some(Tx::NormalTx(t)) => Some(t.transaction_hash@),
        Some(Tx::UtxoTx(t)) => Some(t.transaction_hash@),
        None => None,
    }
}

/// The hashes of the transactions of `txs` that carry one, in order.
pub open spec fn tx_hashes_of(txs: Seq<RawTx>) -> Seq<Seq<u8>>
    decreases txs.len(),
{
    if txs.len() == 0 {
        seq![]
    } else {
        let rest = tx_hashes_of(txs.drop_last());
        match spec_tx_hash(txs.last()) {
            Some(h) => rest.push(h),
            None => rest,
        }
    }
}

/// What compaction keeps of a block: version, header and transaction hashes.
pub open spec fn compact_of(b: FullBlockView) -> CompactFormView {
    CompactFormView {
        version: b.version,
        header: b.header,
        tx_hashes: Some(
            match b.txs {
                Some(txs) => tx_hashes_of(txs),
                None => seq![],
            },
        ),
    }
}

/// The block rebuilt from a compact block, its proof and its transactions.
pub open spec fn assembled(c: CompactFormView, proof: Seq<u8>, txs: Seq<RawTx>) -> FullBlockView {
    FullBlockView { version: c.version, header: c.header, txs: Some(txs), proof, state_root: seq![] }
}

/// The transaction hash a raw transaction carries, if any.
pub fn get_tx_hash(raw_tx: &RawTx) -> (h: Option<Vec<u8>>)
    ensures
        match h {
            Some(v) => spec_tx_hash(*raw_tx) == Some(v@),
            None => spec_tx_hash(*raw_tx) is None,
        },
{
    match &raw_tx.tx {
        Some(Tx::NormalTx(t)) => {
            let h = t.transaction_hash.clone();
            assert(h@ =~= t.transaction_hash@);
            Some(h)
        },
        Some(Tx::UtxoTx(t)) => {
            let h = t.transaction_hash.clone();
            assert(h@ =~= t.transaction_hash@);
            Some(h)
        },
        None => None,
    }
}

/// The compact form of a full block: its version and header, and the hashes
/// of its transactions in place of the transactions; a transaction without a
/// hash is left out.
pub fn full_to_compact(block: FullBlock) -> (c: CompactForm)
    ensures
        c@ == compact_of(block@),
        c.version == block.version,
        c.header == block.header,
        c.body is Some,
{
    let ghost bv = block@;
    let FullBlock { version, header, body, proof: _, state_root: _ } = block;
    let mut tx_hashes: Vec<Vec<u8>> = Vec::new();
    match body {
        Some(raw_txs) => {
            let txs = &raw_txs.body;
            let mut i: usize = 0;
            while i < txs.len()
                invariant
                    i <= txs.len(),
                    hash_views(tx_hashes@) == tx_hashes_of(txs@.subrange(0, i as int)),
                decreases txs.len() - i,
            {
                let ghost prefix = txs@.subrange(0, i as int);
                assert(txs@.subrange(0, i + 1).drop_last() =~= prefix);
                match get_tx_hash(&txs[i]) {
                    Some(h) => {
                        tx_hashes.push(h);
                    },
                    None => {},
                }
                assert(hash_views(tx_hashes@) =~= tx_hashes_of(txs@.subrange(0, i + 1)));
                i = i + 1;
            }
            assert(txs@.subrange(0, i as int) =~= txs@);
        },
        None => {
            assert(hash_views(tx_hashes@) =~= seq![]);
        },
    }
    let c = CompactForm { version, header, body: Some(CompactBlockBody { tx_hashes }) };
    assert(c@.tx_hashes =~= compact_of(bv).tx_hashes);
    c
}

/// The keys under which the transactions of a compact block are stored:
/// its transaction hashes, none when it has no body.
pub fn compact_tx_keys(compact: &CompactForm) -> (keys: Vec<Vec<u8>>)
    ensures
        hash_views(keys@) == match compact@.tx_hashes {
            Some(hs) => hs,
            None => seq![],
        },
{
    let mut keys: Vec<Vec<u8>> = Vec::new();
    match &compact.body {
        Some(b) => {
            let mut i: usize = 0;
            while i < b.tx_hashes.len()
                invariant
                    i <= b.tx_hashes.len(),
                    keys.len() == i,
                    forall|j: int| 0 <= j < i ==> (#[trigger] keys@[j])@ == b.tx_hashes@[j]@,
                decreases b.tx_hashes.len() - i,
            {
                let k = b.tx_hashes[i].clone();
                assert(k@ =~= b.tx_hashes[i as int]@);
                keys.push(k);
                i = i + 1;
            }
            assert(hash_views(keys@) =~= hash_views(b.tx_hashes@));
        },
        None => {
            assert(hash_views(keys@) =~= seq![]);
        },
    }
    keys
}

/// The full block rebuilt from a compact block, the block's proof and its
/// transactions in the order of the compact block's hashes. The state root
/// is not kept by compaction and comes back empty.
pub fn assemble_full_block(compact: CompactForm, proof: Vec<u8>, txs: Vec<RawTx>) -> (b: FullBlock)
    ensures
        b@ == assembled(compact@, proof@, txs@),
        b.version == compact.version,
        b.header == compact.header,
        b.proof@ == proof@,
        b.body matches Some(body) && body.body@ == txs@,
        b.state_root@.len() == 0,
{
    let b = FullBlock {
        version: compact.version,
        header: compact.header,
        body: Some(RawTransactions { body: txs }),
        proof,
        state_root: Vec::new(),
    };
    assert(b@.state_root =~= seq![]);
    b
}

/// Every transaction of `txs` carries a hash.
pub open spec fn all_hashed(txs: Seq<RawTx>) -> bool {
    forall|i: int| 0 <= i < txs.len() ==> (#[trigger] spec_tx_hash(txs[i])) is Some
}

/// When every transaction carries a hash, the compact block lists exactly
/// one hash per transaction, the hash of the transaction at the same place.
pub proof fn lemma_tx_hashes_of_all_hashed(txs: Seq<RawTx>)
    requires
        all_hashed(txs),
    ensures
        tx_hashes_of(txs).len() == txs.len(),
        forall|i: int| 0 <= i < txs.len() ==> Some(#[trigger] tx_hashes_of(txs)[i]) == spec_tx_hash(txs[i]),
    decreases txs.len(),
{
    if txs.len() > 0 {
        let init = txs.drop_last();
        assert forall|i: int| 0 <= i < init.len() implies (#[trigger] spec_tx_hash(init[i])) is Some by {
            assert(init[i] == txs[i]);
        }
        lemma_tx_hashes_of_all_hashed(init);
        assert(spec_tx_hash(txs[txs.len() - 1]) is Some);
        assert forall|i: int| 0 <= i < txs.len() implies Some(#[trigger] tx_hashes_of(txs)[i]) == spec_tx_hash(
            txs[i],
        ) by {
            if i < txs.len() - 1 {
                assert(init[i] == txs[i]);
            }
        }
    }
}

/// Compaction followed by reassembly gives the block back: a block with a
/// body whose transactions all carry a hash and with an empty state root is
/// rebuilt from its compact form, its proof and the transactions found under
/// the compact form's hashes. The hashes the compact form lists are those of
/// the block's transactions, one per transaction, in order.
pub proof fn lemma_compact_then_assemble(block: FullBlockView, txs: Seq<RawTx>)
    requires
        block.txs == Some(txs),
        all_hashed(txs),
        block.state_root == Seq::<u8>::empty(),
    ensures
        compact_of(block).tx_hashes matches Some(hs) && hs.len() == txs.len()
            && forall|i: int| 0 <= i < txs.len() ==> Some(#[trigger] hs[i]) == spec_tx_hash(txs[i]),
        assembled(compact_of(block), block.proof, txs) == block,
{
    lemma_tx_hashes_of_all_hashed(txs);
}

/// Compaction keeps the block's version and its header unchanged, always
/// has a list of hashes, and lists nothing when the block has no body.
pub proof fn lemma_compact_keeps_version_and_header(b: FullBlockView)
    ensures
        compact_of(b).version == b.version,
        compact_of(b).header == b.header,
        compact_of(b).tx_hashes is Some,
        b.txs is None ==> compact_of(b).tx_hashes == Some(Seq::<Seq<u8>>::empty()),
{
}

/// The hashes a compact form lists are hashes carried by the block's
/// transactions, never more of them than there are transactions; when all
/// transactions carry one, the i-th hash is that of the i-th transaction.
pub proof fn lemma_compact_hashes(txs: Seq<RawTx>)
    ensures
        tx_hashes_of(txs).len() <= txs.len(),
        forall|j: int|
            #![trigger tx_hashes_of(txs)[j]]
            0 <= j < tx_hashes_of(txs).len() ==> exists|i: int|
                0 <= i < txs.len() && #[trigger] spec_tx_hash(txs[i]) == Some(tx_hashes_of(txs)[j]),
        all_hashed(txs) ==> tx_hashes_of(txs).len() == txs.len(),
        all_hashed(txs) ==> forall|i: int|
            0 <= i < txs.len() ==> Some(#[trigger] tx_hashes_of(txs)[i]) == spec_tx_hash(txs[i]),
    decreases txs.len(),
{
    if all_hashed(txs) {
        lemma_tx_hashes_of_all_hashed(txs);
    }
    if txs.len() > 0 {
        let init = txs.drop_last();
        lemma_compact_hashes(init);
        let rest = tx_hashes_of(init);
        assert forall|j: int| #![trigger tx_hashes_of(txs)[j]] 0 <= j < tx_hashes_of(txs).len() implies exists|i: int|
            0 <= i < txs.len() && #[trigger] spec_tx_hash(txs[i]) == Some(tx_hashes_of(txs)[j]) by {
            if j < rest.len() {
                assert(rest[j] == rest[j]);
                let i = choose|i: int| 0 <= i < init.len() && #[trigger] spec_tx_hash(init[i]) == Some(rest[j]);
                assert(init[i] == txs[i]);
                assert(tx_hashes_of(txs)[j] == rest[j]);
            } else {
                assert(spec_tx_hash(txs[txs.len() - 1]) == Some(tx_hashes_of(txs)[j]));
            }
        }
    }
}

/// A rebuilt block takes the compact form's version and header unchanged,
/// the proof and the transactions it is given, and an empty state root.
pub proof fn lemma_assembled_parts(c: CompactFormView, proof: Seq<u8>, txs: Seq<RawTx>)
    ensures
        assembled(c, proof, txs).version == c.version,
        assembled(c, proof, txs).header == c.header,
        assembled(c, proof, txs).proof == proof,
        assembled(c, proof, txs).txs == Some(txs),
        assembled(c, proof, txs).state_root.len() == 0,
{
}

} // verus!
