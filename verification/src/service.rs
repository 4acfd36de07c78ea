//! The decisions of the storage service in front of the store: where a
//! request goes, the reads a load makes and the reply it gives, and what
//! the health check reports.

use vstd::prelude::*;
use crate::block::{
    CompactForm, CompactFormView, RawTx, assemble_full_block, assembled, compact_tx_keys, hash_views,
};
use crate::bytes::{be_bytes, be_bytes_spec};
use crate::error::StorageError;
use crate::proto::{
    decode_compact_block, decode_raw_tx, encode_block, spec_decode_compact_block, spec_decode_raw_tx,
    spec_encode_block,
};
use crate::region::global_region;
use crate::store::{
    BLOCK_HASH_REGION, COMPACT_BLOCK_REGION, FULL_BLOCK_REGION, PROOF_REGION, TRANSACTIONS_REGION,
};

verus! {

/// The region under which a full block is handed over for storing.
pub const ALL_BLOCK_DATA_REGION: u32 = 12;


/// Where a store request goes.
#[derive(Debug)]
pub enum StoreRoute {
    /// A full block, handed over as its encoding under its height.
    FullBlock { height: Vec<u8>, block: Vec<u8> },
    /// One entry of a region.
    Entry { region: u32, key: Vec<u8>, value: Vec<u8> },
}

/// Whether two byte strings are equal.
fn same_bytes(a: &[u8], b: &[u8]) -> (r: bool)
    ensures
        r == (a@ == b@),
{
    if a.len() != b.len() {
        return false;
    }
    let mut i: usize = 0;
    while i < a.len()
        invariant
            a.len() == b.len(),
            i <= a.len(),
            a@.subrange(0, i as int) == b@.subrange(0, i as int),
        decreases a.len() - i,
    {
        if a[i] != b[i] {
            assert(a@.subrange(0, i + 1)[i as int] != b@.subrange(0, i + 1)[i as int]);
            return false;
        }
        assert(a@.subrange(0, i + 1) =~= a@.subrange(0, i as int).push(a[i as int]));
        assert(b@.subrange(0, i + 1) =~= b@.subrange(0, i as int).push(b[i as int]));
        i = i + 1;
    }
    assert(a@ =~= a@.subrange(0, i as int));
    assert(b@ =~= b@.subrange(0, i as int));
    true
}

/// The route of a store request: the all-block-data region takes a full
/// block, every other region a single entry.
pub fn route_store(region: u32, key: Vec<u8>, value: Vec<u8>) -> (r: StoreRoute)
    ensures
        region == ALL_BLOCK_DATA_REGION ==> (r matches StoreRoute::FullBlock { height, block }
            && height == key && block == value),
        region != ALL_BLOCK_DATA_REGION ==> (r matches StoreRoute::Entry { region: rg, key: k, value: v }
            && rg == region && k == key && v == value),
{
    if region == ALL_BLOCK_DATA_REGION {
        StoreRoute::FullBlock { height: key, block: value }
    } else {
        StoreRoute::Entry { region, key, value }
    }
}

/// Where a load request stands between reads of the store.
#[derive(Debug)]
pub enum LoadState {
    /// Waiting for the entry asked for.
    Entry,
    /// Waiting for the current height, to read the hash stored under it.
    Height,
    /// Waiting for the hash of the current block.
    Hash,
    /// Waiting for the encoded compact form of a full block.
    Compact { height: Vec<u8> },
    /// Waiting for the proof of a full block.
    Proof { compact: CompactForm },
    /// Waiting for the next transaction of a full block: `keys` are the
    /// hashes to read, `txs` the transactions read so far.
    Transactions { compact: CompactForm, proof: Vec<u8>, keys: Vec<Vec<u8>>, txs: Vec<RawTx> },
    /// The reply has been given.
    Done,
}

pub enum LoadStateView {
    Entry,
    Height,
    Hash,
    Compact { height: Seq<u8> },
    Proof { compact: CompactFormView },
    Transactions { compact: CompactFormView, proof: Seq<u8>, keys: Seq<Seq<u8>>, txs: Seq<RawTx> },
    Done,
}

impl View for LoadState {
    type V = LoadStateView;

    open spec fn view(&self) -> LoadStateView {
        match self {
            LoadState::Entry => LoadStateView::Entry,
            LoadState::Height => LoadStateView::Height,
            LoadState::Hash => LoadStateView::Hash,
            LoadState::Compact { height } => LoadStateView::Compact { height: height@ },
            LoadState::Proof { compact } => LoadStateView::Proof { compact: compact@ },
            LoadState::Transactions { compact, proof, keys, txs } => LoadStateView::Transactions {
                compact: compact@,
                proof: proof@,
                keys: hash_views(keys@),
                txs: txs@,
            },
            LoadState::Done => LoadStateView::Done,
        }
    }
}

/// What the service does next for a load request: read an entry of the
/// store, or reply.
#[derive(Debug)]
pub enum LoadAction {
    Read { region: u32, key: Vec<u8> },
    Reply(Result<Vec<u8>, StorageError>),
}

pub enum LoadActionView {
    Read { region: u32, key: Seq<u8> },
    Reply(Result<Seq<u8>, StorageError>),
}

pub open spec fn result_view(r: Result<Vec<u8>, StorageError>) -> Result<Seq<u8>, StorageError> {
    match r {
        Ok(v) => Ok(v@),
        Err(e) => Err(e),
    }
}

impl View for LoadAction {
    type V = LoadActionView;

    open spec fn view(&self) -> LoadActionView {
        match self {
            LoadAction::Read { region, key } => LoadActionView::Read { region: *region, key: key@ },
            LoadAction::Reply(r) => LoadActionView::Reply(result_view(*r)),
        }
    }
}

/// The hashes under which the transactions of a compact block are read.
pub open spec fn keys_of(c: CompactFormView) -> Seq<Seq<u8>> {
    match c.tx_hashes {
        Some(hs) => hs,
        None => seq![],
    }
}

/// The reply to a full-block load: the encoding of the block rebuilt from
/// its compact form, its proof and its transactions.
pub open spec fn block_reply(c: CompactFormView, proof: Seq<u8>, txs: Seq<RawTx>) -> Result<
    Seq<u8>,
    StorageError,
> {
    match spec_encode_block(assembled(c, proof, txs)) {
        Some(b) => Ok(b),
        None => Err(StorageError::EncodeBlock),
    }
}

/// How a load request starts: the full-block region reads the compact form
/// under the height; key 1 of the global region stands for the hash of the
/// current block and reads the current height kept under key 0; every other
/// request reads its entry.
pub open spec fn load_start(region: u32, key: Seq<u8>) -> (LoadStateView, LoadActionView) {
    if region == FULL_BLOCK_REGION {
        (LoadStateView::Compact { height: key }, LoadActionView::Read { region: COMPACT_BLOCK_REGION, key })
    } else if region == 0 && key == be_bytes_spec(1) {
        (LoadStateView::Height, LoadActionView::Read { region: 0, key: be_bytes_spec(0) })
    } else {
        (LoadStateView::Entry, LoadActionView::Read { region, key })
    }
}

/// How a load request goes on once a read has answered: a failed read is
/// the reply; the current height is the key of the hash read; the hash, or
/// an entry, is the reply; the compact form of a full block is decoded and
/// its proof read; then its transactions are read one by one, in the order
/// of its hashes, each decoded; the block rebuilt from them is encoded as
/// the reply.
pub open spec fn load_next(s: LoadStateView, read: Result<Seq<u8>, StorageError>) -> (
    LoadStateView,
    LoadActionView,
) {
    match read {
        Err(e) => (LoadStateView::Done, LoadActionView::Reply(Err(e))),
        Ok(v) => match s {
            LoadStateView::Height => (
                LoadStateView::Hash,
                LoadActionView::Read { region: BLOCK_HASH_REGION, key: v },
            ),
            LoadStateView::Compact { height } => match spec_decode_compact_block(v) {
                None => (LoadStateView::Done, LoadActionView::Reply(Err(StorageError::DecodeCompactBlock))),
                Some(c) => (
                    LoadStateView::Proof { compact: c },
                    LoadActionView::Read { region: PROOF_REGION, key: height },
                ),
            },
            LoadStateView::Proof { compact } => if keys_of(compact).len() == 0 {
                (LoadStateView::Done, LoadActionView::Reply(block_reply(compact, v, seq![])))
            } else {
                (
                    LoadStateView::Transactions { compact, proof: v, keys: keys_of(compact), txs: seq![] },
                    LoadActionView::Read { region: TRANSACTIONS_REGION, key: keys_of(compact)[0] },
                )
            },
            LoadStateView::Transactions { compact, proof, keys, txs } => match spec_decode_raw_tx(v) {
                None => (LoadStateView::Done, LoadActionView::Reply(Err(StorageError::DecodeRawTransaction))),
                Some(tx) => {
                    let txs2 = txs.push(tx);
                    if txs2.len() < keys.len() {
                        (
                            LoadStateView::Transactions { compact, proof, keys, txs: txs2 },
                            LoadActionView::Read { region: TRANSACTIONS_REGION, key: keys[txs2.len() as int] },
                        )
                    } else {
                        (LoadStateView::Done, LoadActionView::Reply(block_reply(compact, proof, txs2)))
                    }
                },
            },
            _ => (LoadStateView::Done, LoadActionView::Reply(Ok(v))),
        },
    }
}

/// The first step of a load request: where it stands and the first read.
pub fn start_load(region: u32, key: Vec<u8>) -> (r: (LoadState, LoadAction))
    ensures
        (r.0@, r.1@) == load_start(region, key@),
{
    if region == FULL_BLOCK_REGION {
        let k = key.clone();
        assert(k@ =~= key@);
        return (LoadState::Compact { height: key }, LoadAction::Read { region: COMPACT_BLOCK_REGION, key: k });
    }
    let one = be_bytes(1);
    if same_bytes(key.as_slice(), one.as_slice()) && region == 0 {
        (LoadState::Height, LoadAction::Read { region: 0, key: be_bytes(0) })
    } else {
        (LoadState::Entry, LoadAction::Read { region, key })
    }
}

/// The encoding of the block rebuilt from a compact form, a proof and the
/// transactions.
fn encode_full_block(compact: CompactForm, proof: Vec<u8>, txs: Vec<RawTx>) -> (r: Result<Vec<u8>, StorageError>)
    ensures
        result_view(r) == block_reply(compact@, proof@, txs@),
{
    let b = assemble_full_block(compact, proof, txs);
    match encode_block(&b) {
        Some(v) => Ok(v),
        None => Err(StorageError::EncodeBlock),
    }
}

/// The next step of a load request once its last read has answered.
pub fn load_step(state: LoadState, read: Result<Vec<u8>, StorageError>) -> (r: (LoadState, LoadAction))
    requires
        !(state@ is Done),
        state@ matches LoadStateView::Transactions { keys, txs, .. } ==> txs.len() < keys.len(),
    ensures
        (r.0@, r.1@) == load_next(state@, result_view(read)),
        r.0@ matches LoadStateView::Transactions { keys, txs, .. } ==> txs.len() < keys.len(),
{
    let v = match read {
        Err(e) => return (LoadState::Done, LoadAction::Reply(Err(e))),
        Ok(v) => v,
    };
    match state {
        LoadState::Height => (LoadState::Hash, LoadAction::Read { region: BLOCK_HASH_REGION, key: v }),
        LoadState::Compact { height } => match decode_compact_block(v.as_slice()) {
            None => (LoadState::Done, LoadAction::Reply(Err(StorageError::DecodeCompactBlock))),
            Some(c) => (LoadState::Proof { compact: c }, LoadAction::Read { region: PROOF_REGION, key: height }),
        },
        LoadState::Proof { compact } => {
            let keys = compact_tx_keys(&compact);
            if keys.len() == 0 {
                let txs: Vec<RawTx> = Vec::new();
                assert(txs@ =~= seq![]);
                (LoadState::Done, LoadAction::Reply(encode_full_block(compact, v, txs)))
            } else {
                let k = keys[0].clone();
                assert(k@ =~= keys[0]@);
                let txs: Vec<RawTx> = Vec::new();
                assert(txs@ =~= seq![]);
                (
                    LoadState::Transactions { compact, proof: v, keys, txs },
                    LoadAction::Read { region: TRANSACTIONS_REGION, key: k },
                )
            }
        },
        LoadState::Transactions { compact, proof, keys, mut txs } => match decode_raw_tx(v.as_slice()) {
            None => (LoadState::Done, LoadAction::Reply(Err(StorageError::DecodeRawTransaction))),
            Some(tx) => {
                txs.push(tx);
                if txs.len() < keys.len() {
                    let k = keys[txs.len()].clone();
                    assert(k@ =~= keys[txs.len() as int]@);
                    (
                        LoadState::Transactions { compact, proof, keys, txs },
                        LoadAction::Read { region: TRANSACTIONS_REGION, key: k },
                    )
                } else {
                    (LoadState::Done, LoadAction::Reply(encode_full_block(compact, proof, txs)))
                }
            },
        },
        _ => (LoadState::Done, LoadAction::Reply(Ok(v))),
    }
}

/// The entry the health check writes and reads back.
#[derive(Debug)]
pub struct HealthProbe {
    pub region: u32,
    pub key: Vec<u8>,
    pub value: Vec<u8>,
}

/// What the health check reports.
#[derive(PartialEq, Eq, Structural, Clone, Copy, Debug)]
pub enum ServingStatus {
    Serving,
    NotServing,
}

/// The health check's entry: the largest 64-bit number, as key and as value,
/// in the global region.
pub fn health_probe() -> (p: HealthProbe)
    ensures
        p.region == 0,
        p.key@ == be_bytes_spec(u64::MAX),
        p.value@ == be_bytes_spec(u64::MAX),
{
    HealthProbe { region: global_region(), key: be_bytes(u64::MAX), value: be_bytes(u64::MAX) }
}

/// The health check reports serving exactly when the probe entry was
/// stored and the load that followed gave the probe value back.
pub fn serving_status(stored: bool, loaded: &Result<Vec<u8>, StorageError>) -> (s: ServingStatus)
    ensures
        (s == ServingStatus::Serving) == (stored && (loaded matches Ok(v) && v@ == be_bytes_spec(u64::MAX))),
{
    let expected = be_bytes(u64::MAX);
    match loaded {
        Ok(v) => {
            if stored && same_bytes(v.as_slice(), expected.as_slice()) {
                ServingStatus::Serving
            } else {
                ServingStatus::NotServing
            }
        },
        Err(_) => ServingStatus::NotServing,
    }
}

} // verus!
