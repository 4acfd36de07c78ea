//! The decisions of the store around its storage engine: which requests it
//! accepts, under which column family an entry lives, what a lookup answers,
//! and the writes that store a full block received as bytes.

use vstd::prelude::*;
use crate::block::{
    FullBlock, FullBlockView, RawTx, all_hashed, compact_of, full_to_compact, get_tx_hash,
    lemma_tx_hashes_of_all_hashed, spec_tx_hash,
};
use crate::bytes::{be_bytes, be_bytes_spec};
use crate::error::StorageError;
use crate::proto::{
    decode_block, encode_block_header, encode_compact_block, encode_raw_tx, spec_decode_block,
    spec_encode_block_header, spec_encode_compact_block, spec_encode_raw_tx,
};
use crate::region::{
    check_key, check_region, check_value, column_family_name, decimal, has_column_family,
    spec_check_key, spec_check_region, spec_check_value, spec_has_column_family,
};

verus! {

/// The region under which full blocks are requested, keyed by height.
pub const FULL_BLOCK_REGION: u32 = 11;

/// The region of encoded transactions, keyed by transaction hash.
pub const TRANSACTIONS_REGION: u32 = 1;

/// The region of block hashes, keyed by height.
pub const BLOCK_HASH_REGION: u32 = 4;

/// The region of block proofs, keyed by height.
pub const PROOF_REGION: u32 = 5;

/// The region of block heights, keyed by transaction hash.
pub const TX_HEIGHT_REGION: u32 = 7;

/// The region of block heights, keyed by block hash.
pub const BLOCK_HEIGHT_REGION: u32 = 8;

/// The region of transaction indexes within their block, keyed by
/// transaction hash.
pub const TX_INDEX_REGION: u32 = 9;

/// The region of compact blocks, keyed by height.
pub const COMPACT_BLOCK_REGION: u32 = 10;

/// The first check a store request fails, if any. A region of the protocol
/// that has no column family in the store is a bad region.
pub open spec fn store_rejection(region: u32, key: Seq<u8>, value: Seq<u8>) -> Option<StorageError> {
    if !spec_check_region(region) {
        Some(StorageError::InvalidRegion)
    } else if !spec_check_key(region, key) {
        Some(StorageError::InvalidKey)
    } else if !spec_check_value(region, value) {
        Some(StorageError::InvalidValue)
    } else if !spec_has_column_family(region) {
        Some(StorageError::BadRegion)
    } else {
        None
    }
}

/// The first check a load or delete request fails, if any.
pub open spec fn read_rejection(region: u32, key: Seq<u8>) -> Option<StorageError> {
    if !spec_check_region(region) {
        Some(StorageError::InvalidRegion)
    } else if !spec_check_key(region, key) {
        Some(StorageError::InvalidKey)
    } else if !spec_has_column_family(region) {
        Some(StorageError::BadRegion)
    } else {
        None
    }
}

/// The checks a store request passes before the engine is asked to write:
/// on success, the name of the column family the entry goes to.
pub fn prepare_store(region: u32, key: &[u8], value: &[u8]) -> (r: Result<String, StorageError>)
    ensures
        match r {
            Ok(name) => store_rejection(region, key@, value@) is None && name@ == decimal(region as nat),
            Err(e) => store_rejection(region, key@, value@) == Some(e),
        },
{
    if !check_region(region) {
        return Err(StorageError::InvalidRegion);
    }
    if !check_key(region, key) {
        return Err(StorageError::InvalidKey);
    }
    if !check_value(region, value) {
        return Err(StorageError::InvalidValue);
    }
    if !has_column_family(region) {
        return Err(StorageError::BadRegion);
    }
    Ok(column_family_name(region))
}

/// The checks a load or delete request passes before the engine is asked:
/// on success, the name of the column family the entry lives in.
pub fn prepare_read(region: u32, key: &[u8]) -> (r: Result<String, StorageError>)
    ensures
        match r {
            Ok(name) => read_rejection(region, key@) is None && name@ == decimal(region as nat),
            Err(e) => read_rejection(region, key@) == Some(e),
        },
{
    if !check_region(region) {
        return Err(StorageError::InvalidRegion);
    }
    if !check_key(region, key) {
        return Err(StorageError::InvalidKey);
    }
    if !has_column_family(region) {
        return Err(StorageError::BadRegion);
    }
    Ok(column_family_name(region))
}

/// What a load answers once the engine has looked the key up: the value
/// found, or `NotFound` when there is none.
pub fn load_outcome(found: Option<Vec<u8>>) -> (r: Result<Vec<u8>, StorageError>)
    ensures
        match found {
            Some(v) => r == Ok::<Vec<u8>, StorageError>(v),
            None => r == Err::<Vec<u8>, StorageError>(StorageError::NotFound),
        },
{
    match found {
        Some(v) => Ok(v),
        None => Err(StorageError::NotFound),
    }
}

/// A key accepted for storing is accepted for loading and deleting.
pub proof fn lemma_stored_key_readable(region: u32, key: Seq<u8>, value: Seq<u8>)
    requires
        store_rejection(region, key, value) is None,
    ensures
        read_rejection(region, key) is None,
{
}

/// The first step of storing a full block: the height must be an 8-byte
/// key, then the bytes must decode as a block.
pub fn decode_full_block(height: &[u8], bytes: &[u8]) -> (r: Result<FullBlock, StorageError>)
    ensures
        match r {
            Ok(b) => spec_check_key(FULL_BLOCK_REGION, height@) && spec_decode_block(bytes@) == Some(b@),
            Err(e) => if !spec_check_key(FULL_BLOCK_REGION, height@) {
                e == StorageError::InvalidKey
            } else {
                e == StorageError::DecodeBlock && spec_decode_block(bytes@) is None
            },
        },
{
    if !check_key(FULL_BLOCK_REGION, height) {
        return Err(StorageError::InvalidKey);
    }
    match decode_block(bytes) {
        Some(b) => Ok(b),
        None => Err(StorageError::DecodeBlock),
    }
}

/// The bytes whose hash is the block's hash: the encoding of its header.
pub fn block_header_bytes(block: &FullBlock) -> (r: Result<Vec<u8>, StorageError>)
    ensures
        match block.header {
            None => r == Err::<Vec<u8>, StorageError>(StorageError::NoBlockHeader),
            Some(h) => match spec_encode_block_header(h) {
                Some(bytes) => r matches Ok(v) && v@ == bytes,
                None => r == Err::<Vec<u8>, StorageError>(StorageError::EncodeBlockHeader),
            },
        },
{
    match &block.header {
        None => Err(StorageError::NoBlockHeader),
        Some(h) => match encode_block_header(h) {
            Some(v) => Ok(v),
            None => Err(StorageError::EncodeBlockHeader),
        },
    }
}

/// One write to the store: an entry of a region.
#[derive(Debug)]
pub struct Write {
    pub region: u32,
    pub key: Vec<u8>,
    pub value: Vec<u8>,
}

impl View for Write {
    type V = (u32, Seq<u8>, Seq<u8>);

    open spec fn view(&self) -> (u32, Seq<u8>, Seq<u8>) {
        (self.region, self.key@, self.value@)
    }
}

pub open spec fn write_views(ws: Seq<Write>) -> Seq<(u32, Seq<u8>, Seq<u8>)> {
    ws.map_values(|w: Write| w@)
}


/// The entries kept for the transaction at `index` of a block stored at
/// `height`: the encoded transaction, the height of its block and its index,
/// each under the transaction's hash.
pub open spec fn tx_writes(height: Seq<u8>, hash: Seq<u8>, encoding: Seq<u8>, index: nat) -> Seq<
    (u32, Seq<u8>, Seq<u8>),
> {
    seq![
        (TRANSACTIONS_REGION, hash, encoding),
        (TX_HEIGHT_REGION, hash, height),
        (TX_INDEX_REGION, hash, be_bytes_spec(index as u64)),
    ]
}

/// A transaction that can be stored: it encodes and it carries a hash.
pub open spec fn storable(tx: RawTx) -> bool {
    spec_encode_raw_tx(tx) is Some && spec_tx_hash(tx) is Some
}

/// The first `n` transactions of `txs` can be stored.
pub open spec fn prefix_storable(txs: Seq<RawTx>, n: int) -> bool {
    forall|i: int| 0 <= i < n ==> #[trigger] storable(txs[i])
}

/// Why a transaction cannot be stored: it does not encode, or it carries no
/// hash.
pub open spec fn tx_failure(tx: RawTx) -> StorageError {
    if spec_encode_raw_tx(tx) is None {
        StorageError::EncodeRawTransaction
    } else {
        StorageError::NoTxHash
    }
}

/// The entries kept for the first `n` transactions of a block.
pub open spec fn txs_writes(height: Seq<u8>, txs: Seq<RawTx>, n: nat) -> Seq<(u32, Seq<u8>, Seq<u8>)>
    decreases n,
{
    if n == 0 {
        seq![]
    } else {
        txs_writes(height, txs, (n - 1) as nat) + tx_writes(
            height,
            spec_tx_hash(txs[n - 1]).unwrap(),
            spec_encode_raw_tx(txs[n - 1]).unwrap(),
            (n - 1) as nat,
        )
    }
}

/// The entries kept for the block itself once its transactions are stored:
/// its hash by height, its height by hash and its proof by height.
pub open spec fn block_writes(height: Seq<u8>, block_hash: Seq<u8>, proof: Seq<u8>) -> Seq<
    (u32, Seq<u8>, Seq<u8>),
> {
    seq![
        (BLOCK_HASH_REGION, height, block_hash),
        (BLOCK_HEIGHT_REGION, block_hash, height),
        (PROOF_REGION, height, proof),
    ]
}

/// The index of the first transaction from `i` on that cannot be stored, or
/// the number of transactions when all can.
pub open spec fn first_unstorable_from(txs: Seq<RawTx>, i: int) -> int
    decreases txs.len() - i,
{
    if i >= txs.len() || !storable(txs[i]) {
        i
    } else {
        first_unstorable_from(txs, i + 1)
    }
}

/// The writes that store a full block, in order, and the error that stops
/// them early, if any. A block without a body writes nothing. The
/// transactions are stored one after the other up to the first one that
/// does not encode or carries no hash; when all are stored, the block's hash,
/// height and proof follow, then its encoded compact form.
pub open spec fn full_block_plan(height: Seq<u8>, block: FullBlockView, block_hash: Seq<u8>) -> (
    Seq<(u32, Seq<u8>, Seq<u8>)>,
    Option<StorageError>,
) {
    match block.txs {
        None => (seq![], Some(StorageError::BlockBodyNotFound)),
        Some(txs) => {
            let k = first_unstorable_from(txs, 0);
            if k < txs.len() {
                (txs_writes(height, txs, k as nat), Some(tx_failure(txs[k])))
            } else {
                let base = txs_writes(height, txs, txs.len()) + block_writes(height, block_hash, block.proof);
                match spec_encode_compact_block(compact_of(block)) {
                    Some(c) => (base.push((COMPACT_BLOCK_REGION, height, c)), None),
                    None => (base, Some(StorageError::EncodeCompactBlock)),
                }
            }
        },
    }
}

proof fn lemma_first_unstorable_step(txs: Seq<RawTx>, i: int)
    requires
        0 <= i < txs.len(),
        storable(txs[i]),
    ensures
        first_unstorable_from(txs, i) == first_unstorable_from(txs, i + 1),
{
}

fn push_write(writes: &mut Vec<Write>, region: u32, key: &Vec<u8>, value: &Vec<u8>)
    ensures
        write_views(final(writes)@) == write_views(old(writes)@).push((region, key@, value@)),
{
    let k = key.clone();
    let v = value.clone();
    assert(k@ =~= key@);
    assert(v@ =~= value@);
    let ghost before = old(writes)@;
    writes.push(Write { region, key: k, value: v });
    assert(write_views(writes@) =~= write_views(before).push((region, key@, value@)));
}

/// The writes that store `block` under `height`, given the block's hash;
/// with the error that stops them early, if any. The transactions and the
/// compact form are encoded here.
pub fn full_block_writes(height: &Vec<u8>, block: FullBlock, block_hash: &Vec<u8>) -> (r: (
    Vec<Write>,
    Option<StorageError>,
))
    ensures
        (write_views(r.0@), r.1) == full_block_plan(height@, block@, block_hash@),
{
    let ghost bv = block@;
    let mut writes: Vec<Write> = Vec::new();
    {
        let body = match &block.body {
            Some(b) => b,
            None => {
                assert(write_views(writes@) =~= seq![]);
                return (writes, Some(StorageError::BlockBodyNotFound));
            },
        };
        let txs = &body.body;
        let mut i: usize = 0;
        assert(write_views(writes@) =~= txs_writes(height@, txs@, 0));
        while i < txs.len()
            invariant
                i <= txs.len(),
                bv.txs == Some(txs@),
                block@ == bv,
                first_unstorable_from(txs@, 0) == first_unstorable_from(txs@, i as int),
                write_views(writes@) == txs_writes(height@, txs@, i as nat),
            decreases txs.len() - i,
        {
            let encoding = match encode_raw_tx(&txs[i]) {
                Some(e) => e,
                None => {
                    assert(!storable(txs@[i as int]));
                    assert(first_unstorable_from(txs@, i as int) == i);
                    return (writes, Some(StorageError::EncodeRawTransaction));
                },
            };
            let hash = match get_tx_hash(&txs[i]) {
                Some(h) => h,
                None => {
                    assert(!storable(txs@[i as int]));
                    assert(first_unstorable_from(txs@, i as int) == i);
                    assert(tx_failure(txs@[i as int]) == StorageError::NoTxHash);
                    return (writes, Some(StorageError::NoTxHash));
                },
            };
            proof {
                lemma_first_unstorable_step(txs@, i as int);
            }
            let index = be_bytes(i as u64);
            push_write(&mut writes, TRANSACTIONS_REGION, &hash, &encoding);
            push_write(&mut writes, TX_HEIGHT_REGION, &hash, height);
            push_write(&mut writes, TX_INDEX_REGION, &hash, &index);
            assert(write_views(writes@) =~= txs_writes(height@, txs@, (i + 1) as nat));
            i = i + 1;
        }
    }
    push_write(&mut writes, BLOCK_HASH_REGION, height, block_hash);
    push_write(&mut writes, BLOCK_HEIGHT_REGION, block_hash, height);
    push_write(&mut writes, PROOF_REGION, height, &block.proof);
    let ghost txs = bv.txs.unwrap();
    assert(write_views(writes@) =~= txs_writes(height@, txs, txs.len()) + block_writes(
        height@,
        block_hash@,
        bv.proof,
    ));
    let compact = full_to_compact(block);
    match encode_compact_block(&compact) {
        Some(c) => {
            push_write(&mut writes, COMPACT_BLOCK_REGION, height, &c);
            (writes, None)
        },
        None => (writes, Some(StorageError::EncodeCompactBlock)),
    }
}

/// Every write of `ws` passes the checks of a store request.
pub open spec fn all_accepted(ws: Seq<(u32, Seq<u8>, Seq<u8>)>) -> bool {
    forall|j: int| 0 <= j < ws.len() ==> (#[trigger] store_rejection(ws[j].0, ws[j].1, ws[j].2)) is None
}

/// Every transaction hash of `txs` has 32 bytes.
pub open spec fn tx_hashes_are_hashes(txs: Seq<RawTx>) -> bool {
    forall|i: int|
        0 <= i < txs.len() ==> ((#[trigger] spec_tx_hash(txs[i])) matches Some(h) && h.len() == 32)
}

proof fn lemma_first_unstorable_all(txs: Seq<RawTx>, i: int)
    requires
        0 <= i <= txs.len(),
        prefix_storable(txs, txs.len() as int),
    ensures
        first_unstorable_from(txs, i) == txs.len(),
    decreases txs.len() - i,
{
    if i < txs.len() {
        assert(storable(txs[i]));
        lemma_first_unstorable_all(txs, i + 1);
    }
}

proof fn lemma_before_first_unstorable(txs: Seq<RawTx>, j: int)
    requires
        0 <= j <= txs.len(),
    ensures
        j <= first_unstorable_from(txs, j) <= txs.len(),
        forall|i: int| j <= i < first_unstorable_from(txs, j) ==> #[trigger] storable(txs[i]),
    decreases txs.len() - j,
{
    if j < txs.len() && storable(txs[j]) {
        lemma_before_first_unstorable(txs, j + 1);
    }
}

proof fn lemma_txs_writes_length(height: Seq<u8>, txs: Seq<RawTx>, n: nat)
    ensures
        txs_writes(height, txs, n).len() == 3 * n,
    decreases n,
{
    if n > 0 {
        lemma_txs_writes_length(height, txs, (n - 1) as nat);
    }
}

proof fn lemma_txs_writes_accepted(height: Seq<u8>, txs: Seq<RawTx>, n: nat)
    requires
        n <= txs.len(),
        height.len() == 8,
        prefix_storable(txs, n as int),
        tx_hashes_are_hashes(txs),
    ensures
        all_accepted(txs_writes(height, txs, n)),
    decreases n,
{
    if n > 0 {
        let m = (n - 1) as nat;
        lemma_txs_writes_accepted(height, txs, m);
        lemma_txs_writes_length(height, txs, m);
        let prefix = txs_writes(height, txs, m);
        assert(storable(txs[m as int]));
        assert(spec_tx_hash(txs[m as int]) is Some);
        let last = tx_writes(
            height,
            spec_tx_hash(txs[m as int]).unwrap(),
            spec_encode_raw_tx(txs[m as int]).unwrap(),
            m,
        );
        let ws = prefix + last;
        assert forall|j: int| 0 <= j < ws.len() implies (#[trigger] store_rejection(ws[j].0, ws[j].1, ws[j].2))
            is None by {
            if j < prefix.len() {
                assert(ws[j] == prefix[j]);
                assert(store_rejection(prefix[j].0, prefix[j].1, prefix[j].2) is None);
            } else {
                assert(ws[j] == last[j - prefix.len()]);
            }
        }
    }
}

/// A block whose height is an 8-byte key, whose hash has 32 bytes, whose
/// transactions all encode and carry a 32-byte hash, and whose compact form
/// encodes, is stored whole: the plan ends without an error, and every one
/// of its writes passes the checks of a store request.
pub proof fn lemma_full_block_plan_accepted(height: Seq<u8>, block: FullBlockView, block_hash: Seq<u8>)
    requires
        spec_check_key(FULL_BLOCK_REGION, height),
        block_hash.len() == 32,
        block.txs matches Some(txs) && prefix_storable(txs, txs.len() as int) && tx_hashes_are_hashes(
            txs,
        ),
        spec_encode_compact_block(compact_of(block)) is Some,
    ensures
        full_block_plan(height, block, block_hash).1 is None,
        all_accepted(full_block_plan(height, block, block_hash).0),
{
    let txs = block.txs.unwrap();
    lemma_first_unstorable_all(txs, 0);
    lemma_txs_writes_accepted(height, txs, txs.len());
    let c = spec_encode_compact_block(compact_of(block)).unwrap();
    let prefix = txs_writes(height, txs, txs.len());
    let tail = block_writes(height, block_hash, block.proof).push((COMPACT_BLOCK_REGION, height, c));
    let ws = prefix + tail;
    assert(full_block_plan(height, block, block_hash).0 == ws);
    assert forall|j: int| 0 <= j < ws.len() implies (#[trigger] store_rejection(ws[j].0, ws[j].1, ws[j].2))
        is None by {
        if j < prefix.len() {
            assert(ws[j] == prefix[j]);
            assert(store_rejection(prefix[j].0, prefix[j].1, prefix[j].2) is None);
        } else {
            assert(ws[j] == tail[j - prefix.len()]);
        }
    }
}

proof fn lemma_txs_writes_entries(height: Seq<u8>, txs: Seq<RawTx>, n: nat, i: int)
    requires
        0 <= i < n <= txs.len(),
    ensures
        txs_writes(height, txs, n).len() == 3 * n,
        txs_writes(height, txs, n)[3 * i] == (
            TRANSACTIONS_REGION,
            spec_tx_hash(txs[i]).unwrap(),
            spec_encode_raw_tx(txs[i]).unwrap(),
        ),
        txs_writes(height, txs, n)[3 * i + 1] == (TX_HEIGHT_REGION, spec_tx_hash(txs[i]).unwrap(), height),
        txs_writes(height, txs, n)[3 * i + 2] == (
            TX_INDEX_REGION,
            spec_tx_hash(txs[i]).unwrap(),
            be_bytes_spec(i as u64),
        ),
    decreases n,
{
    let m = (n - 1) as nat;
    lemma_txs_writes_length(height, txs, m);
    lemma_txs_writes_length(height, txs, n);
    let prefix = txs_writes(height, txs, m);
    let last = tx_writes(
        height,
        spec_tx_hash(txs[m as int]).unwrap(),
        spec_encode_raw_tx(txs[m as int]).unwrap(),
        m,
    );
    assert(txs_writes(height, txs, n) == prefix + last);
    if i < m {
        lemma_txs_writes_entries(height, txs, m, i);
        assert((prefix + last)[3 * i] == prefix[3 * i]);
        assert((prefix + last)[3 * i + 1] == prefix[3 * i + 1]);
        assert((prefix + last)[3 * i + 2] == prefix[3 * i + 2]);
    } else {
        assert((prefix + last)[3 * i] == last[0]);
        assert((prefix + last)[3 * i + 1] == last[1]);
        assert((prefix + last)[3 * i + 2] == last[2]);
    }
}

proof fn lemma_txs_writes_regions(height: Seq<u8>, txs: Seq<RawTx>, n: nat, l: int)
    requires
        n <= txs.len(),
        0 <= l < 3 * n,
    ensures
        txs_writes(height, txs, n).len() == 3 * n,
        ({
            let w = txs_writes(height, txs, n)[l];
            let i = l / 3;
            &&& 0 <= i < n
            &&& w.1 == spec_tx_hash(txs[i]).unwrap()
            &&& (w.0 == TRANSACTIONS_REGION ==> l == 3 * i)
            &&& (w.0 == TRANSACTIONS_REGION || w.0 == TX_HEIGHT_REGION || w.0 == TX_INDEX_REGION)
        }),
    decreases n,
{
    let m = (n - 1) as nat;
    lemma_txs_writes_length(height, txs, m);
    lemma_txs_writes_length(height, txs, n);
    let prefix = txs_writes(height, txs, m);
    let last = tx_writes(
        height,
        spec_tx_hash(txs[m as int]).unwrap(),
        spec_encode_raw_tx(txs[m as int]).unwrap(),
        m,
    );
    assert(txs_writes(height, txs, n) == prefix + last);
    if l < 3 * m {
        lemma_txs_writes_regions(height, txs, m, l);
        assert((prefix + last)[l] == prefix[l]);
    } else {
        assert(l / 3 == m);
        assert((prefix + last)[l] == last[l - 3 * m]);
    }
}

/// The entries of a key/value store, by region and key.
pub type Entries = Map<(u32, Seq<u8>), Seq<u8>>;

/// The entries after the writes `ws`, made in order: a later write to a key
/// replaces an earlier one.
pub open spec fn apply_writes(m: Entries, ws: Seq<(u32, Seq<u8>, Seq<u8>)>) -> Entries
    decreases ws.len(),
{
    if ws.len() == 0 {
        m
    } else {
        apply_writes(m, ws.drop_last()).insert((ws.last().0, ws.last().1), ws.last().2)
    }
}

/// A key holds the value of the last write made to it.
proof fn lemma_last_write_wins(m: Entries, ws: Seq<(u32, Seq<u8>, Seq<u8>)>, j: int)
    requires
        0 <= j < ws.len(),
        forall|l: int| j < l < ws.len() ==> (#[trigger] ws[l]).0 != ws[j].0 || ws[l].1 != ws[j].1,
    ensures
        apply_writes(m, ws).contains_key((ws[j].0, ws[j].1)),
        apply_writes(m, ws)[(ws[j].0, ws[j].1)] == ws[j].2,
    decreases ws.len(),
{
    if j < ws.len() - 1 {
        let init = ws.drop_last();
        assert forall|l: int| j < l < init.len() implies (#[trigger] init[l]).0 != init[j].0 || init[l].1
            != init[j].1 by {
            assert(init[l] == ws[l]);
        }
        lemma_last_write_wins(m, init, j);
        assert(ws[ws.len() - 1].0 != ws[j].0 || ws[ws.len() - 1].1 != ws[j].1);
    }
}

/// A key that no write touches keeps its entry.
proof fn lemma_untouched(m: Entries, ws: Seq<(u32, Seq<u8>, Seq<u8>)>, k: (u32, Seq<u8>))
    requires
        forall|l: int| 0 <= l < ws.len() ==> ((#[trigger] ws[l]).0, ws[l].1) != k,
    ensures
        apply_writes(m, ws).contains_key(k) == m.contains_key(k),
        apply_writes(m, ws)[k] == m[k],
    decreases ws.len(),
{
    if ws.len() > 0 {
        let init = ws.drop_last();
        assert forall|l: int| 0 <= l < init.len() implies ((#[trigger] init[l]).0, init[l].1) != k by {
            assert(init[l] == ws[l]);
        }
        lemma_untouched(m, init, k);
        assert((ws[ws.len() - 1].0, ws[ws.len() - 1].1) != k);
    }
}

/// No two transactions of `txs` carry the same hash.
pub open spec fn distinct_tx_hashes(txs: Seq<RawTx>) -> bool {
    forall|i: int, j: int|
        0 <= i < j < txs.len() ==> #[trigger] spec_tx_hash(txs[i]) != #[trigger] spec_tx_hash(txs[j])
}

/// A store that performs the writes of a stored block, starting from any
/// entries, answers the reads of a full-block load with the block's parts:
/// the encoded compact form and the proof under the height, and under each
/// hash the compact form lists, the encoding of the transaction at the same
/// place. The transactions of the block carry distinct hashes.
pub proof fn lemma_full_block_plan_read_back(
    m: Entries,
    height: Seq<u8>,
    block: FullBlockView,
    block_hash: Seq<u8>,
)
    requires
        block.txs matches Some(txs) && prefix_storable(txs, txs.len() as int) && distinct_tx_hashes(txs),
        spec_encode_compact_block(compact_of(block)) is Some,
    ensures
        ({
            let after = apply_writes(m, full_block_plan(height, block, block_hash).0);
            let txs = block.txs.unwrap();
            let hashes = compact_of(block).tx_hashes.unwrap();
            &&& after.contains_key((COMPACT_BLOCK_REGION, height))
            &&& after[(COMPACT_BLOCK_REGION, height)] == spec_encode_compact_block(compact_of(block)).unwrap()
            &&& after.contains_key((PROOF_REGION, height))
            &&& after[(PROOF_REGION, height)] == block.proof
            &&& hashes.len() == txs.len()
            &&& forall|i: int|
                0 <= i < hashes.len() ==> after.contains_key((TRANSACTIONS_REGION, #[trigger] hashes[i]))
                    && after[(TRANSACTIONS_REGION, hashes[i])] == spec_encode_raw_tx(txs[i]).unwrap()
        }),
{
    let txs = block.txs.unwrap();
    assert forall|i: int| 0 <= i < txs.len() implies (#[trigger] spec_tx_hash(txs[i])) is Some by {
        assert(storable(txs[i]));
    }
    assert(all_hashed(txs));
    lemma_first_unstorable_all(txs, 0);
    lemma_tx_hashes_of_all_hashed(txs);
    lemma_txs_writes_length(height, txs, txs.len());
    let c = spec_encode_compact_block(compact_of(block)).unwrap();
    let prefix = txs_writes(height, txs, txs.len());
    let tail = block_writes(height, block_hash, block.proof).push((COMPACT_BLOCK_REGION, height, c));
    let ws = prefix + tail;
    assert(full_block_plan(height, block, block_hash).0 == ws);
    let p = prefix.len() as int;
    assert(ws.len() == p + 4);
    lemma_last_write_wins(m, ws, p + 3);
    assert(ws[p + 3] == (COMPACT_BLOCK_REGION, height, c));
    assert(ws[p + 2] == (PROOF_REGION, height, block.proof));
    assert(ws[p + 3].0 != ws[p + 2].0);
    lemma_last_write_wins(m, ws, p + 2);
    let hashes = compact_of(block).tx_hashes.unwrap();
    assert forall|i: int| 0 <= i < hashes.len() implies apply_writes(m, ws).contains_key(
        (TRANSACTIONS_REGION, #[trigger] hashes[i]),
    ) && apply_writes(m, ws)[(TRANSACTIONS_REGION, hashes[i])] == spec_encode_raw_tx(txs[i]).unwrap() by {
        lemma_txs_writes_entries(height, txs, txs.len(), i);
        assert(ws[3 * i] == prefix[3 * i]);
        assert forall|l: int| 3 * i < l < ws.len() implies (#[trigger] ws[l]).0 != ws[3 * i].0 || ws[l].1
            != ws[3 * i].1 by {
            if l < p {
                lemma_txs_writes_regions(height, txs, txs.len(), l);
                assert(ws[l] == prefix[l]);
                if ws[l].0 == TRANSACTIONS_REGION {
                    let k = l / 3;
                    assert(k != i);
                    if k < i {
                        assert(spec_tx_hash(txs[k]) != spec_tx_hash(txs[i]));
                    } else {
                        assert(spec_tx_hash(txs[i]) != spec_tx_hash(txs[k]));
                    }
                }
            } else {
                assert(ws[l] == tail[l - p]);
            }
        }
        lemma_last_write_wins(m, ws, 3 * i);
    }
}

/// The keys a full block stored under `height` may write: its hash, proof
/// and compact form under the height, its height under its hash, and the
/// entries of its transactions under their hashes.
pub open spec fn own_key(height: Seq<u8>, block: FullBlockView, block_hash: Seq<u8>, k: (u32, Seq<u8>)) -> bool {
    ||| k == (BLOCK_HASH_REGION, height)
    ||| k == (BLOCK_HEIGHT_REGION, block_hash)
    ||| k == (PROOF_REGION, height)
    ||| k == (COMPACT_BLOCK_REGION, height)
    ||| (block.txs matches Some(txs) && (k.0 == TRANSACTIONS_REGION || k.0 == TX_HEIGHT_REGION || k.0
        == TX_INDEX_REGION) && exists|i: int| 0 <= i < txs.len() && #[trigger] spec_tx_hash(txs[i]) == Some(k.1))
}

/// Storing a full block touches only its own keys, whether it succeeds or
/// stops early: every other entry of the store keeps its value.
pub proof fn lemma_full_block_plan_own_keys(
    m: Entries,
    height: Seq<u8>,
    block: FullBlockView,
    block_hash: Seq<u8>,
    k: (u32, Seq<u8>),
)
    requires
        !own_key(height, block, block_hash, k),
    ensures
        apply_writes(m, full_block_plan(height, block, block_hash).0).contains_key(k) == m.contains_key(k),
        apply_writes(m, full_block_plan(height, block, block_hash).0)[k] == m[k],
{
    let ws = full_block_plan(height, block, block_hash).0;
    if let Some(txs) = block.txs {
        let n = first_unstorable_from(txs, 0);
        lemma_before_first_unstorable(txs, 0);
        let count = if n < txs.len() { n } else { txs.len() as int };
        let prefix = txs_writes(height, txs, count as nat);
        lemma_txs_writes_length(height, txs, count as nat);
        assert forall|l: int| 0 <= l < ws.len() implies ((#[trigger] ws[l]).0, ws[l].1) != k by {
            if l < prefix.len() {
                lemma_txs_writes_regions(height, txs, count as nat, l);
                let i = l / 3;
                assert(storable(txs[i]));
                assert(ws[l] == prefix[l]);
                if (ws[l].0, ws[l].1) == k {
                    assert(spec_tx_hash(txs[i]) == Some(k.1));
                    assert(own_key(height, block, block_hash, k));
                }
            } else {
                let bw = block_writes(height, block_hash, block.proof);
                if n >= txs.len() {
                    assert(ws[l] == (prefix + bw)[l] || ws[l] == (COMPACT_BLOCK_REGION, height,
                        spec_encode_compact_block(compact_of(block)).unwrap()));
                }
            }
        }
        lemma_untouched(m, ws, k);
    } else {
        lemma_untouched(m, ws, k);
    }
}

/// A store request is accepted exactly when the region has a column family
/// (regions 0 to 10), the key has 32 bytes in regions 1, 7, 8 and 9 and 8
/// bytes elsewhere, and the value has 32 bytes in regions 4 and 6 and 8
/// bytes in regions 7 and 8, any length elsewhere. The refusal names the
/// first check failed: region, then key, then value, then column family.
pub proof fn lemma_store_acceptance(region: u32, key: Seq<u8>, value: Seq<u8>)
    ensures
        ({
            let key_ok = if region == 1 || region == 7 || region == 8 || region == 9 {
                key.len() == 32
            } else {
                key.len() == 8
            };
            let value_ok = (region == 4 || region == 6 ==> value.len() == 32) && (region == 7 || region
                == 8 ==> value.len() == 8);
            &&& (store_rejection(region, key, value) is None <==> (region <= 10 && key_ok && value_ok))
            &&& (store_rejection(region, key, value) == Some(StorageError::InvalidRegion) <==> region >= 14)
            &&& (store_rejection(region, key, value) == Some(StorageError::InvalidKey) <==> (region < 14
                && !key_ok))
            &&& (store_rejection(region, key, value) == Some(StorageError::InvalidValue) <==> (region < 14
                && key_ok && !value_ok))
            &&& (store_rejection(region, key, value) == Some(StorageError::BadRegion) <==> (11 <= region
                < 14 && key_ok && value_ok))
        }),
{
}

/// A load or delete request is accepted exactly when the region has a
/// column family (regions 0 to 10) and the key has 32 bytes in regions 1, 7,
/// 8 and 9 and 8 bytes elsewhere.
pub proof fn lemma_read_acceptance(region: u32, key: Seq<u8>)
    ensures
        ({
            let key_ok = if region == 1 || region == 7 || region == 8 || region == 9 {
                key.len() == 32
            } else {
                key.len() == 8
            };
            &&& (read_rejection(region, key) is None <==> (region <= 10 && key_ok))
            &&& (read_rejection(region, key) == Some(StorageError::InvalidRegion) <==> region >= 14)
            &&& (read_rejection(region, key) == Some(StorageError::InvalidKey) <==> (region < 14 && !key_ok))
            &&& (read_rejection(region, key) == Some(StorageError::BadRegion) <==> (11 <= region < 14
                && key_ok))
        }),
{
}

proof fn lemma_first_unstorable_at_least(txs: Seq<RawTx>, j: int, n: int)
    requires
        0 <= j <= n <= txs.len(),
        forall|i: int| j <= i < n ==> #[trigger] storable(txs[i]),
    ensures
        first_unstorable_from(txs, j) >= n,
    decreases n - j,
{
    lemma_before_first_unstorable(txs, j);
    if j < n {
        assert(storable(txs[j]));
        lemma_first_unstorable_at_least(txs, j + 1, n);
    }
}

/// Each transaction of a stored block, once it and every one before it can
/// be stored, is written as three entries under its own hash, in this order
/// and at these places of the writes: its encoding (transactions region),
/// the height of its block (transaction-height region), and its position in
/// the block as 8 big-endian bytes (transaction-index region). The position
/// is kept whole, for every position.
pub proof fn lemma_full_block_plan_tx_entries(
    height: Seq<u8>,
    block: FullBlockView,
    block_hash: Seq<u8>,
    i: int,
)
    requires
        block.txs matches Some(txs) && 0 <= i < txs.len() && prefix_storable(txs, i + 1),
    ensures
        ({
            let ws = full_block_plan(height, block, block_hash).0;
            let tx = block.txs.unwrap()[i];
            let hash = spec_tx_hash(tx).unwrap();
            &&& spec_tx_hash(tx) is Some
            &&& spec_encode_raw_tx(tx) is Some
            &&& ws.len() >= 3 * i + 3
            &&& ws[3 * i] == (TRANSACTIONS_REGION, hash, spec_encode_raw_tx(tx).unwrap())
            &&& ws[3 * i + 1] == (TX_HEIGHT_REGION, hash, height)
            &&& ws[3 * i + 2] == (TX_INDEX_REGION, hash, be_bytes_spec(i as u64))
        }),
{
    let txs = block.txs.unwrap();
    assert(storable(txs[i]));
    lemma_first_unstorable_at_least(txs, 0, i + 1);
    lemma_before_first_unstorable(txs, 0);
    let k = first_unstorable_from(txs, 0);
    let count: nat = if k < txs.len() { k as nat } else { txs.len() };
    lemma_txs_writes_entries(height, txs, count, i);
    let prefix = txs_writes(height, txs, count);
    let ws = full_block_plan(height, block, block_hash).0;
    if k >= txs.len() {
        let base = prefix + block_writes(height, block_hash, block.proof);
        assert(base[3 * i] == prefix[3 * i]);
        assert(base[3 * i + 1] == prefix[3 * i + 1]);
        assert(base[3 * i + 2] == prefix[3 * i + 2]);
        match spec_encode_compact_block(compact_of(block)) {
            Some(c) => {
                assert(ws == base.push((COMPACT_BLOCK_REGION, height, c)));
                assert(ws[3 * i] == base[3 * i]);
                assert(ws[3 * i + 1] == base[3 * i + 1]);
                assert(ws[3 * i + 2] == base[3 * i + 2]);
            },
            None => {},
        }
    }
}

/// A block whose transactions can all be stored is written whole: after the
/// three entries of each transaction come its hash under the height (block
/// hash region), its height under its hash (block-height region), its proof
/// under the height, and, when it encodes, its compact form under the
/// height; nothing else is written. When the compact form does not encode,
/// the writes stop before it with that error.
pub proof fn lemma_full_block_plan_block_entries(height: Seq<u8>, block: FullBlockView, block_hash: Seq<u8>)
    requires
        block.txs matches Some(txs) && prefix_storable(txs, txs.len() as int),
    ensures
        ({
            let (ws, stop) = full_block_plan(height, block, block_hash);
            let n = block.txs.unwrap().len() as int;
            &&& ws.len() >= 3 * n + 3
            &&& ws[3 * n] == (BLOCK_HASH_REGION, height, block_hash)
            &&& ws[3 * n + 1] == (BLOCK_HEIGHT_REGION, block_hash, height)
            &&& ws[3 * n + 2] == (PROOF_REGION, height, block.proof)
            &&& match spec_encode_compact_block(compact_of(block)) {
                Some(c) => stop is None && ws.len() == 3 * n + 4 && ws[3 * n + 3] == (
                    COMPACT_BLOCK_REGION,
                    height,
                    c,
                ),
                None => stop == Some(StorageError::EncodeCompactBlock) && ws.len() == 3 * n + 3,
            }
        }),
{
    let txs = block.txs.unwrap();
    lemma_first_unstorable_all(txs, 0);
    lemma_txs_writes_length(height, txs, txs.len());
}

/// How storing a full block fails: a block without a body writes nothing
/// and fails with `BlockBodyNotFound`; otherwise the first transaction that
/// cannot be stored stops the writes right after the entries of the
/// transactions before it, with `EncodeRawTransaction` when it does not
/// encode and `NoTxHash` when it encodes but carries no hash.
pub proof fn lemma_full_block_plan_failures(
    height: Seq<u8>,
    block: FullBlockView,
    block_hash: Seq<u8>,
    i: int,
)
    ensures
        block.txs is None ==> full_block_plan(height, block, block_hash) == (
            Seq::<(u32, Seq<u8>, Seq<u8>)>::empty(),
            Some(StorageError::BlockBodyNotFound),
        ),
        (block.txs matches Some(txs) && 0 <= i < txs.len() && prefix_storable(txs, i) && !storable(
            txs[i],
        )) ==> ({
            let (ws, stop) = full_block_plan(height, block, block_hash);
            let tx = block.txs.unwrap()[i];
            &&& ws.len() == 3 * i
            &&& stop == Some(
                if spec_encode_raw_tx(tx) is None {
                    StorageError::EncodeRawTransaction
                } else {
                    StorageError::NoTxHash
                },
            )
        }),
{
    if block.txs is Some && 0 <= i < block.txs.unwrap().len() && prefix_storable(block.txs.unwrap(), i)
        && !storable(block.txs.unwrap()[i]) {
        let txs = block.txs.unwrap();
        lemma_first_unstorable_at_least(txs, 0, i);
        lemma_before_first_unstorable(txs, 0);
        let k = first_unstorable_from(txs, 0);
        assert(k == i);
        lemma_txs_writes_length(height, txs, i as nat);
    }
    if block.txs is None {
        assert(full_block_plan(height, block, block_hash).0 =~= Seq::<(u32, Seq<u8>, Seq<u8>)>::empty());
    }
}

} // verus!
