//! What a full-block load gives back after a full-block store: the bytes
//! the block was stored from.

use vstd::prelude::*;
use crate::block::{
    FullBlockView, RawTx, all_hashed, compact_of, lemma_compact_then_assemble,
    lemma_tx_hashes_of_all_hashed, spec_tx_hash,
};
use crate::bytes::be_bytes_spec;
use crate::error::StorageError;
use crate::proto::{
    spec_decode_block, spec_decode_compact_block, spec_decode_raw_tx, spec_encode_block,
    spec_encode_compact_block, spec_encode_raw_tx,
};
use crate::region::spec_check_key;
use crate::service::{
    LoadActionView, LoadStateView, block_reply, keys_of, load_next, load_start,
};
use crate::store::{
    BLOCK_HASH_REGION, Entries, FULL_BLOCK_REGION, TRANSACTIONS_REGION, apply_writes, distinct_tx_hashes,
    full_block_plan, lemma_full_block_plan_read_back, prefix_storable, read_rejection, storable,
    tx_hashes_are_hashes,
};

verus! {

/// What a read of the store answers when it holds the entries `m`.
pub open spec fn read_entry(m: Entries, region: u32, key: Seq<u8>) -> Result<Seq<u8>, StorageError> {
    match read_rejection(region, key) {
        Some(e) => Err(e),
        None => if m.contains_key((region, key)) {
            Ok(m[(region, key)])
        } else {
            Err(StorageError::NotFound)
        },
    }
}

/// The reply a load request reaches from state `s` and next action `a` on a
/// store holding `m`, within `fuel` reads; `None` when it needs more.
pub open spec fn run_load(m: Entries, s: LoadStateView, a: LoadActionView, fuel: nat) -> Option<
    Result<Seq<u8>, StorageError>,
>
    decreases fuel,
{
    match a {
        LoadActionView::Reply(r) => Some(r),
        LoadActionView::Read { region, key } => if fuel == 0 {
            None
        } else {
            let next = load_next(s, read_entry(m, region, key));
            run_load(m, next.0, next.1, (fuel - 1) as nat)
        },
    }
}

proof fn lemma_run_transactions(
    m: Entries,
    compact: crate::block::CompactFormView,
    proof: Seq<u8>,
    keys: Seq<Seq<u8>>,
    txs: Seq<RawTx>,
    i: int,
    bytes: Seq<u8>,
)
    requires
        0 <= i < keys.len(),
        keys.len() == txs.len(),
        forall|j: int|
            0 <= j < keys.len() ==> read_rejection(TRANSACTIONS_REGION, #[trigger] keys[j]) is None
                && m.contains_key((TRANSACTIONS_REGION, keys[j])) && spec_decode_raw_tx(
                m[(TRANSACTIONS_REGION, keys[j])],
            ) == Some(txs[j]),
        block_reply(compact, proof, txs) == Ok::<Seq<u8>, StorageError>(bytes),
    ensures
        run_load(
            m,
            LoadStateView::Transactions { compact, proof, keys, txs: txs.take(i) },
            LoadActionView::Read { region: TRANSACTIONS_REGION, key: keys[i] },
            (keys.len() - i) as nat,
        ) == Some(Ok::<Seq<u8>, StorageError>(bytes)),
    decreases keys.len() - i,
{
    let r = read_entry(m, TRANSACTIONS_REGION, keys[i]);
    assert(read_rejection(TRANSACTIONS_REGION, keys[i]) is None);
    assert(r == Ok::<Seq<u8>, StorageError>(m[(TRANSACTIONS_REGION, keys[i])]));
    assert(txs.take(i).push(txs[i]) =~= txs.take(i + 1));
    let s = LoadStateView::Transactions { compact, proof, keys, txs: txs.take(i) };
    let next = load_next(s, r);
    if i + 1 < keys.len() {
        assert(next == (
            LoadStateView::Transactions { compact, proof, keys, txs: txs.take(i + 1) },
            LoadActionView::Read { region: TRANSACTIONS_REGION, key: keys[i + 1] },
        ));
        lemma_run_transactions(m, compact, proof, keys, txs, i + 1, bytes);
    } else {
        assert(txs.take(i + 1) =~= txs);
        assert(next.1 == LoadActionView::Reply(Ok::<Seq<u8>, StorageError>(bytes)));
    }
}

/// A full block stored from its bytes is loaded back as the same bytes.
/// The block is given by the bytes it is the canonical encoding of; its
/// transactions encode, carry distinct 32-byte hashes and decode back from
/// their encodings, its compact form encodes and decodes back, and its state
/// root is empty (compaction does not keep it). The store may hold any
/// entries before; the block hash may be any bytes.
pub proof fn lemma_full_block_round_trip(m: Entries, height: Seq<u8>, bytes: Seq<u8>, block_hash: Seq<u8>)
    requires
        spec_check_key(FULL_BLOCK_REGION, height),
        spec_decode_block(bytes) is Some,
        ({
            let b = spec_decode_block(bytes).unwrap();
            &&& spec_encode_block(b) == Some(bytes)
            &&& b.state_root == Seq::<u8>::empty()
            &&& b.txs is Some
        }),
        ({
            let b = spec_decode_block(bytes).unwrap();
            let txs = b.txs.unwrap();
            &&& prefix_storable(txs, txs.len() as int)
            &&& distinct_tx_hashes(txs)
            &&& tx_hashes_are_hashes(txs)
            &&& forall|i: int|
                0 <= i < txs.len() ==> spec_decode_raw_tx(spec_encode_raw_tx(#[trigger] txs[i]).unwrap())
                    == Some(txs[i])
        }),
        ({
            let b = spec_decode_block(bytes).unwrap();
            &&& spec_encode_compact_block(compact_of(b)) is Some
            &&& spec_decode_compact_block(spec_encode_compact_block(compact_of(b)).unwrap()) == Some(
                compact_of(b),
            )
        }),
    ensures
        ({
            let b = spec_decode_block(bytes).unwrap();
            let after = apply_writes(m, full_block_plan(height, b, block_hash).0);
            let start = load_start(FULL_BLOCK_REGION, height);
            run_load(after, start.0, start.1, (b.txs.unwrap().len() + 2) as nat) == Some(
                Ok::<Seq<u8>, StorageError>(bytes),
            )
        }),
{
    let b = spec_decode_block(bytes).unwrap();
    let txs = b.txs.unwrap();
    let compact = compact_of(b);
    let c = spec_encode_compact_block(compact).unwrap();
    let after = apply_writes(m, full_block_plan(height, b, block_hash).0);
    assert forall|i: int| 0 <= i < txs.len() implies (#[trigger] spec_tx_hash(txs[i])) is Some by {
        assert(storable(txs[i]));
    }
    assert(all_hashed(txs));
    lemma_tx_hashes_of_all_hashed(txs);
    lemma_full_block_plan_read_back(m, height, b, block_hash);
    lemma_compact_then_assemble(b, txs);
    let keys = keys_of(compact);
    assert(block_reply(compact, b.proof, txs) == Ok::<Seq<u8>, StorageError>(bytes));
    // the compact form is read under the height, then the proof
    assert(read_entry(after, 10, height) == Ok::<Seq<u8>, StorageError>(c));
    assert(read_entry(after, 5, height) == Ok::<Seq<u8>, StorageError>(b.proof));
    let start = load_start(FULL_BLOCK_REGION, height);
    assert(start == (LoadStateView::Compact { height }, LoadActionView::Read { region: 10, key: height }));
    let second = load_next(start.0, read_entry(after, 10, height));
    assert(second == (LoadStateView::Proof { compact }, LoadActionView::Read { region: 5, key: height }));
    let third = load_next(second.0, read_entry(after, 5, height));
    assert(keys.len() == txs.len());
    let n = txs.len();
    assert(run_load(after, start.0, start.1, (n + 2) as nat) == run_load(
        after,
        second.0,
        second.1,
        (n + 1) as nat,
    ));
    assert(run_load(after, second.0, second.1, (n + 1) as nat) == run_load(after, third.0, third.1, n as nat));
    if txs.len() == 0 {
        assert(txs =~= seq![]);
        assert(third.1 == LoadActionView::Reply(Ok::<Seq<u8>, StorageError>(bytes)));
    } else {
        assert(third == (
            LoadStateView::Transactions { compact, proof: b.proof, keys, txs: seq![] },
            LoadActionView::Read { region: TRANSACTIONS_REGION, key: keys[0] },
        ));
        assert forall|j: int| 0 <= j < keys.len() implies read_rejection(TRANSACTIONS_REGION, #[trigger] keys[j])
            is None && after.contains_key((TRANSACTIONS_REGION, keys[j])) && spec_decode_raw_tx(
            after[(TRANSACTIONS_REGION, keys[j])],
        ) == Some(txs[j]) by {
            assert(Some(keys[j]) == spec_tx_hash(txs[j]));
            assert(spec_tx_hash(txs[j]) matches Some(h) && h.len() == 32);
        }
        assert(txs.take(0) =~= seq![]);
        lemma_run_transactions(after, compact, b.proof, keys, txs, 0, bytes);
    }
}

/// Asking for key 1 of the global region gives the hash of the current
/// block: the height read under key 0 of the global region is the key of
/// the second read, in the block-hash region, whose answer is the reply;
/// a failed first read is the reply. The entry under key 1 itself is never
/// read.
pub proof fn lemma_current_block_hash(m: Entries)
    ensures
        ({
            let start = load_start(0, be_bytes_spec(1));
            run_load(m, start.0, start.1, 2) == Some(
                match read_entry(m, 0, be_bytes_spec(0)) {
                    Ok(height) => read_entry(m, BLOCK_HASH_REGION, height),
                    Err(e) => Err(e),
                },
            )
        }),
{
    let start = load_start(0, be_bytes_spec(1));
    let first = read_entry(m, 0, be_bytes_spec(0));
    let next = load_next(start.0, first);
    assert(run_load(m, start.0, start.1, 2) == run_load(m, next.0, next.1, 1));
    if let Ok(height) = first {
        let last = load_next(next.0, read_entry(m, BLOCK_HASH_REGION, height));
        assert(run_load(m, next.0, next.1, 1) == run_load(m, last.0, last.1, 0));
    }
}

/// Any other request outside the full-block region reads its own entry and
/// replies with what that read answers.
pub proof fn lemma_entry_load(m: Entries, region: u32, key: Seq<u8>)
    requires
        region != FULL_BLOCK_REGION,
        !(region == 0 && key == be_bytes_spec(1)),
    ensures
        ({
            let start = load_start(region, key);
            run_load(m, start.0, start.1, 1) == Some(read_entry(m, region, key))
        }),
{
    let start = load_start(region, key);
    let next = load_next(start.0, read_entry(m, region, key));
    assert(run_load(m, start.0, start.1, 1) == run_load(m, next.0, next.1, 0));
}

} // verus!
