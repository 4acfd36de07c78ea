use cita_cloud_proto::blockchain as pb;
use prost::Message;
use std::collections::HashMap;
use storage_rocksdb::block::{
    assemble_full_block, compact_tx_keys, full_to_compact, get_tx_hash, CompactForm,
    CompactBlockBody, FullBlock, Header, RawTx, RawTransactions, SignedTx, SignedUtxoTx, Tx,
    TxContent, TxWitness, UtxoContent,
};
use storage_rocksdb::bytes::be_bytes;
use storage_rocksdb::error::StorageError;
use storage_rocksdb::service::{load_step, start_load, LoadAction, LoadState};
use storage_rocksdb::store::{
    block_header_bytes, decode_full_block, full_block_writes, prepare_read, prepare_store, Write,
};

fn header(height: u64) -> Header {
    Header {
        prevhash: vec![0; 32],
        timestamp: 1_675_000_000_000,
        height,
        transactions_root: vec![1; 32],
        proposer: vec![2; 32],
    }
}

fn normal_tx(seed: u8) -> RawTx {
    RawTx {
        tx: Some(Tx::NormalTx(SignedTx {
            transaction: Some(TxContent {
                version: 0,
                to: vec![seed; 20],
                nonce: format!("{}", seed),
                quota: 3_000_000,
                valid_until_block: 0,
                data: vec![seed; 32],
                value: vec![seed; 32],
                chain_id: vec![0; 32],
            }),
            transaction_hash: vec![seed; 32],
            witness: Some(TxWitness { signature: vec![0; 64], sender: vec![0; 20] }),
        })),
    }
}

fn utxo_tx(seed: u8) -> RawTx {
    RawTx {
        tx: Some(Tx::UtxoTx(SignedUtxoTx {
            transaction: Some(UtxoContent {
                version: 0,
                pre_tx_hash: vec![0; 32],
                output: vec![seed; 4],
                lock_id: 1000,
            }),
            transaction_hash: vec![seed; 32],
            witnesses: vec![],
        })),
    }
}

fn block(txs: Vec<RawTx>) -> FullBlock {
    FullBlock {
        version: 0,
        header: Some(header(7)),
        body: Some(RawTransactions { body: txs }),
        proof: vec![9; 128],
        state_root: vec![],
    }
}

fn pb_normal_tx(seed: u64) -> pb::RawTransaction {
    let mut hash = Vec::new();
    for _ in 0..4 {
        hash.extend_from_slice(&seed.to_be_bytes());
    }
    pb::RawTransaction {
        tx: Some(pb::raw_transaction::Tx::NormalTx(pb::UnverifiedTransaction {
            transaction: Some(pb::Transaction {
                version: 0,
                to: vec![3; 20],
                nonce: seed.to_string(),
                quota: 3_000_000,
                valid_until_block: 0,
                data: vec![4; 32],
                value: vec![5; 32],
                chain_id: vec![0; 32],
            }),
            transaction_hash: hash,
            witness: Some(pb::Witness { signature: vec![0; 64], sender: vec![0; 20] }),
        })),
    }
}

fn pb_block(tx_num: u64, height: u64) -> pb::Block {
    pb::Block {
        version: 0,
        header: Some(pb::BlockHeader {
            prevhash: vec![0; 32],
            timestamp: 1_675_000_000_000,
            height,
            transactions_root: vec![0; 32],
            proposer: vec![0; 32],
        }),
        body: Some(pb::RawTransactions { body: (0..tx_num).map(pb_normal_tx).collect() }),
        proof: vec![0; 128],
        state_root: vec![],
    }
}

fn view(ws: &[Write]) -> Vec<(u32, Vec<u8>, Vec<u8>)> {
    ws.iter().map(|w| (w.region, w.key.clone(), w.value.clone())).collect()
}

/// Performs the writes, each after the checks of a store request, into an
/// in-memory map; stops at the first refused one.
fn apply(entries: &mut HashMap<(u32, Vec<u8>), Vec<u8>>, writes: Vec<Write>) -> Result<(), StorageError> {
    for w in writes {
        prepare_store(w.region, &w.key, &w.value)?;
        entries.insert((w.region, w.key), w.value);
    }
    Ok(())
}

fn read(entries: &HashMap<(u32, Vec<u8>), Vec<u8>>, region: u32, key: Vec<u8>) -> Result<Vec<u8>, StorageError> {
    prepare_read(region, &key)?;
    entries.get(&(region, key)).cloned().ok_or(StorageError::NotFound)
}

/// Runs a load request against the in-memory map.
fn load(entries: &HashMap<(u32, Vec<u8>), Vec<u8>>, region: u32, key: Vec<u8>) -> Result<Vec<u8>, StorageError> {
    let (mut state, mut action): (LoadState, LoadAction) = start_load(region, key);
    loop {
        match action {
            LoadAction::Reply(r) => return r,
            LoadAction::Read { region, key } => {
                let answer = read(entries, region, key);
                let (s, a) = load_step(state, answer);
                state = s;
                action = a;
            }
        }
    }
}

fn store_full_block(entries: &mut HashMap<(u32, Vec<u8>), Vec<u8>>, height: Vec<u8>, bytes: Vec<u8>) -> Result<(), StorageError> {
    let b = decode_full_block(&height, &bytes)?;
    block_header_bytes(&b)?;
    let block_hash = vec![0xAB; 32];
    let (writes, stop) = full_block_writes(&height, b, &block_hash);
    apply(entries, writes)?;
    match stop {
        Some(e) => Err(e),
        None => Ok(()),
    }
}

#[test]
fn tx_hash_of_each_kind() {
    assert_eq!(get_tx_hash(&normal_tx(3)), Some(vec![3; 32]));
    assert_eq!(get_tx_hash(&utxo_tx(4)), Some(vec![4; 32]));
    assert_eq!(get_tx_hash(&RawTx { tx: None }), None);
}

#[test]
fn compaction_keeps_hashes_in_order() {
    let b = block(vec![normal_tx(1), RawTx { tx: None }, utxo_tx(2), normal_tx(3)]);
    let c = full_to_compact(b);
    assert_eq!(c.version, 0);
    assert_eq!(c.header.as_ref().unwrap().height, 7);
    assert_eq!(c.body.as_ref().unwrap().tx_hashes, vec![vec![1u8; 32], vec![2u8; 32], vec![3u8; 32]]);
    assert_eq!(compact_tx_keys(&c), vec![vec![1u8; 32], vec![2u8; 32], vec![3u8; 32]]);
}

#[test]
fn compaction_of_block_without_body() {
    let mut b = block(vec![]);
    b.body = None;
    let c = full_to_compact(b);
    assert!(c.body.unwrap().tx_hashes.is_empty());
    let empty = CompactForm { version: 1, header: None, body: None };
    assert!(compact_tx_keys(&empty).is_empty());
}

#[test]
fn compact_then_assemble_gives_block_back() {
    let txs = vec![normal_tx(1), utxo_tx(2), normal_tx(3)];
    let b = block(txs.clone());
    let c = full_to_compact(b.clone());
    let loaded: Vec<RawTx> = compact_tx_keys(&c)
        .iter()
        .map(|h| txs.iter().find(|t| &get_tx_hash(t).unwrap() == h).unwrap().clone())
        .collect();
    let back = assemble_full_block(c, b.proof.clone(), loaded);
    assert_eq!(format!("{:?}", back), format!("{:?}", b));
}

#[test]
fn assembly_drops_the_state_root() {
    let c = CompactForm {
        version: 2,
        header: Some(header(3)),
        body: Some(CompactBlockBody { tx_hashes: vec![] }),
    };
    let b = assemble_full_block(c, vec![5; 4], vec![]);
    assert_eq!(b.version, 2);
    assert_eq!(b.proof, vec![5; 4]);
    assert!(b.state_root.is_empty());
    assert!(b.body.unwrap().body.is_empty());
}

#[test]
fn full_block_plan_lists_every_entry() {
    let height = be_bytes(7);
    let pbb = pb::Block {
        body: Some(pb::RawTransactions { body: vec![pb_normal_tx(1), pb_normal_tx(2)] }),
        ..pb_block(0, 7)
    };
    let bytes = pbb.encode_to_vec();
    let b = decode_full_block(&height, &bytes).unwrap();
    let block_hash = vec![0xab; 32];
    let (writes, err) = full_block_writes(&height, b, &block_hash);
    assert!(err.is_none());
    let txs = &pbb.body.as_ref().unwrap().body;
    let h0 = [1u64.to_be_bytes(); 4].concat();
    let h1 = [2u64.to_be_bytes(); 4].concat();
    let compact = pb::CompactBlock {
        version: 0,
        header: pbb.header.clone(),
        body: Some(pb::CompactBlockBody { tx_hashes: vec![h0.clone(), h1.clone()] }),
    };
    let expected = vec![
        (1, h0.clone(), txs[0].encode_to_vec()),
        (7, h0.clone(), height.clone()),
        (9, h0.clone(), 0u64.to_be_bytes().to_vec()),
        (1, h1.clone(), txs[1].encode_to_vec()),
        (7, h1.clone(), height.clone()),
        (9, h1.clone(), 1u64.to_be_bytes().to_vec()),
        (4, height.clone(), block_hash.clone()),
        (8, block_hash.clone(), height.clone()),
        (5, height.clone(), vec![0u8; 128]),
        (10, height.clone(), compact.encode_to_vec()),
    ];
    assert_eq!(view(&writes), expected);
    for w in &writes {
        assert!(prepare_store(w.region, &w.key, &w.value).is_ok());
    }
}

#[test]
fn full_block_plan_stops_at_unhashed_tx() {
    let height = be_bytes(3);
    let b = block(vec![normal_tx(1), RawTx { tx: None }, normal_tx(3)]);
    let (writes, err) = full_block_writes(&height, b, &vec![0; 32]);
    assert!(matches!(err, Some(StorageError::NoTxHash)));
    assert_eq!(writes.len(), 3);
    assert_eq!(writes[0].region, 1);
    assert_eq!(writes[2].value, 0u64.to_be_bytes().to_vec());
}

#[test]
fn full_block_plan_needs_a_body() {
    let mut b = block(vec![]);
    b.body = None;
    let (writes, err) = full_block_writes(&be_bytes(0), b, &vec![0; 32]);
    assert!(writes.is_empty());
    assert!(matches!(err, Some(StorageError::BlockBodyNotFound)));
}

#[test]
fn short_block_hash_is_refused_by_the_store() {
    let height = be_bytes(1);
    let b = block(vec![]);
    let (writes, err) = full_block_writes(&height, b, &vec![1; 4]);
    assert!(err.is_none());
    assert_eq!(writes.len(), 4);
    assert!(matches!(prepare_store(writes[0].region, &writes[0].key, &writes[0].value), Err(StorageError::InvalidValue)));
}

#[test]
fn header_bytes_are_the_header_encoding() {
    let pbb = pb_block(0, 9);
    let b = decode_full_block(&be_bytes(9), &pbb.encode_to_vec()).unwrap();
    assert_eq!(block_header_bytes(&b).unwrap(), pbb.header.unwrap().encode_to_vec());
    let mut headless = block(vec![]);
    headless.header = None;
    assert!(matches!(block_header_bytes(&headless), Err(StorageError::NoBlockHeader)));
}

#[test]
fn full_block_store_then_load_gives_the_bytes_back() {
    let mut entries = HashMap::new();
    let height = 0u64.to_be_bytes().to_vec();
    let bytes = pb_block(600, 0).encode_to_vec();
    store_full_block(&mut entries, height.clone(), bytes.clone()).unwrap();
    assert_eq!(load(&entries, 11, height).unwrap(), bytes);
}

#[test]
fn full_block_store_errors() {
    let mut entries = HashMap::new();
    assert!(matches!(store_full_block(&mut entries, vec![0u8; 7], vec![0xFF]), Err(StorageError::InvalidKey)));
    assert!(matches!(store_full_block(&mut entries, vec![0u8; 8], vec![0xFF]), Err(StorageError::DecodeBlock)));
    assert!(matches!(load(&entries, 10, vec![0u8; 8]), Err(StorageError::NotFound)));
    assert!(matches!(load(&entries, 11, vec![0u8; 8]), Err(StorageError::NotFound)));
}

#[test]
fn full_block_load_decode_errors() {
    let height = be_bytes(4);
    let mut entries = HashMap::new();
    entries.insert((10, height.clone()), vec![0xFF]);
    assert!(matches!(load(&entries, 11, height.clone()), Err(StorageError::DecodeCompactBlock)));
    let compact = pb::CompactBlock {
        version: 0,
        header: None,
        body: Some(pb::CompactBlockBody { tx_hashes: vec![vec![6u8; 32]] }),
    };
    entries.insert((10, height.clone()), compact.encode_to_vec());
    assert!(matches!(load(&entries, 11, height.clone()), Err(StorageError::NotFound)));
    entries.insert((5, height.clone()), vec![1, 2, 3]);
    assert!(matches!(load(&entries, 11, height.clone()), Err(StorageError::NotFound)));
    entries.insert((1, vec![6u8; 32]), vec![0xFF]);
    assert!(matches!(load(&entries, 11, height.clone()), Err(StorageError::DecodeRawTransaction)));
    entries.insert((1, vec![6u8; 32]), pb_normal_tx(6).encode_to_vec());
    let back = pb::Block::decode(load(&entries, 11, height).unwrap().as_slice()).unwrap();
    assert_eq!(back.proof, vec![1, 2, 3]);
    assert_eq!(back.body.unwrap().body, vec![pb_normal_tx(6)]);
}

#[test]
fn current_block_hash_goes_through_the_height() {
    let mut entries = HashMap::new();
    entries.insert((0, 0u64.to_be_bytes().to_vec()), 5u64.to_be_bytes().to_vec());
    entries.insert((4, 5u64.to_be_bytes().to_vec()), vec![0xAB; 32]);
    entries.insert((0, 1u64.to_be_bytes().to_vec()), vec![0xCD; 8]);
    assert_eq!(load(&entries, 0, 1u64.to_be_bytes().to_vec()).unwrap(), vec![0xAB; 32]);
    assert_eq!(load(&entries, 0, 2u64.to_be_bytes().to_vec()).unwrap_err().message(), "key not found");
    let empty = HashMap::new();
    assert!(matches!(load(&empty, 0, 1u64.to_be_bytes().to_vec()), Err(StorageError::NotFound)));
}
