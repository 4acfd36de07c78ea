//! The protobuf form of blocks and transactions: decoding stored or
//! received bytes into the library's block types and encoding them back,
//! through the protocol's generated messages.

use vstd::prelude::*;
use cita_cloud_proto::blockchain as pb;
use cita_cloud_proto::blockchain::raw_transaction::Tx as PbTx;
use prost::Message;
use crate::block::{
    FullBlock, Header, FullBlockView, CompactForm, CompactBlockBody, CompactFormView,
    RawTx, RawTransactions, TxContent, Tx, SignedTx,
    SignedUtxoTx, UtxoContent, TxWitness,
};

verus! {

#[verifier::external_type_specification]
#[verifier::external_body]
pub struct ExPbBlockHeader(pb::BlockHeader);

#[verifier::external_type_specification]
#[verifier::external_body]
pub struct ExPbTransaction(pb::Transaction);

#[verifier::external_type_specification]
#[verifier::external_body]
pub struct ExPbWitness(pb::Witness);

#[verifier::external_type_specification]
#[verifier::external_body]
pub struct ExPbUnverifiedTransaction(pb::UnverifiedTransaction);

#[verifier::external_type_specification]
#[verifier::external_body]
pub struct ExPbUtxoTransaction(pb::UtxoTransaction);

#[verifier::external_type_specification]
#[verifier::external_body]
pub struct ExPbUnverifiedUtxoTransaction(pb::UnverifiedUtxoTransaction);

#[verifier::external_type_specification]
#[verifier::external_body]
pub struct ExPbRawTransaction(pb::RawTransaction);

#[verifier::external_type_specification]
#[verifier::external_body]
pub struct ExPbBlock(pb::Block);

#[verifier::external_type_specification]
#[verifier::external_body]
pub struct ExPbCompactBlock(pb::CompactBlock);

/// What `prost`'s `Message::decode` makes of bytes as a `Block` message,
/// field for field in the library's types; `None` when they do not decode.
pub uninterp spec fn spec_decode_block(bytes: Seq<u8>) -> Option<FullBlockView>;

/// What `Message::decode` makes of bytes as a `CompactBlock` message.
pub uninterp spec fn spec_decode_compact_block(bytes: Seq<u8>) -> Option<CompactFormView>;

/// What `Message::decode` makes of bytes as a `RawTransaction` message.
pub uninterp spec fn spec_decode_raw_tx(bytes: Seq<u8>) -> Option<RawTx>;

/// What `Message::encode` writes for a `RawTransaction` message; `None` when
/// it fails.
pub uninterp spec fn spec_encode_raw_tx(tx: RawTx) -> Option<Seq<u8>>;

/// What `Message::encode` writes for a `CompactBlock` message.
pub uninterp spec fn spec_encode_compact_block(c: CompactFormView) -> Option<Seq<u8>>;

/// What `Message::encode` writes for a `Block` message.
pub uninterp spec fn spec_encode_block(b: FullBlockView) -> Option<Seq<u8>>;

/// What `Message::encode` writes for a `BlockHeader` message.
pub uninterp spec fn spec_encode_block_header(h: Header) -> Option<Seq<u8>>;

/// Moves the fields of a protocol `BlockHeader` into the library's type,
/// one for one.
#[verifier::external_body]
fn header_from_pb(h: pb::BlockHeader) -> Header {
    Header {
        prevhash: h.prevhash,
        timestamp: h.timestamp,
        height: h.height,
        transactions_root: h.transactions_root,
        proposer: h.proposer,
    }
}

/// Moves the fields of a library `Header` into the protocol's type,
/// one for one.
#[verifier::external_body]
fn header_to_pb(h: Header) -> pb::BlockHeader {
    pb::BlockHeader {
        prevhash: h.prevhash,
        timestamp: h.timestamp,
        height: h.height,
        transactions_root: h.transactions_root,
        proposer: h.proposer,
    }
}

/// Moves the fields of a protocol `Witness` into the library's type.
#[verifier::external_body]
fn witness_from_pb(w: pb::Witness) -> TxWitness {
    TxWitness { signature: w.signature, sender: w.sender }
}

/// Moves the fields of a library `TxWitness` into the protocol's type.
#[verifier::external_body]
fn witness_to_pb(w: TxWitness) -> pb::Witness {
    pb::Witness { signature: w.signature, sender: w.sender }
}

/// Moves the fields of a protocol `Transaction` into the library's type.
#[verifier::external_body]
fn transaction_from_pb(t: pb::Transaction) -> TxContent {
    TxContent {
        version: t.version,
        to: t.to,
        nonce: t.nonce,
        quota: t.quota,
        valid_until_block: t.valid_until_block,
        data: t.data,
        value: t.value,
        chain_id: t.chain_id,
    }
}

/// Moves the fields of a library `TxContent` into the protocol's type.
#[verifier::external_body]
fn transaction_to_pb(t: TxContent) -> pb::Transaction {
    pb::Transaction {
        version: t.version,
        to: t.to,
        nonce: t.nonce,
        quota: t.quota,
        valid_until_block: t.valid_until_block,
        data: t.data,
        value: t.value,
        chain_id: t.chain_id,
    }
}

/// Moves the fields of a protocol `UnverifiedTransaction` into the
/// library's type.
#[verifier::external_body]
fn normal_from_pb(u: pb::UnverifiedTransaction) -> SignedTx {
    SignedTx {
        transaction: u.transaction.map(transaction_from_pb),
        transaction_hash: u.transaction_hash,
        witness: u.witness.map(witness_from_pb),
    }
}

/// Moves the fields of a library `SignedTx` into the
/// protocol's type.
#[verifier::external_body]
fn normal_to_pb(u: SignedTx) -> pb::UnverifiedTransaction {
    pb::UnverifiedTransaction {
        transaction: u.transaction.map(transaction_to_pb),
        transaction_hash: u.transaction_hash,
        witness: u.witness.map(witness_to_pb),
    }
}

/// Moves the fields of a protocol `UtxoTransaction` into the library's type.
#[verifier::external_body]
fn utxo_transaction_from_pb(t: pb::UtxoTransaction) -> UtxoContent {
    UtxoContent { version: t.version, pre_tx_hash: t.pre_tx_hash, output: t.output, lock_id: t.lock_id }
}

/// Moves the fields of a library `UtxoContent` into the protocol's type.
#[verifier::external_body]
fn utxo_transaction_to_pb(t: UtxoContent) -> pb::UtxoTransaction {
    pb::UtxoTransaction { version: t.version, pre_tx_hash: t.pre_tx_hash, output: t.output, lock_id: t.lock_id }
}

/// Moves the fields of a protocol `UnverifiedUtxoTransaction` into the
/// library's type.
#[verifier::external_body]
fn utxo_from_pb(u: pb::UnverifiedUtxoTransaction) -> SignedUtxoTx {
    SignedUtxoTx {
        transaction: u.transaction.map(utxo_transaction_from_pb),
        transaction_hash: u.transaction_hash,
        witnesses: u.witnesses.into_iter().map(witness_from_pb).collect(),
    }
}

/// Moves the fields of a library `SignedUtxoTx` into the
/// protocol's type.
#[verifier::external_body]
fn utxo_to_pb(u: SignedUtxoTx) -> pb::UnverifiedUtxoTransaction {
    pb::UnverifiedUtxoTransaction {
        transaction: u.transaction.map(utxo_transaction_to_pb),
        transaction_hash: u.transaction_hash,
        witnesses: u.witnesses.into_iter().map(witness_to_pb).collect(),
    }
}

/// Moves a protocol `RawTransaction` into the library's type, variant for
/// variant.
#[verifier::external_body]
fn raw_tx_from_pb(raw: pb::RawTransaction) -> RawTx {
    match raw.tx {
        Some(PbTx::NormalTx(u)) => RawTx { tx: Some(Tx::NormalTx(normal_from_pb(u))) },
        Some(PbTx::UtxoTx(u)) => RawTx { tx: Some(Tx::UtxoTx(utxo_from_pb(u))) },
        None => RawTx { tx: None },
    }
}

/// Moves a library `RawTx` into the protocol's type, variant for
/// variant.
#[verifier::external_body]
fn raw_tx_to_pb(raw: RawTx) -> pb::RawTransaction {
    match raw.tx {
        Some(Tx::NormalTx(u)) => pb::RawTransaction { tx: Some(PbTx::NormalTx(normal_to_pb(u))) },
        Some(Tx::UtxoTx(u)) => pb::RawTransaction { tx: Some(PbTx::UtxoTx(utxo_to_pb(u))) },
        None => pb::RawTransaction { tx: None },
    }
}

/// Moves the fields of a protocol `Block` into the library's type.
#[verifier::external_body]
fn block_from_pb(b: pb::Block) -> FullBlock {
    FullBlock {
        version: b.version,
        header: b.header.map(header_from_pb),
        body: b.body.map(|body| RawTransactions { body: body.body.into_iter().map(raw_tx_from_pb).collect() }),
        proof: b.proof,
        state_root: b.state_root,
    }
}

/// Moves the fields of a library `FullBlock` into the protocol's type.
#[verifier::external_body]
fn block_to_pb(b: FullBlock) -> pb::Block {
    pb::Block {
        version: b.version,
        header: b.header.map(header_to_pb),
        body: b.body.map(|body| pb::RawTransactions { body: body.body.into_iter().map(raw_tx_to_pb).collect() }),
        proof: b.proof,
        state_root: b.state_root,
    }
}

/// Moves the fields of a protocol `CompactBlock` into the library's type.
#[verifier::external_body]
fn compact_from_pb(c: pb::CompactBlock) -> CompactForm {
    CompactForm {
        version: c.version,
        header: c.header.map(header_from_pb),
        body: c.body.map(|body| CompactBlockBody { tx_hashes: body.tx_hashes }),
    }
}

/// Moves the fields of a library `CompactForm` into the protocol's type.
#[verifier::external_body]
fn compact_to_pb(c: CompactForm) -> pb::CompactBlock {
    pb::CompactBlock {
        version: c.version,
        header: c.header.map(header_to_pb),
        body: c.body.map(|body| pb::CompactBlockBody { tx_hashes: body.tx_hashes }),
    }
}

/// `prost`'s `Message::decode` of a `Block` message from `bytes`; the
/// result is named, not described.
#[verifier::external_body]
pub(crate) fn decode_block(bytes: &[u8]) -> (r: Option<FullBlock>)
    ensures
        match r {
            Some(b) => spec_decode_block(bytes@) == Some(b@),
            None => spec_decode_block(bytes@) is None,
        },
{
    match pb::Block::decode(bytes) {
        Ok(b) => Some(block_from_pb(b)),
        Err(_) => None,
    }
}

/// `Message::decode` of a `CompactBlock` message from `bytes`.
#[verifier::external_body]
pub(crate) fn decode_compact_block(bytes: &[u8]) -> (r: Option<CompactForm>)
    ensures
        match r {
            Some(c) => spec_decode_compact_block(bytes@) == Some(c@),
            None => spec_decode_compact_block(bytes@) is None,
        },
{
    match pb::CompactBlock::decode(bytes) {
        Ok(c) => Some(compact_from_pb(c)),
        Err(_) => None,
    }
}

/// `Message::decode` of a `RawTransaction` message from `bytes`.
#[verifier::external_body]
pub(crate) fn decode_raw_tx(bytes: &[u8]) -> (r: Option<RawTx>)
    ensures
        match r {
            Some(t) => spec_decode_raw_tx(bytes@) == Some(t),
            None => spec_decode_raw_tx(bytes@) is None,
        },
{
    match pb::RawTransaction::decode(bytes) {
        Ok(t) => Some(raw_tx_from_pb(t)),
        Err(_) => None,
    }
}

/// `Message::encode` of a `RawTransaction` message into a new vector; it
/// fails only when the vector cannot take the encoded length. What it
/// writes decodes back to the same transaction.
#[verifier::external_body]
pub(crate) fn encode_raw_tx(tx: &RawTx) -> (r: Option<Vec<u8>>)
    ensures
        match r {
            Some(v) => spec_encode_raw_tx(*tx) == Some(v@) && spec_decode_raw_tx(v@) == Some(*tx),
            None => spec_encode_raw_tx(*tx) is None,
        },
{
    let mut buf = Vec::new();
    match raw_tx_to_pb(tx.clone()).encode(&mut buf) {
        Ok(()) => Some(buf),
        Err(_) => None,
    }
}

/// `Message::encode` of a `CompactBlock` message into a new vector. What it
/// writes decodes back to the same compact block.
#[verifier::external_body]
pub(crate) fn encode_compact_block(c: &CompactForm) -> (r: Option<Vec<u8>>)
    ensures
        match r {
            Some(v) => spec_encode_compact_block(c@) == Some(v@) && spec_decode_compact_block(v@)
                == Some(c@),
            None => spec_encode_compact_block(c@) is None,
        },
{
    let mut buf = Vec::new();
    match compact_to_pb(c.clone()).encode(&mut buf) {
        Ok(()) => Some(buf),
        Err(_) => None,
    }
}

/// `Message::encode` of a `Block` message into a new vector. What it writes
/// decodes back to the same block.
#[verifier::external_body]
pub(crate) fn encode_block(b: &FullBlock) -> (r: Option<Vec<u8>>)
    ensures
        match r {
            Some(v) => spec_encode_block(b@) == Some(v@) && spec_decode_block(v@) == Some(b@),
            None => spec_encode_block(b@) is None,
        },
{
    let mut buf = Vec::new();
    match block_to_pb(b.clone()).encode(&mut buf) {
        Ok(()) => Some(buf),
        Err(_) => None,
    }
}

/// `Message::encode` of a `BlockHeader` message into a new vector.
#[verifier::external_body]
pub(crate) fn encode_block_header(h: &Header) -> (r: Option<Vec<u8>>)
    ensures
        match r {
            Some(v) => spec_encode_block_header(*h) == Some(v@),
            None => spec_encode_block_header(*h) is None,
        },
{
    let mut buf = Vec::new();
    match header_to_pb(h.clone()).encode(&mut buf) {
        Ok(()) => Some(buf),
        Err(_) => None,
    }
}

} // verus!
