//! The errors of the store, with the status code and message the service
//! reports for each.

use vstd::prelude::*;
use vstd::string::StringExecFns;

verus! {

/// The status codes the service answers with.
#[derive(PartialEq, Eq, Structural, Clone, Copy, Debug)]
pub enum ErrorCode {
    InvalidArgument,
    NotFound,
    Aborted,
}

/// Why a request to the store failed.
#[derive(Clone, Debug)]
pub enum StorageError {
    /// The region is not one of the regions of the protocol.
    InvalidRegion,
    /// The key does not have the length keys of its region have.
    InvalidKey,
    /// The value does not have the length values of its region have.
    InvalidValue,
    /// The store has no column family for the region.
    BadRegion,
    /// The storage engine failed; the text describes the failure.
    Engine(String),
    /// No entry is stored under the key.
    NotFound,
    /// The bytes of a full block do not decode.
    DecodeBlock,
    /// A full block has no body.
    BlockBodyNotFound,
    /// A transaction of a block does not encode.
    EncodeRawTransaction,
    /// A transaction of a block carries no transaction hash.
    NoTxHash,
    /// A compact block does not encode.
    EncodeCompactBlock,
    /// The stored bytes of a compact block do not decode.
    DecodeCompactBlock,
    /// A reassembled block does not encode.
    EncodeBlock,
    /// The stored bytes of a transaction do not decode.
    DecodeRawTransaction,
    /// A full block has no header to hash.
    NoBlockHeader,
    /// A block header does not encode.
    EncodeBlockHeader,
    /// The hash of a block header could not be computed; the text says why.
    BlockHash(String),
}

impl StorageError {
    pub open spec fn spec_code(&self) -> ErrorCode {
        match self {
            StorageError::BadRegion | StorageError::Engine(_) | StorageError::BlockHash(_) => ErrorCode::Aborted,
            StorageError::NotFound => ErrorCode::NotFound,
            _ => ErrorCode::InvalidArgument,
        }
    }

    pub open spec fn spec_message(&self) -> Seq<char> {
        match self {
            StorageError::InvalidRegion => "invalid region"@,
            StorageError::InvalidKey => "invalid key"@,
            StorageError::InvalidValue => "invalid value"@,
            StorageError::BadRegion => "bad region"@,
            StorageError::Engine(detail) => "store error: "@ + detail@,
            StorageError::NotFound => "key not found"@,
            StorageError::DecodeBlock => "decode Block failed"@,
            StorageError::BlockBodyNotFound => "block body not found"@,
            StorageError::EncodeRawTransaction => "encode RawTransaction failed"@,
            StorageError::NoTxHash => "can not get tx hash"@,
            StorageError::EncodeCompactBlock => "encode CompactBlock failed"@,
            StorageError::DecodeCompactBlock => "decode CompactBlock failed"@,
            StorageError::EncodeBlock => "encode Block failed"@,
            StorageError::DecodeRawTransaction => "decode RawTransaction failed"@,
            StorageError::NoBlockHeader => "block header not found"@,
            StorageError::EncodeBlockHeader => "encode BlockHeader failed"@,
            StorageError::BlockHash(detail) => "get block hash failed: "@ + detail@,
        }
    }

    /// The status code the service reports for this error.
    pub fn code(&self) -> (c: ErrorCode)
        ensures
            c == self.spec_code(),
    {
        match self {
            StorageError::BadRegion | StorageError::Engine(_) | StorageError::BlockHash(_) => ErrorCode::Aborted,
            StorageError::NotFound => ErrorCode::NotFound,
            _ => ErrorCode::InvalidArgument,
        }
    }

    /// The message the service reports for this error.
    pub fn message(&self) -> (m: String)
        ensures
            m@ == self.spec_message(),
    {
        match self {
            StorageError::InvalidRegion => String::from_str("invalid region"),
            StorageError::InvalidKey => String::from_str("invalid key"),
            StorageError::InvalidValue => String::from_str("invalid value"),
            StorageError::BadRegion => String::from_str("bad region"),
            StorageError::Engine(detail) => String::from_str("store error: ").concat(detail.as_str()),
            StorageError::NotFound => String::from_str("key not found"),
            StorageError::DecodeBlock => String::from_str("decode Block failed"),
            StorageError::BlockBodyNotFound => String::from_str("block body not found"),
            StorageError::EncodeRawTransaction => String::from_str("encode RawTransaction failed"),
            StorageError::NoTxHash => String::from_str("can not get tx hash"),
            StorageError::EncodeCompactBlock => String::from_str("encode CompactBlock failed"),
            StorageError::DecodeCompactBlock => String::from_str("decode CompactBlock failed"),
            StorageError::EncodeBlock => String::from_str("encode Block failed"),
            StorageError::DecodeRawTransaction => String::from_str("decode RawTransaction failed"),
            StorageError::NoBlockHeader => String::from_str("block header not found"),
            StorageError::EncodeBlockHeader => String::from_str("encode BlockHeader failed"),
            StorageError::BlockHash(detail) => String::from_str("get block hash failed: ").concat(detail.as_str()),
        }
    }
}

} // verus!
