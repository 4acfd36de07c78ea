# storage_rocksdb

The storage service of a CITA-Cloud chain: a key/value store split into
regions, one RocksDB column family per region, served over gRPC.

- `src/` is the verified library (Verus): the per-region rules on keys and
  values and the column families (`region`), the errors and their status
  codes (`error`), the block types with compaction and reassembly of full
  blocks (`block`), their protobuf decoding and encoding (`proto`), the
  checks around the storage engine and the plan of writes that stores a full
  block (`store`), the routing, the reads a load makes and its reply, and the
  health decisions of the service (`service`), the byte-level round trip of
  a full block through the store (`round_trip`), big-endian heights
  (`bytes`) and the command-line about text (`about`).
- `app/` is the program around it: configuration, the RocksDB handle, the
  crypto-service call that hashes block headers, and the gRPC servers.
- `tests/` exercises the library on concrete values, with an in-memory map
  standing in for the engine.
