# HDFS native object store

An [object_store](https://docs.rs/object_store) implementation over the native
Rust client of HDFS, [hdfs-native](https://github.com/Kimahriman/hdfs-native),
with its logic verified in Verus.

```rust
let store = HdfsObjectStoreBuilder::new()
    .with_url("hdfs://localhost:9000")
    .build()?;
```

## Layout

- `src/` is the verified library. Every operation of the store (put, get, copy,
  rename, delete, list, upload in parts) is a state machine: it requests one call
  of the file system at a time, takes the answer, and ends with a result. The
  modules whose names end in `laws` run these machines on a model of a disk, with
  calls that may fail, and prove what an operation does as a whole: that a put is
  atomic, that a get returns what a put wrote, that a completed upload has all
  its parts, that of two uploads to one place the last one completed wins, that
  listings go by path segments.
- `app/` makes the calls: it implements `object_store::ObjectStore` on the
  library and the client.
- `tests/` runs the library on concrete values and against a file system in
  memory.

## What is trusted

The library believes, without proof, what the doc comments of its wrappers claim
of `object_store` (parsing a path, resolving a range, checking the conditions of
a request), of `chrono` (the bounds of time) and of `hdfs-native` (telling errors
apart, building a client).
