# block_system

Database building blocks — buffer pools, storage layouts, indexes,
execution operators, concurrency control, a write-ahead log and more —
written in Verus, each with contracts that state what it computes and
proofs that it does so.

## Layout

- `src/common/`: what every block shares: metadata, ports, metric
  descriptors, tables of rows keyed by text, records of JSON fields, FNV-1a
  hashing, and the few calls into serde_json the blocks make.
- `src/categories/`: one module per block, grouped by category (buffer,
  compression, concurrency, distribution, execution, index, optimization,
  partitioning, storage, transaction), plus text helpers.
- `tests/`: tests of each category on concrete values.
- `app/`: ordinary Rust around the library: serde forms of the shared
  types, the floating-point metrics and settings, the order of JSON values
  used by filters and sorts, and runners that take JSON records apart,
  call the library and put its answers back into records.

## Some of what is proved

- LSM tree: a read after `put(k, v)` gives `v` for `k` and what it gave
  before for every other key, through flushes and cascading compactions;
  its Bloom filters have no false negatives.
- B+ tree: keys are texts, integers or other JSON values, in the order
  JSON values sort; entries stay sorted, a lookup returns the first
  matching entry of the leaf the search reaches, a range scan over
  distinct keys returns exactly the entries in range, and every split adds
  one node.
- Row locks: an exclusive lock has one holder, a request never ends in a
  deadlock (only the requester ever waits), and commit or abort releases
  exactly the locks the transaction took.
- MVCC: a write never changes what an earlier active snapshot reads, and
  garbage collection never removes a version a snapshot can see.
- Hash index: a lookup returns the first TupleId inserted under the key,
  across rehashes.

## Maps keyed by text

Tables keyed by text (the row-lock table and holder sets, the MVCC store,
the covering and clustered indexes, the columnar store, the LSM memtable)
are vectors with a distinct-keys invariant. vstd specifies `HashMap` and
`BTreeMap` by the key's view only for keys it knows how to hash and
compare; with a `String` key the calls type-check but their specifications
let nothing be proved about what a lookup returns, so the tables are held
in a form whose contents Verus can reason about.
