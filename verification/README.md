# Mantissa

Verified core of the Mantissa cluster: replicated registers with a Merkle search tree,
replicated volume control, the node-local replica catalog, the block driver and the split
planner. `src/` is a Verus library: but for the calls listed under "What is trusted", every
function in it is proved against its contract. `app/` is ordinary Rust around it, and
`tests/` runs the library.

| Module | What it holds |
| --- | --- |
| `store` | multi-value registers and vector clocks, tombstones, prune frontiers, garbage collection, delta exchange and the Merkle index |
| `volume` | volume identities, descriptors and the control state with its commands |
| `catalog` | replica pool checks, the local catalog of replicas and attachments, and its stored rows |
| `driver` | block requests, ublk settings and inventory, device-mapper identities, tables and steps |
| `ui` | the split planner and the texts that it shows |
| `text`, `bytes` | decimal and hexadecimal texts, trimming, big-endian numbers |

## How the parts fit

The library performs no input or output. Where an operation needs the machine, the library
says what to do next and judges the answer: `PoolProbe` and `SparseCheck` walk through the
pool checks, `ensure`, `resume_exact`, `switch_backend` and their siblings give the next
device-mapper step, `admit_request` and `answer_request` bracket each block request, and
`SplitPlannerApp` takes keys and mouse input one at a time. `app/` performs the step and
hands the answer back. Time, page size, free space and the space that the storage format
takes are arguments.

Types with private state keep what must hold of it as a type invariant: a catalog's rows
agree with each other, a planner can take the next input, a store's age index lists its
delete markers, whatever was called before.

## Laws

Promises that hold of whole modules are public proof functions named `law_*`: merging
registers converges, compaction lets no dropped value return, forgotten deletions do not
return, control-state commands preserve validity and never wrap a counter, reservations never
exceed the pool, every row that the catalog holds can be stored and read back, saved tables
open again to the same catalog, an identity and its UUID determine each other, a confirmed
split is a partition.

## What is trusted

Calls into other crates stand behind small functions whose contracts are believed: the
Merkle search tree, UUID formatting and parsing, key derivation with BLAKE3, Cap'n Proto
message framing, and a few standard-library conversions. Each says above its definition what
it claims.
