# kivi

The decision core of a distributed state system, verified with Verus: what replicates, what
is placed where, what is repaired, and what the adaptive controller may change.

## Layout

`src/` is the library. Its functions state in their contracts what they return or change,
over mathematical views of the data, and Verus proves it. Properties that span
functions stand as public proof functions whose names begin with `law_`.

- `consensus/` is one replicated group: the commands of its log and their deduplication
  (`tablet`, `session`), its durable log (`store`), its snapshots and the state machine
  around them (`image`, `membership`, `applied`, `object`, `sections`, `keyorder`,
  `snapshot`, `machine`), the mesh of its peers (`transport`, `mesh`, `exchange`, `tls`,
  `pinning`) and the workers that own it (`types`, `worker`).
- `control/` is the control plane: its records and their canonical bytes (`node`,
  `placement`, `migration`, `split`, `merge`, `catalog`, `layouts`, `mutation`), the failure
  detector, the planner, the mapping to the redundancy fabric, and the state that they work
  on.
- `control/adaptive/` is the adaptive loop: actions, policies, observations, safety,
  objectives, the ledger, the baseline and the learned controller, and a simulation.
- The other modules hold what both sides share: identities, time, sorted lists, decimal
  text, and little-endian fields.

`app/` is ordinary Rust around the library: files, sockets and their addresses,
certificates, and the storage traits of the Raft framework. Where work outside alternates
with decisions (serving and issuing requests, dialing, waiting), the library has functions
that say what to do next and for how long to wait, and `app/` runs the loop.

`tests/` runs the library on concrete values.

## What is trusted

A few functions call out of the library, and their contracts are taken as given. Each says
in its comment which function it calls and what is claimed of it: the CRC-32C and BLAKE3
digests, the reason phrases of HTTP, the making of a self-signed certificate, the trust
anchors that certificates make and the forms of private keys, and two conversions from bytes
to text of the standard library.
