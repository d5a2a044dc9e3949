# hyper-slate

A deny-by-default confidential virtualisation core, written and proved with
Verus: hash-chained audit receipts, attested key release, quantum-resistant
storage control, memory and device mediation, network policy, and the local
control plane over a machine's lifecycle.

## Layout

- `src/` — the verified library. Every function states its behaviour in
  `requires` and `ensures`; properties that span functions stand as public proof
  functions under the heading "laws" at the end of a module.
  - `receipts/` — audit chain, compact ledger, security-event log
  - `attest/` — PCR banks, the KMS simulator, secret handles
  - `qrse/` — KEM and signature traits, the hybrid combiner, keyslots, disk
    manifests, downgrade protection, the key hierarchy, the attested unlock
  - `storage/` — cipher profiles, suites, provisioning
  - `mm`, `devices`, `vcpu` — nested page table, device graph, exit dispatch and
    scheduling
  - `net/`, `policy/`, `capsule` — network policy and switch, policy engine,
    capsule manifests
  - `control/`, `operator/`, `pn52/`, `svm/` — control plane, storage operator
    commands, machine inventory, register values
  - `json`, `text`, `text_map`, `lines`, `primitives` — what the rest is made of;
    `primitives` holds the calls into the hash, HMAC, HKDF, hex and zeroize crates
- `tests/` — tests of the library from outside.
- `app/` — the command-line tools: argument handling, files, JSON documents read
  with serde, and the processor instructions.
