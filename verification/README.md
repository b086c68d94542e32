# voyager_message

The module bookkeeping of the voyager relayer host, verified with Verus.

- `src/context.rs`: registering modules (chain, consensus, client and plugin
  modules), looking them up by the keys they serve, and listing them.
- `src/process.rs`: socket paths, process arguments, the judgement of a
  module's `info` query, and the supervision of module processes.
- `src/module.rs`, `src/ids.rs`: what modules report about themselves.
- `src/strmap.rs`: the string-keyed map the registry is built on.
- `src/tendermint.rs`, `src/ibc.rs`, `src/prover_api.rs`: message types and
  their conversions to and from their protobuf and contract forms.
- `src/laws.rs`: properties that span several functions.
- `app/`: the unverified host around the library: starting processes, asking
  them for their info, the serde and protobuf forms of the types, and the
  JSON-RPC errors.
