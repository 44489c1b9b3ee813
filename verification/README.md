# bitcoincore_rpc

Bitcoin Core RPC calls carried as MCP tool calls over the Nostr network.

`src/` is the library, written in Verus:

- `api`: the calls that a client offers (`RpcApi`), and objects that are looked
  up by an ID (`Queryable`);
- `args`: positional arguments and their defaults;
- `call`: a call as an MCP tool call, and the reply to it;
- `client`: a client that carries its calls out as tool calls;
- `blockchain_info`, `softfork`: the reply to `getblockchaininfo`, whose
  softfork fields differ between server versions;
- `chain`: block hashes, transaction IDs, blocks and transactions;
- `json`, `wire`: JSON values, and the way in from `serde_json`;
- `tools`, `settings`, `text`: what a server advertises, where to connect to,
  and text helpers;
- `error`: what can go wrong.

A function marked `external_body` makes a call into `serde_json` or `bitcoin`;
its contract is what that crate documents and is not proved here.

`tests/` runs the library with the outside crates linked. `app/` is the program
around it: the connection, the decoding of replies with `serde`, and a run of
all calls against a server.

```text
bitcoincore_rpc <server_pubkey> [relay_url]
```
