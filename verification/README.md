# jito_miner

The decision logic of an ORE miner that submits its work to Solana as Jito bundles, verified with
Verus, and the program around it.

## What is verified

| module | what it decides |
| --- | --- |
| `src/tips.rs` | how much to tip, and what the tip stream changes |
| `src/chain.rs` | the instructions for tips and compute budget |
| `src/transaction.rs` | which instructions fit into a transaction, and how it is signed |
| `src/mining.rs` | which nonce wins, when the search ends, how solutions are submitted |
| `src/bundle.rs` | what came of a bundle that was sent |
| `src/submission.rs` | when a bundle is sent, when it is sent again, when it is given up |
| `src/request.rs` | JSON-RPC request bodies and what a reply amounts to |
| `src/settings.rs` | where the settings come from |
| `src/miner.rs` | the miner's own settings |
| `src/text.rs` | text helpers |

Work that alternates between the network and decisions is written as a step function: the program
performs the action that the last step asked for and hands back the event. The public proof
functions named `lemma_..` state what holds of whole runs.

## What is trusted

Calls into Solana's crates, drillx, ore-api, rand, serde_json, reqwest and the standard library go
through small wrappers marked `#[verifier::external_body]`. The comment above each says what it
claims of the function it calls. The tests under `tests/` run every one of them.

## The program

`app/` holds the command line, files, sockets and the async runtime. It also holds the conversion
of tips from SOL, which are floating point on the wire, to lamports.
