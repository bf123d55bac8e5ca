# preconf

A preconfirmation service for shielded Zcash payments on a regression test network, with
its logic verified by Verus.

A merchant submits a payment. The service checks that it spends no note of another pending
payment, has a node verify it, looks for its own fee in it, and hands back a signed
receipt. Miners ask the service for the pending payments and put them into their next
block first. For every block that includes such payments the service pays the block's
miner 98 percent of their fees, once the block has a block on top of it.

## Layout

| Module | What it holds |
| --- | --- |
| `amount` | sums that must fit, and the miners' share |
| `text`, `encoding`, `json` | strings, hexadecimal and base64, JSON values |
| `transaction` | transactions and blocks, as far as the service looks into them |
| `wallet` | keys and addresses, trial decryption, the note tree, scanning, payments |
| `ledger`, `snapshot`, `event` | the durable state, its saved form, and what is written down with each change |
| `server`, `receipt`, `status` | calls of merchants, receipts, metrics |
| `reconcile` | what a new chain means for payments and payouts, and what miners are owed |
| `payout` | how a payout comes from being owed to being sent |
| `p2p`, `miner` | the pending set on the wire, and what miners make of it |
| `chain` | following a node |
| `worker`, `config` | the wallet worker, the configuration of a node |

`app/` runs the library: it reads and writes files, sockets and the database, drives the
node, and makes proofs and signatures. What comes in is held against serde's reading of
the same records first, and what goes out is written with its members in their order.

Functions named `law_...` state what holds across several functions: a payment is accepted
once and paid for once, no two pending payments spend a common note, a signed payout is
never signed again, a wallet that follows a growing chain agrees with one that scans it at
once, only the missing blocks of a node are loaded.
