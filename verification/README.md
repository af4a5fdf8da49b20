# agent_poker

Poker tables for agents: the rules of no-limit hold'em, signed requests, payments on an
EVM-compatible chain, a ledger, an audit trail, and clients that play a seat.

* `src/` is the library. Every function in it is verified with Verus against the contract that
  stands with it.
  * `domain`, `engine`: the words of the game and its rules; `engine::laws` states what every
    action keeps.
  * `auth`, `evm`, `chain_tx`, `chain_watcher`: signatures, transactions, and what the chain says of
    payments; `auth_laws` states what a signature commits its signer to.
  * `ledger`, `audit`, `table`, `paging`, `columns`: what is kept, in memory and in rows.
  * `server`: rooms, settlement, the outbox, the pages for those who run the server.
  * `agent_sdk`, `client`: the seat's side.
  * `json`, `json_laws`, `document`, `text`, `backoff`, `cards`, `platform`, `rpc`: what the others
    share.
* `tests/` runs the library, with the outside crates linked.
* `app/` is the program around it: the database, the network, processes and the environment.
