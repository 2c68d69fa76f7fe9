# puzzle_contracts

Verified state machines for a family of Soroban game contracts: achievement
NFTs and sets, airdrops, clawbacks, grants, conditional rewards, dynamic and
fractional NFTs, pause control, event tickets, flash challenges, identities,
leaderboards, liquidity mining, loyalty points, NFT bundles, staking,
marketplaces, upgrades, price oracles, jackpots, activity proofs,
co-creation, crowdfunding, insurance and staking pools.

- `src/` is the library, checked by Verus. Each contract is a module with a
  storage type and one method per entry point; every method states the
  storage it leaves and the value it returns, or the error it returns with
  the storage unchanged. Accounts are numbers; token, NFT and mint movements
  are returned as orders; what another contract answers is passed in.
  `src/host.rs` holds the few calls into `soroban-sdk` (SHA-256 and XDR
  encoding) with the contracts Verus relies on. Random draws need a running
  contract invocation, so `app/` makes them and hands the roll in.
- `tests/` runs the library on concrete scenarios.
- `app/` is the Soroban side: the address book, carrying out the ordered
  movements, cross-contract queries, storage, events, and the entry points
  of the clawback, airdrop, NFT bundle and NFT upgrade contracts (airdrop
  and bundle hand the library the XDR bytes of the claimer's or buyer's
  address; upgrade draws the roll from the host).
