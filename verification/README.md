# metapool

The accounting of a liquid staking pool on NEAR, written in Verus. Users deposit NEAR and
get stNEAR, a token whose price rises with the staking rewards. They unstake it and wait,
or swap it right away, at a discount, in a pool of liquidity that other users provide.

Every call is a function from the state and what the chain tells about the call to a new
state and an answer. Its contract says exactly when it is refused, with which error, and
what it changes otherwise. A refused call changes nothing.

## Layout

`src/`, the verified library:

| module | holds |
| --- | --- |
| `wide`, `utils` | 256-bit products and quotients; shares, prices and percentages |
| `ids`, `account_map` | account identifiers, and values filed under them |
| `account`, `ledger`, `liquidity` | one account; the movements of the totals and the accounts |
| `books` | the totals and all accounts as a mathematical value |
| `metapool`, `users`, `views`, `owner` | the pool and its calls |
| `staking_pools` | the validators' pools among which the stake is spread |
| `reward_fee`, `stake`, `staking_contract` | a staking pool with one validator |
| `upgrade` | replacing the code of a contract |
| `epoch_contract` | a contract for trying things out on the chain |
| `laws`, `price_laws`, `settings_laws`, `staking_laws` | what all calls keep true |

`app/` holds the contracts as they run on the chain: storage, promises, JSON and logs.
`tests/` runs the library on concrete values.

## What is proved of the whole

- The totals are the sums over the accounts and the staking pools, and the claims of
  users who unstaked stay covered, through every call.
- Staking and unstaking shares never lower the price of stNEAR; a swap raises the value
  of the liquidity pool and pays what was quoted.
- Staking, unstaking an amount, swapping and removing liquidity leave no dust behind:
  what is close to everything is taken as everything.
- In a staking pool, a share is never worth less than before, and the guarantee fund
  pays at most one yocto per call.

## What is trusted

One function of `near-sdk`, which says whether a text is an account identifier. Its
contract stands in `src/ids.rs`.
