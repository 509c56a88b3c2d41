# surge

The core of the Surge perpetual futures exchange as a verified library: every
function in `src/` carries a contract that Verus proves, except the few small
wrappers around the ledger's own decimal arithmetic and hashing (in `decimal`
and `referral`), whose contracts state what those ledger functions do and are
trusted.

- `decimal`, `d_float`, `powers`: the ledger's 18-place fixed-point decimals and
  their 16-bit compressed form (with the proof that compressing a representable
  number and reading it back gives the number again).
- `map`, `list`: the ordered map and the append-only list that the state is kept in.
- `config`, `compressed`, `config_store`: exchange, pair and collateral settings,
  their rules, their compressed storage and the settings store.
- `requests`, `account`, `margin_account`, `orders`, `keeper`: keeper requests,
  their life cycle, margin accounts and the requests users make.
- `pool`, `state`, `exchange`, `trade`, `collateral`, `liquidity`,
  `liquidation`, `oracle`: fees, funding, pair updates, trading, collateral,
  liquidity, liquidations and auto-deleveraging.
- `details`, `referral`, `env_registry`: what front ends read, referrals and
  payouts, and the front-end settings registry.
- `access`: the shape of an account's access rule, adding a requirement to it
  and the rules under which the permission registry lists the account.

`app/` holds what stays with the ledger: conversions between the ledger's
values and the library's (access rules among them), the SBOR coding of
stored requests, events, and the order in which a method loads state, runs the
library and writes back.
