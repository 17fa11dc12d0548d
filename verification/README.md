# BitcoinPIR cashier

The credit issuer of BitcoinPIR. It sells ARC credentials (and session grants)
for Cashu ecash, verifies what PIR servers redeem, and settles with each server
in gas. Every decision it takes is a function in `src/` with a contract that
Verus proves; `app/` is the service around them.

## Layout

```
src/text.rs             text: trimming, prefixes, order, decimal numbers
src/encoding.rs         hexadecimal, base64, fixed-width integers
src/crypto.rs           SHA-256, HKDF and Ed25519, by name
src/credit.rs           gas arithmetic, epochs, messages
src/config.rs           configuration rules, defaults, seed files
src/cashu.rs            token summary, idempotency key, swap outcomes
src/grant.rs            session grants
src/issuer_key.rs       the key that signs redeem answers
src/arc.rs              per-epoch ARC keys, issuance, verification
src/log.rs              reading an append-only log
src/store.rs            token log and its index
src/ledger.rs           redeem log: replay index, spent tags, totals per server
src/redeem.rs           authentication of redeem requests
src/payment.rs          taking a token
src/purchase.rs         selling grants and credentials
src/settlement.rs       settling a redeem request
src/purchase_laws.rs    what holds of every purchase
src/settlement_laws.rs  what holds of every settlement
src/trade_laws.rs       what holds over any series of both
src/api.rs              contract error codes, service descriptions
tests/                  tests against a scripted mint
app/                    CLI, HTTP service, wallet, files
```

Purchases and settlements are state machines: they ask for one thing at a time
(append to a log, swap a token, sign, verify) and are told how it went. `app/`
does what they ask for.

## Trust

Functions marked `external_body` stand for calls into `hex`, `base64`, `sha2`,
`hkdf`, `ed25519-dalek`, `cdk` and the standard library. Each says above it what
is taken on trust.
