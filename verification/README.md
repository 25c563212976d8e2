# btc-wallet

A BIP86 Taproot wallet with one key. The library in `src/` holds everything that decides
or computes, verified with Verus against its contracts; the program in `app/` reads
arguments and files, talks to the terminal and to a block explorer, and calls the library
for the rest.

| Module | What it holds |
| --- | --- |
| `keys` | mnemonics, seeds, extended keys, key pairs, addresses |
| `wallet` | the wallet, signing and finalizing PSBTs, extracting transactions |
| `psbt` | the PSBT and its binary and base64 forms |
| `psbt_file` | PSBT files: reading, signing, preparing for broadcast, summing up |
| `send` | payments with change, and the way from unspent outputs to a transaction |
| `coin_control` | choosing by hand which outputs a payment spends |
| `sweep` | which outputs a sweep takes, and how outputs divide by kind |
| `api` | requests to the explorer, what its replies mean, rare satoshis |
| `wallet_file` | the wallet file |
| `tx`, `network`, `encoding`, `text` | transactions, networks, bytes as text, text |

What the outside crates compute (key derivation, hashing, signatures, the PSBT and
transaction formats, JSON) is reached through small functions marked
`#[verifier::external_body]`. Their contracts are believed, not proved; each says in its
comment which outside function it calls and what it claims of it.

The decoder of PSBTs reads up to 4,000,000 bytes of global fields and up to as many for
each single value, whatever the size of the whole. What is stated of reading back a PSBT
that was written holds within these limits.
