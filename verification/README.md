# PASETO identity resolver

Resolves the identity of a caller from a PASETO v4 token, verified with keys that an
operator configures. `v4.public` tokens are verified with an Ed25519 public key,
`v4.local` tokens are decrypted with a symmetric key; the kind of the key selects the
purpose. No network is used, and a configuration that is not in order is refused.

`src/` is the library, verified with Verus:

| Module | What it holds |
|---|---|
| `config` | the configuration and the rules that it is held to |
| `error` | why a configuration is refused, and the messages |
| `header` | where the token stands in the headers of a request |
| `paseto` | the calls into `pasetors`, with what is relied on of each |
| `json` | JSON values and dotted paths; the calls into `serde_json` |
| `issuer` | issuers with their keys loaded |
| `claims` | what claims say about the caller |
| `verify` | one token against one issuer |
| `plugin` | loading a configuration, and resolving a request |
| `identity` | identities and outcomes |
| `laws` | what holds of the resolver as a whole |
| `text`, `string_map` | white space, case, splitting; a map in the order of its keys |

What a call into another crate does is stated beside the call and not proved: in `paseto`
and `json`, for `hex` in `config`, and for two functions of the standard library in
`text`. What the clock says is not modelled, and enters every contract as some readings
of it. What follows from the readings is stated: whether a token is accepted, and with
which error it is refused.

`tests/` runs the library with real keys and tokens. `app/` reads the configuration from
JSON, writes logs and metrics, and is what the gateway loads.
