# unidpp-trust

The trust-list service of UniDPP: a verifier fetches live trust state from it
instead of embedding fixtures. The service keeps

- a delegation graph of nodes, keys and parent-signed credentials,
- one trust list per jurisdiction, its entries with validity windows,
- an M-of-K master list attested by independent witnesses,
- gated evidence documents, each released under its scope alone,
- a ledger of revocations, whose reasons are prospective (what was done
  before stands) or retroactive (void from the start, inside an explicit
  window), and
- an append-only audit log, journaled line by line and replayed on start.

Every reply is stamped with the instant it speaks of and signed in two suites
over its exact bytes.

## Layout

`src/` is the verified library. It decides everything that is decided on plain
values:

| module | what it holds |
|---|---|
| `text`, `data`, `json` | texts, ordered collections, JSON documents |
| `hex`, `codec` | hex, and JSON text read and written by `serde_json` |
| `time`, `httpc` | UTC instants, HTTP client framing |
| `model`, `judge` | the trust model as plain values, and the verdicts on it |
| `wire`, `evidence`, `roundtrip` | wire forms, and the laws that they read back |
| `quorum` | when an attestation is quorate |
| `store`, `laws` | the store, its journal records, and the laws of both |
| `seed` | the seed fixtures |
| `api` | configuration, parameters, replies, headers; reads, writes, evidence, discovery, and what a verifier rebuilds |
| `ceremony` | the command line and the documents of a quorum ceremony |

What only the SIGNATIF model can tell (whether a text is an id, whether bytes
are a key, whether a signature verifies, whether a scope admits an edge) enters
the library as a table of verdicts, and every contract is stated over it.

`app/` is the program around the library: sockets, files, the environment, the
router with its interface contract, signing, and the calls into the SIGNATIF
model. `tests/` run the library on concrete values.

## Fixtures

The seed fixtures are anchored at `T0 = 1_000_000` seconds after the epoch, so
their instants are 1970 dates. They are recorded and journaled like any other
mutation, and only into a store that is empty after the journal was replayed.
For a question about the past each fixture stands from its own instant (a
declaration from when it is declared, everything else from `T0`), so `?at=`
answers for the instants of the scenario.
