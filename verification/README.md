# sandboxd

The decisions of a sandbox worker, verified with Verus: what it admits, what it asks of the
programs around it, and what it makes of their answers.

## The library

`src/` holds the verified library. It performs no input or output. A function takes what was read
as plain values and says in its contract what comes of them; where work and decisions alternate,
the decisions are a step function from a state and an event to the next state.

| Module | What it decides |
| --- | --- |
| `oci` | Compose files and topology locks, network policies, Docker and containerd images, writable roots |
| `volume` | Local and directory volumes: identities, attachments, freezing, snapshots, restoration, recovery, artifacts, secrets |
| `placement` | The fair queue, leases, workers, pools, stored rows, and how the database may be reached |
| `protocol` | Requests to a worker and the orders that cover them |
| `runtime` | What a sandbox backend offers |
| `text`, `bytes`, `byteset`, `lines`, `paths`, `table`, `json`, `digest`, `checks`, `time` | What the others are built of |

Functions named `law_..` state what holds of several functions together.

Calls into other crates stand behind small trusted functions, each with a comment that says what
is claimed of the call:

| Module | Calls |
| --- | --- |
| `digest` | SHA-256 of `sha2`, hexadecimal digits of `hex` |
| `json` | parsing by `serde_json`, and taking its values apart |
| `oci::provider::containerd` | JSON strings of `serde_json` |
| `oci::provider::credentials` | Base64 of `base64`, quoted text of the standard library |
| `placement::database` | connection strings of `tokio-postgres`; certificates and private keys in PEM and root stores of `rustls` |
| `text` | UTF-8 decoding of the standard library |
| `lines` | lossy UTF-8 decoding and text from characters, of the standard library |

## The application

`app/` is ordinary Rust around the library: files, processes, mounts, archives and the placement
database. It reads, asks the library, and does what the answer says. The rules for identifiers,
volume specifications and work orders that the platform sets enter through the trait `Rules`.

## The tests

`tests/` runs the library on concrete values.
