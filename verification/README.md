# Change Capsule

A capsule is one isolated attempt at a change: a Git worktree pinned to an exact
base commit, with a durable record of what was done in it. Closing a capsule
seals its complete patch; exporting it gives a receipt that anyone can check
offline; integrating it reproduces exactly the sealed bytes on the pinned base,
or does nothing.

The library in `src/` makes the decisions: what a request must look like, what
the stored manifests may hold, which Git commands are run and what their output
means, when a workspace still proves to be the capsule's own, when a result may
be sealed, verified, attested, integrated, or dropped, whether the policy admits
a transition, and how an interrupted transition is completed. It performs no
input or output. What was read from the file system or from Git comes in as a
value, with the error that prevented it where it could not be read; what to do
next comes out as a value. Verus proves each function against its contract, and
the proof functions named `law_...` state what holds of the library as a whole.

A program asks for these decisions one after the other, hands each what the one
before it gave, and carries out what it is told. That it asks for all of them is
the program's part, and so is that it records a command as executed only where
it ran that command.

`app/` is the `capsule` program: the command line, the state directory with its
locks and atomic writes, the Git process, and the JSON forms of the library's
types. `tests/` runs the library on concrete values.

| Where | What |
| --- | --- |
| `model`, `record`, `links`, `git_path`, `paths`, `text`, `bytes`, `order` | values and their views |
| `error` | errors, their messages, and their classes |
| `validate`, `options` | the rules for requests |
| `store`, `files`, `manager` | stored manifests and the state directory |
| `commands`, `git`, `runs`, `worktree` | Git: commands, output, and ownership |
| `create`, `idempotency` | creation and idempotent replay |
| `steps`, `checkpoint`, `recording`, `execution`, `evidence`, `inventory`, `walk`, `close`, `integrate`, `cleanup`, `recover` | transitions and their recovery |
| `policy`, `admission` | limits, and whether they admit a transition |
| `query`, `artifacts`, `audit`, `metrics`, `backup` | inspection and administration |
| `verify`, `attestation`, `signature`, `receipts`, `digest` | receipts |
| `calls` | laws over calls made one after the other |
| `capabilities` | the protocol contract of this build |

SHA-256, hexadecimal encoding, Ed25519, ULIDs, random bytes, zeroing memory, and
reading one number or text out of a JSON document come from outside crates, and
a few text conversions from the standard library, behind small functions whose
assumed contracts say what is relied on.
