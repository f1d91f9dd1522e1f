# chapr_endpoint

The endpoint of a coordinated shared drive: an MCP server that serves files of a
share to the agents of one person, and keeps them and everybody else's agents
from overwriting each other.

`src/` is the library, verified with Verus. It holds every decision that the
endpoint takes:

- how paths are spelled and confined (`pathgrammar`, `mount`, `canon`),
- the operations on files as machines that say what they need done and are told
  what came of it (`backend`, `write_cas`, `delete_cas`, `restore_in_place`,
  `move_cas`, `create`), and the verbs round them that take a lease, record what
  was done and give the lease back (`write`, `ops`, `read`, `moverecover`),
- what a read may hand to a model (`sniff`, `envelope`) and what a model is told
  (`server`, `diag`),
- leases and locks (`lease_manager`, `pathlock`), near-duplicate names
  (`nearname`), the start-up and the self-test (`startup`, `selftest`).

The public proof functions state what holds of whole runs: that nothing is
overwritten unseen, unsaved or unnoted, that a person who has a document open
always wins, that a change on the share is never reported as not made, and that
every lease taken is given back.

`app/` is the program round the library: it performs what the machines ask for,
on the share and with the coordinator, and speaks the protocol of the host.

`tests/` runs the library, the operations against a share and a coordinator held
in memory.
