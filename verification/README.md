# ci_modules

The configuration modules that set a machine up when it boots: its disks, mounts,
packages, certificates, locale, and the agents that take over afterwards. Each
module reads a configuration, asks the machine what it has to know, and has the
machine do what follows. What a module asks and does, in which order, and each line
that it writes to the log on the way is stated in its contract and proved with
Verus.

## Layout

- `src/cc/` holds a file for each module and what the modules share. A module's
  `host.rs` has the questions it puts to the machine as a trait, the mathematical
  form of a machine that answers them, and a scripted machine for tests.
- `src/value.rs`, `src/show.rs` and `src/walk.rs` are the values of a
  configuration: their form, how they are printed, and how they are walked.
- `src/text.rs`, `src/space.rs`, `src/shlex.rs`, `src/number.rs`, `src/paths.rs`,
  `src/order.rs`, `src/b64.rs`, `src/dumps.rs` and `src/rootdev.rs` are the small
  formats.
- `src/machine.rs` is the model of a machine: a state, a rule that answers calls,
  and the calls so far.
- `src/json.rs`, `src/pattern.rs`, `src/case.rs` and the first lines of
  `src/text.rs` hold all that is taken on trust: `serde_json`, `regex`, the Unicode
  tables of `std`, and `String::push`.
- `tests/` runs the modules on scripted machines.
- `app/` is the real machine: commands, files and the network. It is not verified.

## How a contract reads

A module's `handle_with` takes a configuration and a host. Its contract equates
the machine after the call and the result with a spec function of the machine
before it, so that every call to the machine, every line of the log, their order, and
the result are fixed for every way in which a machine may answer. Below the functions of a module stand
its laws: statements about all configurations and all machines.
