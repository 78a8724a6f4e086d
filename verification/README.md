# libthere

Planning and execution of tasks on local and remote hosts, verified with Verus.

- `src/plan`: tasks, planning them into commands guarded by ensures, host
  configuration, and narrowing a plan to one host.
- `src/executor`: the log stream, and the local and SSH executors as state
  machines. Each task's ensures are checked before its command runs (locally,
  raw command tasks run at once). The step that finishes an execution closes
  the log stream, and no other step does; in `app/`, an executor whose run
  stops early on an I/O error closes it instead, and a closed sink refuses
  further parts.
- `src/apply.rs`: which hosts a plan is applied to.
- `src/cli`, `src/controller.rs`, `src/agent.rs`, `src/log.rs`: the decisions
  of the command line, the controller and the agent.
- `app/`: the programs around the library: file, process, SSH and HTTP work.

The library's contracts and laws are checked by Verus; `tests/` runs it.
