# resync

RepoSync keeps the branches of Git checkouts synchronized across machines. This crate holds its
rules as a library whose behaviour is stated in contracts and proved with Verus, and a command
line around it.

## Layout

- `src/` is the verified library. Everything that decides stands here: what a document means, which
  command Git is asked to run next, what a reply makes of a state.
- `app/` performs what the library asks for: it runs processes, reads and writes files, sends
  requests, and waits.
- `tests/` runs the library on concrete values.

Work that alternates between steps outside and decisions is a state machine with two methods.
`request` says what is to be done next, and `advance` takes what came of it:

| Module | Machine |
| --- | --- |
| `reconcile` | moves a worktree from one hosted commit to another |
| `recover` | recovers a move that was cut short |
| `collect` | removes records and recovery refs that nothing needs |
| `converge` | brings a project to the head of its branch |
| `flush` | goes through the queued publications |
| `delivery` | publishes a commit |
| `validation` | runs the validations of a project on a commit |
| `access` | gives a session access to a project |
| `refresh` | takes in what the provider says of the projects |
| `adopt`, `materialize` | put a hosted project into a directory |
| `join` | subscribes to a hosted project, with an own login or that of a peer |
| `enroll` | enrolls a device with a provider |
| `peer` | enrolls another machine |
| `project` | creates, forks and repairs projects |
| `hook_call` | answers the hook of an agent |
| `lock` | makes a daemon the only one |
| `startup` | finds or starts a daemon of the same build |
| `upgrade` | makes one build the active one |

Questions to Git that take several commands are functions of the results so far: they give
`Next::Run` with the next command, or `Next::Done` with the answer.

`service` answers the requests to the daemon; `gate` decides who may use a worktree;
`transaction` plans recovery and garbage collection; `named_lease` keeps the receipts of leases;
`hooks`, `hook_dispatcher`, `shell` and `cli` are what other tools see of the program.

## What is trusted

The library calls other crates through small functions whose contracts are not proved: URLs
(`address`), dates (`clock`), keys (`credentials`), digests and base64 (`digest`), randomness
(`random`), and two functions of the standard library (`text`). Each says in its comment what it
takes from the function that it calls.
