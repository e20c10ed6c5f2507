# agentype-runtime

The runtime of a durable agent scheduler: it claims work, starts executions through adapters,
keeps their leases alive, observes them, recovers after a restart and notifies the root.

`src/` holds every decision, with contracts that Verus proves.  A procedure that talks to the store,
an adapter or the root bridge is a step type: each step names one outside call, and `resume` takes
the reply to the next step.  The proof functions named `law_*` state what holds of whole procedures.

| module | what it decides |
| --- | --- |
| `time`, `timing`, `text`, `json`, `domain` | numbers of seconds, timing chains, texts, stored values |
| `adapters`, `deadlines` | installed adapters, their bindings and call budgets |
| `launch`, `dispatch` | from a claim to at most one physical start and its durable consequence |
| `observation` | what adapter evidence proves |
| `supervision`, `heartbeat`, `runner` | admissions, lease renewal, the life of a worker |
| `observer` | physical observation of supervised executions |
| `notifier` | delivery of root wake-ups and their retries |
| `replay`, `reconcile`, `recovery` | the restart barrier |
| `process_lock` | one owner per store |
| `control`, `daemon` | the control loop, start and stop of the daemon |

`app/` carries the steps out: threads, files, locks and the interfaces of the services.
`tests/` runs the library.
