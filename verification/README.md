# api

The KessokuTeaTime API backend: it redeploys the website and the server itself when
CI asks it to, either from new container images or from the artifacts of GitHub
Actions workflow runs.

The logic lives in the library under `src/` and is verified with Verus:

- `framework` — the `State` that steers every step (success, retry, stop), the retry
  budget, composable `Transaction`s, the `RetryLoop`, and the queued runner that
  always lets the latest business of an id run;
- `service` — draining the service and stopping it once drained;
- `workflow` — GitHub artifacts and the decisions on the answers of the REST API;
- `deploy` — deployment payloads, the deployment run, and the workers that deploy one
  request at a time;
- `digest`, `archive`, `text` — hashing downloaded artifacts as they stream in and
  checking them against their digests, planning where archive entries go, and the
  string helpers behind them;
- `website`, `update`, `shutdown`, `transactions`, `auth` — request payloads,
  shutdown actions, container commands and the order of an image rollout, and
  notification authentication.

`app/` is the server around it: HTTP endpoints, GitHub requests, archive extraction,
container commands, logging and shutdown handling.
