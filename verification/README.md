# hades

Turns the machine you already own into a small cloud: declare an app, get a container, a
route and a public link; add a machine, and deploys land where there is room.

`src/` is the library: everything that the host, the command line and the coordinator
decide, as executable Rust with contracts that Verus proves. `app/` is the program around
it: processes, files, HTTP, Docker and clap. It asks the library what to do next, does it,
and hands back what came of it.

## The library

| Modules | What they hold |
|---|---|
| `text`, `number`, `split`, `order`, `rounding`, `double`, `values`, `names`, `maps`, `hexa`, `time`, `random`, `json` | text, numbers and maps, and what the library takes from chrono, rand, serde_json and std |
| `app_spec`, `size`, `config`, `paths`, `error`, `events`, `types` | the app's spec and manifest, sizes, configuration, errors with stable codes, the events of a host |
| `proxy`, `gateway` | which app a hostname leads to, which backend serves a request, when one is shed |
| `policy`, `watchdog`, `power`, `probe`, `uptime`, `notify`, `startup` | who is paused under pressure, dead replicas and crash loops, what a gap in the heartbeat means, what is told to whom |
| `state`, `ledger`, `fleet`, `rollout`, `deploy`, `reconcile`, `daemon`, `runtime`, `secrets`, `tunnel` | desired state, admission control, placement, zero-downtime rollouts, convergence after a restart, sealed secrets |
| `coordinator`, `cloudflare` | handing out stable names, and taking everything back when a step fails |
| `api`, `client`, `reports`, `selftest`, `doctor`, `init`, `launchd` | what the daemon answers, and how it is asked |
| `cli`, `render`, `update` | what the command line asks for and prints |

Work that takes several outside steps (a deploy, a rollout, a claim, a round of
supervision, a tunnel) is a state machine: a value that holds where the work stands, and a
function from an event to the next step. The machine's contract is its transition function;
the laws about it are public proof functions next to it.

Floating-point figures are carried as their bits (`double::Double`) and compared, rounded
and printed by the library; sums and quotients of them are the program's.

What is taken on trust is each function marked `external_body`, and the specification of
`String::push`: calls into one of chrono, rand, serde_json, flate2, chacha20poly1305, regex
or std each, with what is claimed of them in its comment.

## The program

One binary under three names: `hades`, `hadesd` and `hades-coordinator`. `app/wire.rs`
holds the copies of the library's types that travel as JSON or rest as TOML.
