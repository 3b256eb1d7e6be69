# NetPulse (`network_dash`)

The logic of a full-screen terminal dashboard that continuously evaluates a machine's network
health (latency, jitter, packet loss, DNS, routing, throughput, and the wireless link), as a
library verified with [Verus](https://github.com/verus-lang/verus), and the program around it.

`src/` is the library. Every function in it carries a contract that Verus proves; the functions
named `law_…` state what holds of the library as a whole.

| Module | What it holds |
|--------|---------------|
| `units`, `text`, `format`, `scan`, `map` | fixed-point readings, texts, number formatting, parsing helpers, an ordered map |
| `health` | thresholds, debouncing, flap detection |
| `history` | bounded histories and rolling statistics |
| `config`, `incidents`, `net` | settings, incident records and the log's rotation, the default route |
| `metrics` | samples, and what each probe makes of what came back |
| `app` | the reducer: folding samples, attribution, noise control, rollups, actions |
| `diagnosis`, `ruleset`, `unsaid`, `projection`, `consistency` | from the state to a worst-first list of what is wrong and where |
| `ui` | themes, charts, panels, and the screen that they fill |
| `event` | keys, start-up, inputs, the one-shot summary |

Readings are integers, in billionths of their unit; instants and spans are integers, in
nanoseconds. The state of the dashboard has a mathematical model (`app::AppModel`), and each
operation is specified as a function on it.

The library calls two outside crates, each through one small function whose contract is
believed rather than proved: `x509-parser` reads the end of a certificate's validity
(`metrics::tls`), and `ratatui` shares the screen out among the panels (`ui::screen`). Of the
standard library, what `String::push` does is believed as well (`text`).

`app/` is the program: argument handling, the config file, the log file, sockets, subprocesses,
HTTP, the event loop, and drawing.

Keys: `q`/`Esc` quit · `r` refresh · `p` pause · `c` clear events · `t` cycle theme · `?` help.
