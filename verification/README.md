# pacpin

Decisions of a package resolver and upgrade engine for Arch Linux, verified with Verus: which
repository each package is taken from, what an upgrade does, which orphans may go, what a
trial run of an uninstalled package may unpack and see, and how all of that is shown.

The library (`src/`) takes and returns plain values and never touches the machine. Each of its
functions states what it returns in `requires` and `ensures`; the public proof functions state
what holds across functions (an exact pin always wins, a refused archive is never unpacked, a
rollback accounts for every package of its transaction, and so on).

The program (`app/`) reads the package databases, runs commands, draws on the terminal and
hands what it found to the library.

## Layout

| Modules | What they hold |
| --- | --- |
| `text`, `style`, `strmap`, `order`, `paths`, `json`, `patterns`, `double`, `utils` | texts, styled pages, ordered maps, sorting, paths, JSON lookups, glob patterns, floating-point numbers as integers |
| `config`, `pins`, `commands`, `wizard`, `alias` | the configuration and the commands that change it |
| `db`, `resolver`, `aur`, `query` | the package databases, the choice of candidates, holds and delays |
| `install`, `upgrade`, `pm`, `transaction`, `views`, `ui` | installations, upgrades, the commands that are run and what is shown of them |
| `orphans`, `restart`, `journal`, `history`, `integrations` | orphans, restarts, recorded transactions, other package managers |
| `download`, `download_plan`, `archive`, `extract`, `container`, `sandbox` | trial runs of packages |
| `cli`, `dispatch` | the command line |
| `tui_select`, `checkbox_view`, `repo_menu` | menus as functions from state and key to state |

The contracts of the few functions that call outside code are believed without proof. They
lower the case of texts, match glob patterns and look up values in JSON, and stand in `text`,
`patterns` and `json`.
