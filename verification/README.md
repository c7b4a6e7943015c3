# rsup

A helper for the dependencies of front-end (npm) projects: it reads a
project's `package.json` and lock file, shows the dependencies and their newer
versions on a local web page, draws a dependency's graph from the lock file,
and installs, updates and removes dependencies with the project's package
manager.

The library in `src/` is written in Verus and verified:

- `config` — the `config.toml` settings and their dotted keys (`web.port`, ...).
- `manager` — which package manager a project uses; the dependency graphs of
  npm (`package-lock.json`) and pnpm (`pnpm-lock.yaml`) lock files.
- `package` — the project's dependencies, the registry information of each,
  the versions an update may go to (through `semver` and `regex`), and the
  package manager commands.
- `utils`, `installer`, `command`, `web` — download addresses, installation
  paths, the web interface's answers and requests, the choice of a free port.
- `text` — string helpers with specifications over `Seq<char>`.

`app/` is the program around it: the command line, file and network access,
the web server and the package manager processes.
