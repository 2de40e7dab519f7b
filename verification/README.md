# rulmee

A terminal login manager for Linux virtual terminals: it lists the local
users and the desktop sessions, authenticates through PAM and starts the
chosen session as the user.

The library under `src/` holds the decisions and is verified with Verus:

- `config`, `overrides`: the configuration model, overrides from the
  environment and the command line, the help text of the override flags,
  and which configuration file is read;
- `colors`, `legacy_ini`, `theme`: theme styles, the legacy INI themes and
  theme discovery;
- `session`, `login`: desktop entry `Exec` lines, what a login request
  selects and the steps that carry it out;
- `exec`, `env_map`: the session environment, the command line that starts a
  session and how an X session is started;
- `auth`: the PAM conversation and the order of the PAM calls;
- `ui`: the state of the login screen and what each key does to it;
- `logging`, `launch_state`, `users`, `signal_handler`, `paths`, `text`:
  the console log, the remembered last login, local users, signal handling,
  path parts and text helpers.

`app/` is the program around it: terminal drawing, PAM, processes, files and
the TOML form of the configuration.
