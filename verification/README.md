# anyrouter

Daily check-in for new-api style relay sites (AnyRouter, AgentRouter and
their kin): accounts and sites are configured from files, the environment or
a local database, a browser runner signs in (cookies, a login, or a single
sign-on login) and checks in, and the results are reported by log and e-mail.
The state, dialogs and text field of the desktop front ends are modelled in
the library; drawing them is not part of this crate.

`src/` is the verified library. Every function carries a Verus contract:

- `config`, `config_loader`, `cli_args`, `env_import`, `models`, `storage`:
  configuration sources, their merge and write-back plan, validation;
- `playwright`, `checkin`, `run`, `balance`, `waf`, `cookie`: what is handed
  to the browser runner, how its answers are matched and reported, balance
  fingerprints, the WAF challenge script, cookie expiry;
- `crypto`, `core_crypto`: AES-256-GCM sealing of stored secrets;
- `log`, `notify`: log records and files, e-mail settings;
- `app_state`, `gui_state`, `forms`, `text_input`, `service`: the state of the
  desktop front ends, their dialogs, badges and text field editing model;
- `text`, `json`: character-level text utilities and a JSON value model.

`app/` holds the command-line program around it: reading files and the
environment, the database, the keyring, the browser subprocess, HTTP, SMTP and
floating-point formatting.

`tests/` exercise the library on concrete values.
