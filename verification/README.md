# ThatsMatter bridge

Publishes curated Home Assistant devices as a Matter bridge. Home Assistant drives the
bridge over a loopback HTTP API: it keeps a catalog of exports, pushes entity state, and
polls the commands that Matter controllers issue.

The library under `src/` holds the logic of the bridge and is verified with Verus:

- `catalog`: the export catalog, its requests, stable endpoint assignment, and what is
  saved and loaded. `catalog::rules` says what each operation does, `catalog::laws` what
  holds of the catalog as a whole.
- `matter::export_plane`: the bridged endpoints that controllers see, with their state,
  data versions, reports and commands. `matter::plane_rules` says what each operation
  does, `matter::plane_laws` what holds of the plane as a whole.
- `matter::lan_netif`: which network interface Matter uses.
- `matter::commissioning` and `matter::pairing`: passcode, discriminator and the codes
  made of them.
- `matter::dev`, `matter::rs_matter_backend` and `matter::pairing_window`: the offline
  backend, what is known of the Matter stack, and the pairing window.
- `matter::clusters` and `matter::on_off_map`: values of Home Assistant as cluster values.
- `ipc`: bodies and decisions of the control API.
- `config`, `ids`, `text`: configuration rules, export identities, text.

`app/` is the process around the library: command line, files, HTTP, timers and the Matter
stack of `rs-matter`. Its Matter modules are written for `rs-matter-stack` 0.1, which
`Cargo.toml` does not list, and for the 0.7 releases of `edge-nal` and `edge-nal-std`.

`Cargo.toml` names `embassy-futures` only to hold it at 0.1.1: `rs-matter` 0.1.0, from which
the library has its pairing codes, does not build with 0.1.2.

Outside calls that the library makes go through small functions whose contracts are
trusted: `uuid` in `ids`, `rand` in `matter::commissioning` and `matter::slot`, and the
pairing codes of `rs-matter` in `matter::pairing`.
