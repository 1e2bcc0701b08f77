# onerom_cli

The command line arguments of the One ROM tool, verified with Verus: `--slot` and `--plugin`
arguments, the errors they give, and the JSON configurations made from them.

- `src/` is the library. `slot`, `slot_value` and `slot_config` read `--slot` arguments and write
  configurations; `plugin`, `plugin_config` and `manifest` do the same for plugins. `catalog`
  holds, as plain values, what there is to choose from: chip types, boards, CPU frequencies and
  voltages. `json` holds the calls into `serde_json`. The modules whose names end in `_laws` state
  what holds of slots, plugins and configurations as a whole.
- `tests/` runs the library.
- `app/` is the unverified part: files, the network, the words that errors are shown in, and the
  conversion of what the One ROM crates know into the library's plain values.
