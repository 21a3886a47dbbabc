# wallet_performance

Performance harness for two Tari transaction flows: the old wallet
(`minotari_console_wallet`, driven over gRPC) and the new wallet
(`minotari-cli`: local UTXO selection, signing, broadcast).

- `src/` is the verified library: every decision the harness takes and every
  figure it reports, with contracts that Verus proves.
  - `load` paces transactions by a pattern; `scenarios` describes what each
    scenario sends; `orchestrator` plans the commands and prepares UTXOs.
  - `driver` holds what the two wallets' drivers decide: how a send ends, when
    a balance is stable, when a scan is complete, when a scanner is restarted.
  - `fund_management` splits, consolidates, drains and reconciles.
  - `metrics` records transactions and computes statistics and summaries.
  - `tari` and `signing` are the only modules that call the Tari crates; `time`
    calls `chrono`; `text` calls two functions of the standard library.
- `tests/` runs the library with the outside crates linked.
- `app/` is the program around it: command line, files, gRPC, HTTP, processes
  and timers. Each of its loops asks the library for the next action.

Times are handed to the library as nanoseconds since the start of whatever is
waited for, rates as whole transactions in whole seconds.
